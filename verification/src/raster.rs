//! Raster images among the stream objects of a document: which of them can
//! be written out, and as what.

use crate::content::bytes_equal;
use crate::document::{Document, StreamObject};
use vstd::prelude::*;

verus! {

/// What is to be written for an image.
#[derive(Clone, Copy, Debug, PartialEq, Eq, Structural)]
pub enum RasterKind {
    /// The stored bytes as they are, as a JPEG file.
    Jpeg,
    /// Pixels of three bytes each, row by row, as a PNG file.
    Rgb { width: u32, height: u32 },
    /// Pixels of one byte each, row by row, as a PNG file.
    Gray { width: u32, height: u32 },
}

/// An image to write out.
#[derive(Clone, Debug, PartialEq)]
pub struct RasterArtifact {
    /// The number of the image among those written, from 1.
    pub sequence: usize,
    pub kind: RasterKind,
    /// For `Jpeg` the bytes of the file; else the pixels.
    pub bytes: Vec<u8>,
}

/// An image to write out, as a value.
pub struct RasterArtifactView {
    pub sequence: nat,
    pub kind: RasterKind,
    pub bytes: Seq<u8>,
}

impl View for RasterArtifact {
    type V = RasterArtifactView;

    open spec fn view(&self) -> RasterArtifactView {
        RasterArtifactView { sequence: self.sequence as nat, kind: self.kind, bytes: self.bytes@ }
    }
}

/// The images as values, in their order.
pub open spec fn artifacts_view(artifacts: Seq<RasterArtifact>) -> Seq<RasterArtifactView> {
    artifacts.map_values(|a: RasterArtifact| a@)
}

/// The name `Image`.
pub open spec fn image_name() -> Seq<u8> {
    seq![0x49u8, 0x6du8, 0x61u8, 0x67u8, 0x65u8]
}

/// The name `DCTDecode`.
pub open spec fn dct_name() -> Seq<u8> {
    seq![0x44u8, 0x43u8, 0x54u8, 0x44u8, 0x65u8, 0x63u8, 0x6fu8, 0x64u8, 0x65u8]
}

/// Whether one of the filters is the JPEG filter.
pub open spec fn spec_is_jpeg(filters: Seq<Vec<u8>>) -> bool {
    exists|i: int| 0 <= i < filters.len() && (#[trigger] filters[i])@ == dct_name()
}

/// What is written, if anything, for pixel data of `len` bytes, `width` by
/// `height`, at `bits` bits per component.
///
/// Only 8 bits are written, and only sizes that fit 32 bits. The length
/// tells what the data are: three bytes a pixel where it is exactly that of
/// three bytes a pixel, else one byte a pixel where it is exactly that of
/// one byte a pixel. Data of any other length are not written, neither in
/// part nor filled up. The name of the color space has no say in this.
pub open spec fn spec_pixel_kind(width: i64, height: i64, bits: i64, len: nat) -> Option<
    RasterKind,
> {
    if bits != 8 || width < 0 || width > u32::MAX || height < 0 || height > u32::MAX {
        None
    } else if len == width * height * 3 {
        Some(RasterKind::Rgb { width: width as u32, height: height as u32 })
    } else if len == width * height {
        Some(RasterKind::Gray { width: width as u32, height: height as u32 })
    } else {
        None
    }
}

/// What is written for a stream object, if anything.
///
/// Only an object of subtype `Image` is written. One with the JPEG filter
/// is written as stored. Any other needs a width, a height and content that
/// could be read; its components have 8 bits unless it says otherwise.
pub open spec fn spec_raster_kind(object: StreamObject) -> Option<RasterKind> {
    match object.subtype {
        Some(subtype) => if subtype@ != image_name() {
            None
        } else if spec_is_jpeg(object.filters@) {
            Some(RasterKind::Jpeg)
        } else {
            match (object.width, object.height, object.content) {
                (Some(width), Some(height), Some(data)) => spec_pixel_kind(
                    width,
                    height,
                    match object.bits_per_component {
                        Some(bits) => bits,
                        None => 8,
                    },
                    data@.len(),
                ),
                _ => None,
            }
        },
        None => None,
    }
}

/// The bytes that are written for a stream object as `kind`: the stored
/// bytes of a JPEG image, else the whole content.
pub open spec fn spec_raster_bytes(object: StreamObject, kind: RasterKind) -> Seq<u8> {
    match kind {
        RasterKind::Jpeg => object.raw@,
        _ => match object.content {
            Some(data) => data@,
            None => Seq::empty(),
        },
    }
}

/// The images written for a sequence of stream objects: one for each object
/// that is not skipped, in the order of the objects, numbered from 1.
pub open spec fn spec_extract_images(objects: Seq<StreamObject>) -> Seq<RasterArtifactView>
    decreases objects.len(),
{
    if objects.len() == 0 {
        Seq::empty()
    } else {
        let before = spec_extract_images(objects.drop_last());
        match spec_raster_kind(objects.last()) {
            Some(kind) => before.push(
                RasterArtifactView {
                    sequence: before.len() + 1,
                    kind,
                    bytes: spec_raster_bytes(objects.last(), kind),
                },
            ),
            None => before,
        }
    }
}

/// The decimal digits of a number.
pub open spec fn spec_decimal(n: nat) -> Seq<u8>
    decreases n,
{
    if n < 10 {
        seq![(0x30 + n) as u8]
    } else {
        spec_decimal(n / 10).push((0x30 + n % 10) as u8)
    }
}

/// The stem of an image's file where the drawing's file has none:
/// `document`.
pub open spec fn default_stem() -> Seq<u8> {
    seq![0x64u8, 0x6fu8, 0x63u8, 0x75u8, 0x6du8, 0x65u8, 0x6eu8, 0x74u8]
}

/// The extension of an image's file: `jpg` for a JPEG image, `png` for
/// pixels.
pub open spec fn spec_extension(kind: RasterKind) -> Seq<u8> {
    match kind {
        RasterKind::Jpeg => seq![0x6au8, 0x70u8, 0x67u8],
        _ => seq![0x70u8, 0x6eu8, 0x67u8],
    }
}

/// The name of the file of image number `sequence`: the stem, `_img_`, the
/// number in decimal digits, a dot, and the extension.
pub open spec fn spec_file_name(stem: Option<Seq<u8>>, sequence: nat, kind: RasterKind) -> Seq<
    u8,
> {
    (match stem {
        Some(s) => s,
        None => default_stem(),
    }) + seq![0x5fu8, 0x69u8, 0x6du8, 0x67u8, 0x5fu8] + spec_decimal(sequence) + seq![0x2eu8]
        + spec_extension(kind)
}

fn decimal(n: usize) -> (r: Vec<u8>)
    ensures
        r@ == spec_decimal(n as nat),
    decreases n,
{
    if n < 10 {
        let mut r: Vec<u8> = Vec::new();
        r.push(0x30 + n as u8);
        assert(r@ =~= spec_decimal(n as nat));
        r
    } else {
        let mut r = decimal(n / 10);
        r.push(0x30 + (n % 10) as u8);
        r
    }
}

fn push_all(to: &mut Vec<u8>, from: &[u8])
    ensures
        final(to)@ == old(to)@ + from@,
{
    let mut i: usize = 0;
    while i < from.len()
        invariant
            i <= from.len(),
            to@ == old(to)@ + from@.take(i as int),
        decreases from.len() - i,
    {
        to.push(from[i]);
        i = i + 1;
        assert(to@ =~= old(to)@ + from@.take(i as int));
    }
    assert(from@.take(i as int) =~= from@);
}

/// Names the file of an image.
pub fn file_name(stem: Option<&[u8]>, sequence: usize, kind: RasterKind) -> (r: Vec<u8>)
    ensures
        r@ == spec_file_name(
            match stem {
                Some(s) => Some(s@),
                None => None,
            },
            sequence as nat,
            kind,
        ),
{
    let mut r: Vec<u8> = Vec::new();
    let ghost chosen: Seq<u8>;
    match stem {
        Some(s) => {
            push_all(&mut r, s);
            proof {
                chosen = s@;
            }
        },
        None => {
            let d: Vec<u8> = vec![0x64u8, 0x6fu8, 0x63u8, 0x75u8, 0x6du8, 0x65u8, 0x6eu8, 0x74u8];
            push_all(&mut r, d.as_slice());
            proof {
                chosen = default_stem();
            }
        },
    }
    assert(r@ =~= chosen);
    let infix: Vec<u8> = vec![0x5fu8, 0x69u8, 0x6du8, 0x67u8, 0x5fu8];
    push_all(&mut r, infix.as_slice());
    let digits = decimal(sequence);
    push_all(&mut r, digits.as_slice());
    r.push(0x2e);
    let extension: Vec<u8> = match kind {
        RasterKind::Jpeg => vec![0x6au8, 0x70u8, 0x67u8],
        _ => vec![0x70u8, 0x6eu8, 0x67u8],
    };
    push_all(&mut r, extension.as_slice());
    assert(r@ =~= chosen + seq![0x5fu8, 0x69u8, 0x6du8, 0x67u8, 0x5fu8] + spec_decimal(
        sequence as nat,
    ) + seq![0x2eu8] + spec_extension(kind));
    r
}

fn is_jpeg(filters: &Vec<Vec<u8>>) -> (r: bool)
    ensures
        r == spec_is_jpeg(filters@),
{
    let dct: Vec<u8> = vec![0x44u8, 0x43u8, 0x54u8, 0x44u8, 0x65u8, 0x63u8, 0x6fu8, 0x64u8, 0x65u8];
    assert(dct@ =~= dct_name());
    let mut i: usize = 0;
    while i < filters.len()
        invariant
            i <= filters.len(),
            dct@ == dct_name(),
            forall|j: int| 0 <= j < i ==> (#[trigger] filters@[j])@ != dct_name(),
        decreases filters.len() - i,
    {
        if bytes_equal(filters[i].as_slice(), dct.as_slice()) {
            return true;
        }
        i = i + 1;
    }
    false
}

/// Decides what is written for pixel data.
pub fn pixel_kind(width: i64, height: i64, bits: i64, len: usize) -> (r: Option<RasterKind>)
    ensures
        r == spec_pixel_kind(width, height, bits, len as nat),
{
    if bits != 8 || width < 0 || width > 0xffff_ffff || height < 0 || height > 0xffff_ffff {
        return None;
    }
    assert(0 <= width * height <= 0xffff_ffff * 0xffff_ffff) by (nonlinear_arith)
        requires
            0 <= width <= 0xffff_ffff,
            0 <= height <= 0xffff_ffff,
    ;
    let pixels: u128 = (width as u128) * (height as u128);
    let size: u128 = len as u128;
    if size == pixels * 3 {
        Some(RasterKind::Rgb { width: width as u32, height: height as u32 })
    } else if size == pixels {
        Some(RasterKind::Gray { width: width as u32, height: height as u32 })
    } else {
        None
    }
}

/// Decides what is written for a stream object.
pub fn raster_kind(object: &StreamObject) -> (r: Option<RasterKind>)
    ensures
        r == spec_raster_kind(*object),
{
    let image: Vec<u8> = vec![0x49u8, 0x6du8, 0x61u8, 0x67u8, 0x65u8];
    assert(image@ =~= image_name());
    match &object.subtype {
        Some(subtype) => if !bytes_equal(subtype.as_slice(), image.as_slice()) {
            None
        } else if is_jpeg(&object.filters) {
            Some(RasterKind::Jpeg)
        } else {
            match (&object.width, &object.height, &object.content) {
                (Some(width), Some(height), Some(data)) => {
                    let bits: i64 = match &object.bits_per_component {
                        Some(bits) => *bits,
                        None => 8,
                    };
                    pixel_kind(*width, *height, bits, data.len())
                },
                _ => None,
            }
        },
        None => None,
    }
}

/// Copies bytes.
fn copy_of(data: &Vec<u8>) -> (r: Vec<u8>)
    ensures
        r@ == data@,
{
    let mut r: Vec<u8> = Vec::new();
    push_all(&mut r, data.as_slice());
    assert(r@ =~= data@);
    r
}

/// Takes the bytes that are written for a stream object.
fn raster_bytes(object: &StreamObject, kind: RasterKind) -> (r: Vec<u8>)
    ensures
        r@ == spec_raster_bytes(*object, kind),
{
    match kind {
        RasterKind::Jpeg => copy_of(&object.raw),
        _ => match &object.content {
            Some(data) => copy_of(data),
            None => Vec::new(),
        },
    }
}

/// Goes through the stream objects of a document in their order and gives
/// the images to write out, numbered from 1 in that order.
pub fn extract_images(doc: &Document) -> (artifacts: Vec<RasterArtifact>)
    ensures
        artifacts_view(artifacts@) == spec_extract_images(doc.objects@),
{
    let mut artifacts: Vec<RasterArtifact> = Vec::new();
    let mut i: usize = 0;
    assert(artifacts_view(artifacts@) =~= spec_extract_images(doc.objects@.take(0)));
    while i < doc.objects.len()
        invariant
            i <= doc.objects.len(),
            artifacts@.len() <= i,
            artifacts_view(artifacts@) == spec_extract_images(doc.objects@.take(i as int)),
        decreases doc.objects.len() - i,
    {
        let object = &doc.objects[i];
        let ghost before = artifacts_view(artifacts@);
        proof {
            assert(doc.objects@.take(i + 1).drop_last() =~= doc.objects@.take(i as int));
            assert(doc.objects@.take(i + 1).last() == doc.objects@[i as int]);
        }
        if let Some(kind) = raster_kind(object) {
            let bytes = raster_bytes(object, kind);
            let sequence = artifacts.len() + 1;
            artifacts.push(RasterArtifact { sequence, kind, bytes });
            assert(artifacts_view(artifacts@) =~= before.push(
                RasterArtifactView {
                    sequence: before.len() + 1,
                    kind,
                    bytes: spec_raster_bytes(*object, kind),
                },
            ));
        }
        i = i + 1;
    }
    assert(doc.objects@.take(i as int) =~= doc.objects@);
    artifacts
}

/// The pixels that are written for an image are exactly as many as its
/// size takes, three bytes or one byte each: never a part of the data, and
/// never fewer bytes than pixels.
pub proof fn lemma_pixels_fill_the_image(object: StreamObject)
    ensures
        match spec_raster_kind(object) {
            Some(RasterKind::Rgb { width, height }) => spec_raster_bytes(
                object,
                RasterKind::Rgb { width, height },
            ).len() == width * height * 3 && object.width == Some(width as i64) && object.height
                == Some(height as i64),
            Some(RasterKind::Gray { width, height }) => spec_raster_bytes(
                object,
                RasterKind::Gray { width, height },
            ).len() == width * height && object.width == Some(width as i64) && object.height
                == Some(height as i64),
            _ => true,
        },
{
}

} // verus!
