use pdf_vectors::document::{Document, ObjectId, StreamObject};
use pdf_vectors::raster::{
    extract_images, file_name, pixel_kind, raster_kind, RasterArtifact, RasterKind,
};

fn image(number: u32) -> StreamObject {
    StreamObject {
        id: ObjectId { number, generation: 0 },
        subtype: Some(b"Image".to_vec()),
        matrix: None,
        resources: None,
        filters: vec![],
        width: None,
        height: None,
        color_space: None,
        bits_per_component: None,
        raw: vec![],
        content: None,
    }
}

fn pixels(number: u32, width: i64, height: i64, color_space: Option<&str>, data: Vec<u8>) -> StreamObject {
    let mut o = image(number);
    o.filters = vec![b"FlateDecode".to_vec()];
    o.width = Some(width);
    o.height = Some(height);
    o.color_space = color_space.map(|c| c.as_bytes().to_vec());
    o.bits_per_component = Some(8);
    o.raw = vec![0x78, 0x9c];
    o.content = Some(data);
    o
}

fn jpeg(number: u32, raw: Vec<u8>) -> StreamObject {
    let mut o = image(number);
    o.filters = vec![b"DCTDecode".to_vec()];
    o.raw = raw;
    o
}

fn doc(objects: Vec<StreamObject>) -> Document {
    Document { pages: vec![], objects }
}

#[test]
fn a_jpeg_image_is_written_as_stored() {
    let mut o = jpeg(1, vec![0xff, 0xd8, 0xff, 0xe0, 1, 2, 3]);
    o.content = Some(vec![9, 9, 9]);
    o.width = Some(1);
    o.height = Some(1);
    assert_eq!(raster_kind(&o), Some(RasterKind::Jpeg));
    assert_eq!(
        extract_images(&doc(vec![o])),
        vec![RasterArtifact { sequence: 1, kind: RasterKind::Jpeg, bytes: vec![0xff, 0xd8, 0xff, 0xe0, 1, 2, 3] }]
    );
}

#[test]
fn the_jpeg_filter_may_stand_anywhere_among_the_filters() {
    let mut o = jpeg(1, vec![1, 2]);
    o.filters = vec![b"ASCII85Decode".to_vec(), b"DCTDecode".to_vec()];
    assert_eq!(raster_kind(&o), Some(RasterKind::Jpeg));
    o.filters = vec![b"DCTDecode".to_vec(), b"FlateDecode".to_vec()];
    assert_eq!(raster_kind(&o), Some(RasterKind::Jpeg));
    o.filters = vec![b"DCTDecod".to_vec(), b"dctdecode".to_vec(), b"DCTDecodeX".to_vec()];
    assert_eq!(raster_kind(&o), None);
}

#[test]
fn three_bytes_a_pixel_in_device_rgb() {
    let data: Vec<u8> = (0..12).collect();
    let o = pixels(1, 2, 2, Some("DeviceRGB"), data.clone());
    assert_eq!(raster_kind(&o), Some(RasterKind::Rgb { width: 2, height: 2 }));
    assert_eq!(
        extract_images(&doc(vec![o])),
        vec![RasterArtifact { sequence: 1, kind: RasterKind::Rgb { width: 2, height: 2 }, bytes: data }]
    );
}

#[test]
fn one_byte_a_pixel_in_device_gray() {
    let data: Vec<u8> = (0..6).collect();
    let o = pixels(1, 3, 2, Some("DeviceGray"), data.clone());
    assert_eq!(raster_kind(&o), Some(RasterKind::Gray { width: 3, height: 2 }));
    assert_eq!(
        extract_images(&doc(vec![o])),
        vec![RasterArtifact { sequence: 1, kind: RasterKind::Gray { width: 3, height: 2 }, bytes: data }]
    );
}

#[test]
fn bytes_beyond_the_pixels_are_not_cut_off_but_skipped() {
    let o = pixels(1, 1, 1, Some("DeviceRGB"), vec![1, 2, 3, 4]);
    assert_eq!(raster_kind(&o), None);
    assert_eq!(extract_images(&doc(vec![o])), vec![]);
    let o = pixels(1, 2, 2, Some("DeviceRGB"), (0..20).collect());
    assert_eq!(extract_images(&doc(vec![o])), vec![]);
    let o = pixels(1, 3, 2, Some("DeviceGray"), (0..20).collect());
    assert_eq!(extract_images(&doc(vec![o])), vec![]);
    let o = pixels(1, 2, 2, None, (0..13).collect());
    assert_eq!(raster_kind(&o), None);
}

#[test]
fn the_length_tells_the_kind_whatever_the_color_space() {
    for name in [Some("DeviceRGB"), Some("DeviceGray"), Some("ICCBased"), Some("DeviceCMYK"), None] {
        let o = pixels(1, 2, 2, name, (0..12).collect());
        assert_eq!(raster_kind(&o), Some(RasterKind::Rgb { width: 2, height: 2 }));
        let o = pixels(1, 2, 2, name, (0..4).collect());
        assert_eq!(raster_kind(&o), Some(RasterKind::Gray { width: 2, height: 2 }));
        for len in [0u8, 1, 3, 5, 11, 13, 16, 24] {
            let o = pixels(1, 2, 2, name, (0..len).collect());
            assert_eq!(raster_kind(&o), None, "{:?} {}", name, len);
        }
    }
}

#[test]
fn too_few_bytes_are_skipped() {
    assert_eq!(raster_kind(&pixels(1, 2, 2, Some("DeviceRGB"), (0..11).collect())), None);
    assert_eq!(raster_kind(&pixels(1, 2, 2, Some("DeviceGray"), (0..3).collect())), None);
    assert_eq!(raster_kind(&pixels(1, 2, 2, Some("DeviceCMYK"), (0..16).collect())), None);
}

#[test]
fn only_eight_bits_a_component_are_written() {
    let mut o = pixels(1, 2, 2, Some("DeviceRGB"), (0..12).collect());
    o.bits_per_component = Some(1);
    assert_eq!(raster_kind(&o), None);
    o.bits_per_component = Some(16);
    assert_eq!(raster_kind(&o), None);
    o.bits_per_component = None;
    assert_eq!(raster_kind(&o), Some(RasterKind::Rgb { width: 2, height: 2 }));
}

#[test]
fn an_image_needs_width_height_and_content() {
    let full = pixels(1, 2, 2, Some("DeviceRGB"), (0..12).collect());
    let mut o = full.clone();
    o.width = None;
    assert_eq!(raster_kind(&o), None);
    let mut o = full.clone();
    o.height = None;
    assert_eq!(raster_kind(&o), None);
    let mut o = full.clone();
    o.content = None;
    assert_eq!(raster_kind(&o), None);
}

#[test]
fn only_images_are_written() {
    let full = pixels(1, 2, 2, Some("DeviceRGB"), (0..12).collect());
    let mut o = full.clone();
    o.subtype = Some(b"Form".to_vec());
    assert_eq!(raster_kind(&o), None);
    o.subtype = None;
    assert_eq!(raster_kind(&o), None);
    let mut j = jpeg(2, vec![1]);
    j.subtype = Some(b"image".to_vec());
    assert_eq!(raster_kind(&j), None);
}

#[test]
fn sizes_that_do_not_fit_are_skipped() {
    assert_eq!(pixel_kind(-1, 4, 8, 100), None);
    assert_eq!(pixel_kind(4, -1, 8, 12), None);
    assert_eq!(pixel_kind(-2, -2, 8, 4), None);
    assert_eq!(pixel_kind(-2, -2, 8, 12), None);
    assert_eq!(pixel_kind(1 << 32, 1, 8, 100), None);
    assert_eq!(pixel_kind(1, i64::MAX, 8, 100), None);
    assert_eq!(pixel_kind(u32::MAX as i64, u32::MAX as i64, 8, usize::MAX), None);
    assert_eq!(pixel_kind(u32::MAX as i64, 1, 8, 100), None);
}

#[test]
fn sizes_up_to_32_bits_fit() {
    let w = u32::MAX as i64;
    assert_eq!(pixel_kind(w, 1, 8, u32::MAX as usize), Some(RasterKind::Gray { width: u32::MAX, height: 1 }));
    assert_eq!(
        pixel_kind(1, w, 8, 3 * (u32::MAX as usize)),
        Some(RasterKind::Rgb { width: 1, height: u32::MAX })
    );
    assert_eq!(pixel_kind(w, 1, 8, u32::MAX as usize + 1), None);
}

#[test]
fn pixel_kind_goes_by_bits_and_length() {
    assert_eq!(pixel_kind(4, 3, 8, 36), Some(RasterKind::Rgb { width: 4, height: 3 }));
    assert_eq!(pixel_kind(4, 3, 8, 12), Some(RasterKind::Gray { width: 4, height: 3 }));
    assert_eq!(pixel_kind(4, 3, 8, 35), None);
    assert_eq!(pixel_kind(4, 3, 8, 37), None);
    assert_eq!(pixel_kind(4, 3, 8, 13), None);
    assert_eq!(pixel_kind(4, 3, 8, 0), None);
    assert_eq!(pixel_kind(4, 3, 1, 36), None);
    assert_eq!(pixel_kind(4, 3, 16, 12), None);
    assert_eq!(pixel_kind(4, 3, 0, 12), None);
}

#[test]
fn an_image_without_pixels() {
    assert_eq!(pixel_kind(0, 5, 8, 0), Some(RasterKind::Rgb { width: 0, height: 5 }));
    assert_eq!(pixel_kind(0, 0, 8, 0), Some(RasterKind::Rgb { width: 0, height: 0 }));
    assert_eq!(pixel_kind(0, 0, 8, 3), None);
    let o = pixels(1, 0, 5, Some("DeviceGray"), vec![]);
    assert_eq!(
        extract_images(&doc(vec![o])),
        vec![RasterArtifact { sequence: 1, kind: RasterKind::Rgb { width: 0, height: 5 }, bytes: vec![] }]
    );
    let o = pixels(1, 0, 5, Some("DeviceRGB"), vec![1, 2, 3]);
    assert_eq!(extract_images(&doc(vec![o])), vec![]);
}

#[test]
fn images_are_numbered_in_the_order_of_the_objects() {
    let mut form = image(2);
    form.subtype = Some(b"Form".to_vec());
    form.content = Some(b"0 0 m 1 1 l".to_vec());
    let objects = vec![
        pixels(1, 1, 1, Some("DeviceGray"), vec![7]),
        form,
        jpeg(3, vec![1, 2, 3]),
        pixels(4, 2, 2, Some("DeviceRGB"), vec![1, 2, 3]),
        pixels(5, 1, 2, Some("DeviceRGB"), vec![1, 2, 3, 4, 5, 6]),
        jpeg(6, vec![]),
    ];
    assert_eq!(
        extract_images(&doc(objects)),
        vec![
            RasterArtifact { sequence: 1, kind: RasterKind::Gray { width: 1, height: 1 }, bytes: vec![7] },
            RasterArtifact { sequence: 2, kind: RasterKind::Jpeg, bytes: vec![1, 2, 3] },
            RasterArtifact { sequence: 3, kind: RasterKind::Rgb { width: 1, height: 2 }, bytes: vec![1, 2, 3, 4, 5, 6] },
            RasterArtifact { sequence: 4, kind: RasterKind::Jpeg, bytes: vec![] },
        ]
    );
}

#[test]
fn a_document_without_images() {
    assert_eq!(extract_images(&doc(vec![])), vec![]);
}

#[test]
fn files_are_named_by_stem_number_and_kind() {
    let rgb = RasterKind::Rgb { width: 1, height: 1 };
    let gray = RasterKind::Gray { width: 1, height: 1 };
    assert_eq!(file_name(Some(b"plan"), 1, RasterKind::Jpeg), b"plan_img_1.jpg".to_vec());
    assert_eq!(file_name(Some(b"plan"), 2, rgb), b"plan_img_2.png".to_vec());
    assert_eq!(file_name(Some(b"a b"), 10, gray), b"a b_img_10.png".to_vec());
    assert_eq!(file_name(Some(b""), 907, RasterKind::Jpeg), b"_img_907.jpg".to_vec());
    assert_eq!(file_name(None, 3, RasterKind::Jpeg), b"document_img_3.jpg".to_vec());
    assert_eq!(file_name(None, 0, rgb), b"document_img_0.png".to_vec());
    assert_eq!(
        file_name(Some(b"x"), usize::MAX, rgb),
        format!("x_img_{}.png", usize::MAX).into_bytes()
    );
}
