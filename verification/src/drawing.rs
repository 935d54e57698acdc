//! From segments in points to the lines of a drawing in millimetres.

use crate::document::Document;
use crate::geometry::{LineEntity, Point};
use crate::layout::{extract_pdf_paths, spec_pages_lines, PAGE_MARGIN};
use crate::curve::{lemma_curve_of_a_point, spec_bezier_to_lines};
use crate::scalar::{Exact, Scalar};
use vstd::prelude::*;

verus! {

/// The distance under which two coordinates count as the same: a
/// thousandth.
pub open spec fn spec_tolerance<S: Scalar>() -> S {
    S::of_integer(1).quotient(S::of_integer(1000))
}

/// Millimetres per point: 25.4 by 72.
pub open spec fn spec_millimetres_per_point<S: Scalar>() -> S {
    S::of_integer(254).quotient(S::of_integer(10)).quotient(S::of_integer(72))
}

/// Whether a segment is as good as a point: its ends are no farther apart
/// than the tolerance along either axis.
pub open spec fn spec_is_degenerate<S: Scalar>(line: LineEntity<S>) -> bool {
    !line.start.x.difference(line.end.x).magnitude().exceeds(spec_tolerance::<S>())
        && !line.start.y.difference(line.end.y).magnitude().exceeds(spec_tolerance::<S>())
}

/// A segment with every coordinate multiplied by `factor`.
pub open spec fn spec_scaled<S: Scalar>(line: LineEntity<S>, factor: S) -> LineEntity<S> {
    LineEntity {
        start: Point { x: line.start.x.product(factor), y: line.start.y.product(factor) },
        end: Point { x: line.end.x.product(factor), y: line.end.y.product(factor) },
    }
}

/// The segments that are not degenerate, in their order, each scaled by
/// `factor`.
pub open spec fn spec_scaled_lines<S: Scalar>(lines: Seq<LineEntity<S>>, factor: S) -> Seq<
    LineEntity<S>,
>
    decreases lines.len(),
{
    if lines.len() == 0 {
        Seq::empty()
    } else if spec_is_degenerate(lines.last()) {
        spec_scaled_lines(lines.drop_last(), factor)
    } else {
        spec_scaled_lines(lines.drop_last(), factor).push(spec_scaled(lines.last(), factor))
    }
}

/// The lines of the drawing for segments given in points: the degenerate
/// ones are left out, the others are scaled by `scale_factor` times the
/// millimetres that a point measures.
pub open spec fn spec_generate_dxf<S: Scalar>(lines: Seq<LineEntity<S>>, scale_factor: S) -> Seq<
    LineEntity<S>,
> {
    spec_scaled_lines(lines, scale_factor.product(spec_millimetres_per_point::<S>()))
}

/// Tells whether a segment is as good as a point.
pub fn is_degenerate<S: Scalar>(line: &LineEntity<S>) -> (r: bool)
    ensures
        r == spec_is_degenerate(*line),
{
    let tolerance = S::from_integer(1).over(S::from_integer(1000));
    !line.start.x.minus(line.end.x).absolute().greater_than(tolerance) && !line.start.y.minus(
        line.end.y,
    ).absolute().greater_than(tolerance)
}

/// Makes the lines of a drawing from segments in points: leaves out the
/// degenerate ones and scales the others to millimetres times
/// `scale_factor`.
pub fn generate_dxf<S: Scalar>(lines: &Vec<LineEntity<S>>, scale_factor: S) -> (drawing: Vec<
    LineEntity<S>,
>)
    ensures
        drawing@ == spec_generate_dxf(lines@, scale_factor),
{
    let pt_to_mm = S::from_integer(254).over(S::from_integer(10)).over(S::from_integer(72));
    let final_scale = scale_factor.times(pt_to_mm);
    let mut drawing: Vec<LineEntity<S>> = Vec::new();
    let mut i: usize = 0;
    while i < lines.len()
        invariant
            i <= lines.len(),
            final_scale == scale_factor.product(spec_millimetres_per_point::<S>()),
            drawing@ == spec_scaled_lines(lines@.take(i as int), final_scale),
        decreases lines.len() - i,
    {
        let line = &lines[i];
        proof {
            assert(lines@.take(i + 1).drop_last() =~= lines@.take(i as int));
            assert(lines@.take(i + 1).last() == lines@[i as int]);
        }
        if !is_degenerate(line) {
            drawing.push(
                LineEntity {
                    start: Point {
                        x: line.start.x.times(final_scale),
                        y: line.start.y.times(final_scale),
                    },
                    end: Point {
                        x: line.end.x.times(final_scale),
                        y: line.end.y.times(final_scale),
                    },
                },
            );
        }
        i = i + 1;
    }
    assert(lines@.take(i as int) =~= lines@);
    drawing
}

/// Why a document gives no drawing.
#[derive(Clone, Copy, Debug, PartialEq, Eq, Structural)]
pub enum ConversionError {
    /// The pages draw no segment that is more than a point.
    NoVectorGraphics,
}

/// The lines of the drawing of a whole document: the segments of its pages
/// side by side, scaled to millimetres times `scale_factor`. A document
/// without a single segment that is more than a point gives no drawing.
pub fn convert_document<S: Scalar>(doc: &Document, scale_factor: S) -> (r: Result<
    Vec<LineEntity<S>>,
    ConversionError,
>)
    ensures
        match r {
            Ok(drawing) => drawing@.len() > 0 && drawing@ == spec_generate_dxf(
                spec_pages_lines(*doc, S::of_integer(PAGE_MARGIN), doc.pages@.len() as int),
                scale_factor,
            ),
            Err(e) => e == ConversionError::NoVectorGraphics && spec_generate_dxf(
                spec_pages_lines(*doc, S::of_integer(PAGE_MARGIN), doc.pages@.len() as int),
                scale_factor,
            ).len() == 0,
        },
{
    let lines = extract_pdf_paths(doc);
    let drawing = generate_dxf(&lines, scale_factor);
    if drawing.len() == 0 {
        Err(ConversionError::NoVectorGraphics)
    } else {
        Ok(drawing)
    }
}

/// Segments that each start and end at one point leave nothing in a
/// drawing. This holds where the arithmetic is exact.
pub proof fn lemma_points_are_left_out<S: Exact>(lines: Seq<LineEntity<S>>, factor: S)
    requires
        forall|i: int| 0 <= i < lines.len() ==> (#[trigger] lines[i]).start == lines[i].end,
    ensures
        spec_scaled_lines(lines, factor) == Seq::<LineEntity<S>>::empty(),
    decreases lines.len(),
{
    if lines.len() > 0 {
        S::nothing_exceeds_from_itself(lines.last().start.x);
        S::nothing_exceeds_from_itself(lines.last().start.y);
        lemma_points_are_left_out(lines.drop_last(), factor);
    }
}

/// A curve whose four control points are one point leaves nothing in a
/// drawing, into however many segments it is flattened. This holds where
/// the arithmetic is exact.
pub proof fn lemma_curve_of_a_point_is_left_out<S: Exact>(
    p: Point<S>,
    segments: nat,
    scale_factor: S,
)
    ensures
        spec_bezier_to_lines(p, p, p, p, segments).len() == segments,
        forall|k: int|
            0 <= k < segments ==> #[trigger] spec_bezier_to_lines(p, p, p, p, segments)[k]
                == (LineEntity { start: p, end: p }),
        spec_generate_dxf(spec_bezier_to_lines(p, p, p, p, segments), scale_factor)
            == Seq::<LineEntity<S>>::empty(),
{
    lemma_curve_of_a_point(p, segments);
    lemma_points_are_left_out(
        spec_bezier_to_lines(p, p, p, p, segments),
        scale_factor.product(spec_millimetres_per_point::<S>()),
    );
}

} // verus!
