//! Pages side by side: each page gets its own stretch of the x axis.

use crate::content::{operand_value, operands_view, spec_operand_value};
use crate::document::{Document, Page};
use crate::geometry::{LineEntity, Transform};
use crate::interpreter::{parse_content_stream, spec_stream, MAX_FORM_DEPTH};
use crate::scalar::Scalar;
use vstd::prelude::*;

verus! {

/// The width of a page that declares none.
pub const DEFAULT_PAGE_WIDTH: i64 = 1000;

/// The gap between one page and the next.
pub const PAGE_MARGIN: i64 = 200;

/// The width of a page: the distance between the first and the third entry
/// of its bounding box, or the default width where the page has no bounding
/// box of at least four entries.
pub open spec fn spec_page_width<S: Scalar>(page: Page) -> S {
    match page.media_box {
        Some(entries) => if entries@.len() >= 4 {
            spec_operand_value::<S>(operands_view(entries@)[2]).difference(
                spec_operand_value::<S>(operands_view(entries@)[0]),
            ).magnitude()
        } else {
            S::of_integer(DEFAULT_PAGE_WIDTH)
        },
        None => S::of_integer(DEFAULT_PAGE_WIDTH),
    }
}

/// Reads the width of a page from its bounding box.
pub fn page_width<S: Scalar>(page: &Page) -> (r: S)
    ensures
        r == spec_page_width::<S>(*page),
{
    match &page.media_box {
        Some(entries) => if entries.len() >= 4 {
            let llx: S = operand_value(&entries[0]);
            let urx: S = operand_value(&entries[2]);
            urx.minus(llx).absolute()
        } else {
            S::from_integer(DEFAULT_PAGE_WIDTH)
        },
        None => S::from_integer(DEFAULT_PAGE_WIDTH),
    }
}

/// Where page `i` begins on the x axis: at zero for the first page, and for
/// each later page at the offset of the page before plus that page's width
/// and the margin.
pub open spec fn spec_page_offset<S: Scalar>(pages: Seq<Page>, margin: S, i: int) -> S
    decreases i,
{
    if i <= 0 {
        S::of_integer(0)
    } else {
        spec_page_offset(pages, margin, i - 1).sum(
            spec_page_width::<S>(pages[i - 1]).sum(margin),
        )
    }
}

/// The transform that page `i` is drawn under: the shift to its offset.
pub open spec fn spec_page_transform<S: Scalar>(pages: Seq<Page>, margin: S, i: int) -> Transform<
    S,
> {
    Transform::spec_shift_x(spec_page_offset(pages, margin, i))
}

/// The base transform of every page, in the order of the pages.
pub fn page_transforms<S: Scalar>(doc: &Document, margin: S) -> (transforms: Vec<Transform<S>>)
    ensures
        transforms@.len() == doc.pages@.len(),
        forall|i: int|
            0 <= i < doc.pages@.len() ==> #[trigger] transforms@[i] == spec_page_transform(
                doc.pages@,
                margin,
                i,
            ),
{
    let mut transforms: Vec<Transform<S>> = Vec::new();
    let mut offset: S = S::from_integer(0);
    let mut i: usize = 0;
    while i < doc.pages.len()
        invariant
            i <= doc.pages.len(),
            transforms@.len() == i,
            offset == spec_page_offset(doc.pages@, margin, i as int),
            forall|j: int|
                0 <= j < i ==> #[trigger] transforms@[j] == spec_page_transform(
                    doc.pages@,
                    margin,
                    j,
                ),
        decreases doc.pages.len() - i,
    {
        transforms.push(Transform::shift_x(offset));
        let width: S = page_width(&doc.pages[i]);
        offset = offset.plus(width.plus(margin));
        i = i + 1;
    }
    transforms
}

/// The segments of page `i`, drawn under the page's base transform; none
/// where the page has no content that can be read.
pub open spec fn spec_page_lines<S: Scalar>(doc: Document, margin: S, i: int) -> Seq<
    LineEntity<S>,
> {
    match doc.pages@[i].content {
        Some(data) => spec_stream(
            doc,
            doc.pages@[i].resources,
            data@,
            spec_page_transform(doc.pages@, margin, i),
            MAX_FORM_DEPTH as nat,
        ),
        None => Seq::empty(),
    }
}

/// The segments of the first `n` pages, page after page.
pub open spec fn spec_pages_lines<S: Scalar>(doc: Document, margin: S, n: int) -> Seq<
    LineEntity<S>,
>
    decreases n,
{
    if n <= 0 {
        Seq::empty()
    } else {
        spec_pages_lines(doc, margin, n - 1) + spec_page_lines(doc, margin, n - 1)
    }
}

/// The segments of all pages of a document, each page shifted to its own
/// place, `margin` apart.
pub fn extract_paths_with_margin<S: Scalar>(doc: &Document, margin: S) -> (lines: Vec<
    LineEntity<S>,
>)
    ensures
        lines@ == spec_pages_lines(*doc, margin, doc.pages@.len() as int),
{
    let transforms = page_transforms(doc, margin);
    let mut all_lines: Vec<LineEntity<S>> = Vec::new();
    let mut i: usize = 0;
    while i < doc.pages.len()
        invariant
            i <= doc.pages.len(),
            transforms@.len() == doc.pages@.len(),
            forall|j: int|
                0 <= j < doc.pages@.len() ==> #[trigger] transforms@[j] == spec_page_transform(
                    doc.pages@,
                    margin,
                    j,
                ),
            all_lines@ == spec_pages_lines(*doc, margin, i as int),
        decreases doc.pages.len() - i,
    {
        let page = &doc.pages[i];
        if let Some(data) = &page.content {
            parse_content_stream(
                doc,
                page.resources.as_ref(),
                data.as_slice(),
                transforms[i],
                &mut all_lines,
            );
        } else {
            assert(all_lines@ =~= all_lines@ + Seq::<LineEntity<S>>::empty());
        }
        i = i + 1;
    }
    all_lines
}

/// The segments of all pages of a document, each page shifted to its own
/// place, `PAGE_MARGIN` apart.
pub fn extract_pdf_paths<S: Scalar>(doc: &Document) -> (lines: Vec<LineEntity<S>>)
    ensures
        lines@ == spec_pages_lines(
            *doc,
            S::of_integer(PAGE_MARGIN),
            doc.pages@.len() as int,
        ),
{
    extract_paths_with_margin(doc, S::from_integer(PAGE_MARGIN))
}

} // verus!
