//! The content-stream interpreter: a state machine over the operators that
//! build paths, with a stack of saved transforms and recursion into forms.

use crate::content::{
    decode_operations, decoded_operations, operand_value, operands_view, operations_view,
    spec_operand_value, Operand, OperandView, Operation, OperationView,
};
use crate::curve::{bezier_to_lines, spec_bezier_to_lines};
use crate::document::{Document, Resources, StreamObject};
use crate::geometry::{LineEntity, Point, Transform};
use crate::scalar::Scalar;
use vstd::prelude::*;

verus! {

/// How many forms may be open inside one another. An invocation that would
/// go deeper draws nothing.
pub const MAX_FORM_DEPTH: usize = 64;

/// The number of segments that a curve is flattened into.
pub const CURVE_SEGMENTS: usize = 10;

/// What an operator does.
#[derive(Clone, Copy, Debug, PartialEq, Eq, Structural)]
pub enum Operator {
    /// `q`
    Save,
    /// `Q`
    Restore,
    /// `cm`
    Concat,
    /// `m`
    MoveTo,
    /// `l`
    LineTo,
    /// `c`
    CurveTo,
    /// `v`
    CurveFromCurrent,
    /// `y`
    CurveToEnd,
    /// `h`
    ClosePath,
    /// `re`
    Rectangle,
    /// `Do`
    Invoke,
    /// Every other operator: it draws no line.
    Ignored,
}

/// The operator that a name stands for.
pub open spec fn spec_classify(name: Seq<u8>) -> Operator {
    if name == seq![0x71u8] {
        Operator::Save
    } else if name == seq![0x51u8] {
        Operator::Restore
    } else if name == seq![0x63u8, 0x6du8] {
        Operator::Concat
    } else if name == seq![0x6du8] {
        Operator::MoveTo
    } else if name == seq![0x6cu8] {
        Operator::LineTo
    } else if name == seq![0x63u8] {
        Operator::CurveTo
    } else if name == seq![0x76u8] {
        Operator::CurveFromCurrent
    } else if name == seq![0x79u8] {
        Operator::CurveToEnd
    } else if name == seq![0x68u8] {
        Operator::ClosePath
    } else if name == seq![0x72u8, 0x65u8] {
        Operator::Rectangle
    } else if name == seq![0x44u8, 0x6fu8] {
        Operator::Invoke
    } else {
        Operator::Ignored
    }
}

fn is_byte(name: &[u8], b: u8) -> (r: bool)
    ensures
        r == (name@ == seq![b]),
{
    if name.len() == 1 && name[0] == b {
        assert(name@ =~= seq![b]);
        true
    } else {
        assert(seq![b].len() == 1 && seq![b][0] == b);
        false
    }
}

fn is_pair(name: &[u8], b0: u8, b1: u8) -> (r: bool)
    ensures
        r == (name@ == seq![b0, b1]),
{
    if name.len() == 2 && name[0] == b0 && name[1] == b1 {
        assert(name@ =~= seq![b0, b1]);
        true
    } else {
        assert(seq![b0, b1].len() == 2 && seq![b0, b1][0] == b0 && seq![b0, b1][1] == b1);
        false
    }
}

/// Tells the operators apart by their names.
pub fn classify(name: &[u8]) -> (r: Operator)
    ensures
        r == spec_classify(name@),
{
    if is_byte(name, 0x71) {
        Operator::Save
    } else if is_byte(name, 0x51) {
        Operator::Restore
    } else if is_pair(name, 0x63, 0x6d) {
        Operator::Concat
    } else if is_byte(name, 0x6d) {
        Operator::MoveTo
    } else if is_byte(name, 0x6c) {
        Operator::LineTo
    } else if is_byte(name, 0x63) {
        Operator::CurveTo
    } else if is_byte(name, 0x76) {
        Operator::CurveFromCurrent
    } else if is_byte(name, 0x79) {
        Operator::CurveToEnd
    } else if is_byte(name, 0x68) {
        Operator::ClosePath
    } else if is_pair(name, 0x72, 0x65) {
        Operator::Rectangle
    } else if is_pair(name, 0x44, 0x6f) {
        Operator::Invoke
    } else {
        Operator::Ignored
    }
}

/// The name `Form`.
pub open spec fn form_name() -> Seq<u8> {
    seq![0x46u8, 0x6fu8, 0x72u8, 0x6du8]
}

fn is_form_name(name: &[u8]) -> (r: bool)
    ensures
        r == (name@ == form_name()),
{
    if name.len() == 4 && name[0] == 0x46 && name[1] == 0x6f && name[2] == 0x72 && name[3]
        == 0x6d {
        assert(name@ =~= form_name());
        true
    } else {
        assert(form_name().len() == 4 && form_name()[0] == 0x46 && form_name()[1] == 0x6f
            && form_name()[2] == 0x72 && form_name()[3] == 0x6d);
        false
    }
}

/// The state of the interpreter inside one content stream.
#[derive(Clone, Debug, PartialEq)]
pub struct GraphicsState<S: Scalar> {
    /// The current transformation matrix.
    pub ctm: Transform<S>,
    /// The matrices that were saved and not yet restored, oldest first.
    pub saved: Vec<Transform<S>>,
    /// Where the path stands.
    pub current_point: Point<S>,
    /// Where the current subpath began.
    pub subpath_start: Point<S>,
}

/// The state of the interpreter as a value.
pub struct GraphicsStateView<S: Scalar> {
    pub ctm: Transform<S>,
    pub saved: Seq<Transform<S>>,
    pub current_point: Point<S>,
    pub subpath_start: Point<S>,
}

impl<S: Scalar> View for GraphicsState<S> {
    type V = GraphicsStateView<S>;

    open spec fn view(&self) -> GraphicsStateView<S> {
        GraphicsStateView {
            ctm: self.ctm,
            saved: self.saved@,
            current_point: self.current_point,
            subpath_start: self.subpath_start,
        }
    }
}

impl<S: Scalar> GraphicsStateView<S> {
    /// The state at the start of a stream: nothing saved, the path at the
    /// origin.
    pub open spec fn initial(base_ctm: Transform<S>) -> Self {
        GraphicsStateView {
            ctm: base_ctm,
            saved: Seq::empty(),
            current_point: Point::spec_origin(),
            subpath_start: Point::spec_origin(),
        }
    }
}

impl<S: Scalar> GraphicsState<S> {
    /// The state at the start of a stream that is drawn under `base_ctm`.
    pub fn new(base_ctm: Transform<S>) -> (r: Self)
        ensures
            r@ == GraphicsStateView::initial(base_ctm),
    {
        GraphicsState {
            ctm: base_ctm,
            saved: Vec::new(),
            current_point: Point::origin(),
            subpath_start: Point::origin(),
        }
    }
}

/// The point whose coordinates are operands `i` and `i + 1`.
pub open spec fn spec_operand_point<S: Scalar>(operands: Seq<OperandView>, i: int) -> Point<S> {
    Point { x: spec_operand_value(operands[i]), y: spec_operand_value(operands[i + 1]) }
}

/// The matrix whose six entries are the first six operands.
pub open spec fn spec_operand_matrix<S: Scalar>(operands: Seq<OperandView>) -> Transform<S> {
    Transform {
        a: spec_operand_value(operands[0]),
        b: spec_operand_value(operands[1]),
        c: spec_operand_value(operands[2]),
        d: spec_operand_value(operands[3]),
        e: spec_operand_value(operands[4]),
        f: spec_operand_value(operands[5]),
    }
}

fn operand_point<S: Scalar>(operands: &Vec<Operand>, i: usize) -> (r: Point<S>)
    requires
        i + 1 < operands.len(),
    ensures
        r == spec_operand_point::<S>(operands_view(operands@), i as int),
{
    Point { x: operand_value(&operands[i]), y: operand_value(&operands[i + 1]) }
}

fn operand_matrix<S: Scalar>(operands: &Vec<Operand>) -> (r: Transform<S>)
    requires
        operands.len() >= 6,
    ensures
        r == spec_operand_matrix::<S>(operands_view(operands@)),
{
    Transform {
        a: operand_value(&operands[0]),
        b: operand_value(&operands[1]),
        c: operand_value(&operands[2]),
        d: operand_value(&operands[3]),
        e: operand_value(&operands[4]),
        f: operand_value(&operands[5]),
    }
}

/// The four sides of the rectangle `(x, y, w, h)` under `ctm`, from the
/// lower left corner by way of the lower right, the upper right and the
/// upper left corner back to the lower left.
pub open spec fn spec_rectangle<S: Scalar>(ctm: Transform<S>, x: S, y: S, w: S, h: S) -> Seq<
    LineEntity<S>,
> {
    let ll = ctm.spec_apply(Point { x, y });
    let lr = ctm.spec_apply(Point { x: x.sum(w), y });
    let ur = ctm.spec_apply(Point { x: x.sum(w), y: y.sum(h) });
    let ul = ctm.spec_apply(Point { x, y: y.sum(h) });
    seq![
        LineEntity { start: ll, end: lr },
        LineEntity { start: lr, end: ur },
        LineEntity { start: ur, end: ul },
        LineEntity { start: ul, end: ll },
    ]
}

/// What one operation does to the state, and the segments that it draws,
/// for every operator but the one that invokes an object.
///
/// An operator that takes operands acts only where it stands behind exactly
/// as many as it takes; otherwise it does nothing. `q`, `Q` and `h` take
/// none and act whatever stands before them.
pub open spec fn spec_draw<S: Scalar>(op: OperationView, st: GraphicsStateView<S>) -> (
    GraphicsStateView<S>,
    Seq<LineEntity<S>>,
) {
    let n = op.operands.len();
    let none = Seq::<LineEntity<S>>::empty();
    match spec_classify(op.operator) {
        Operator::Save => (GraphicsStateView { saved: st.saved.push(st.ctm), ..st }, none),
        Operator::Restore => if st.saved.len() > 0 {
            (GraphicsStateView { ctm: st.saved.last(), saved: st.saved.drop_last(), ..st }, none)
        } else {
            (st, none)
        },
        Operator::Concat => if n == 6 {
            (
                GraphicsStateView {
                    ctm: st.ctm.spec_multiply(spec_operand_matrix(op.operands)),
                    ..st
                },
                none,
            )
        } else {
            (st, none)
        },
        Operator::MoveTo => if n == 2 {
            let p = st.ctm.spec_apply(spec_operand_point(op.operands, 0));
            (GraphicsStateView { current_point: p, subpath_start: p, ..st }, none)
        } else {
            (st, none)
        },
        Operator::LineTo => if n == 2 {
            let p = st.ctm.spec_apply(spec_operand_point(op.operands, 0));
            (
                GraphicsStateView { current_point: p, ..st },
                seq![LineEntity { start: st.current_point, end: p }],
            )
        } else {
            (st, none)
        },
        Operator::CurveTo => if n == 6 {
            let first = st.ctm.spec_apply(spec_operand_point(op.operands, 0));
            let second = st.ctm.spec_apply(spec_operand_point(op.operands, 2));
            let end = st.ctm.spec_apply(spec_operand_point(op.operands, 4));
            (
                GraphicsStateView { current_point: end, ..st },
                spec_bezier_to_lines(st.current_point, first, second, end, CURVE_SEGMENTS as nat),
            )
        } else {
            (st, none)
        },
        Operator::CurveFromCurrent => if n == 4 {
            let second = st.ctm.spec_apply(spec_operand_point(op.operands, 0));
            let end = st.ctm.spec_apply(spec_operand_point(op.operands, 2));
            (
                GraphicsStateView { current_point: end, ..st },
                spec_bezier_to_lines(
                    st.current_point,
                    st.current_point,
                    second,
                    end,
                    CURVE_SEGMENTS as nat,
                ),
            )
        } else {
            (st, none)
        },
        Operator::CurveToEnd => if n == 4 {
            let first = st.ctm.spec_apply(spec_operand_point(op.operands, 0));
            let end = st.ctm.spec_apply(spec_operand_point(op.operands, 2));
            (
                GraphicsStateView { current_point: end, ..st },
                spec_bezier_to_lines(st.current_point, first, end, end, CURVE_SEGMENTS as nat),
            )
        } else {
            (st, none)
        },
        Operator::ClosePath => (
            GraphicsStateView { current_point: st.subpath_start, ..st },
            seq![LineEntity { start: st.current_point, end: st.subpath_start }],
        ),
        Operator::Rectangle => if n == 4 {
            let x = spec_operand_value::<S>(op.operands[0]);
            let y = spec_operand_value::<S>(op.operands[1]);
            let w = spec_operand_value::<S>(op.operands[2]);
            let h = spec_operand_value::<S>(op.operands[3]);
            let ll = st.ctm.spec_apply(Point { x, y });
            (
                GraphicsStateView { current_point: ll, subpath_start: ll, ..st },
                spec_rectangle(st.ctm, x, y, w, h),
            )
        } else {
            (st, none)
        },
        Operator::Invoke => (st, none),
        Operator::Ignored => (st, none),
    }
}

/// A resource scope as a value.
pub open spec fn scope_of(resources: Option<&Resources>) -> Option<Resources> {
    match resources {
        Some(r) => Some(*r),
        None => None,
    }
}

/// The index of the form that `name` refers to in this scope: the first
/// entry of the scope's table with that name holds a reference, the first
/// stream object with that identifier exists, and its subtype is `Form`.
pub open spec fn spec_resolve_form(doc: Document, resources: Option<Resources>, name: Seq<u8>)
    -> Option<int> {
    match resources {
        Some(scope) => match scope.spec_lookup(name) {
            Some(Some(id)) => match doc.spec_find(id) {
                Some(i) => match doc.objects@[i].subtype {
                    Some(subtype) => if subtype@ == form_name() {
                        Some(i)
                    } else {
                        None
                    },
                    None => None,
                },
                None => None,
            },
            _ => None,
        },
        None => None,
    }
}

/// The matrix that a form is drawn under: the current one composed with the
/// form's own, where the form declares one of six entries.
pub open spec fn spec_form_ctm<S: Scalar>(form: StreamObject, ctm: Transform<S>) -> Transform<S> {
    match form.matrix {
        Some(entries) => if entries@.len() == 6 {
            ctm.spec_multiply(spec_operand_matrix(operands_view(entries@)))
        } else {
            ctm
        },
        None => ctm,
    }
}

/// The scope that a form is drawn in: its own where it declares one, which
/// then replaces the enclosing scope; the enclosing scope otherwise.
pub open spec fn spec_form_scope(form: StreamObject, resources: Option<Resources>) -> Option<
    Resources,
> {
    match form.resources {
        Some(own) => Some(own),
        None => resources,
    }
}

/// The segments that invoking an object draws, with `depth` levels of forms
/// still allowed. Nothing is drawn where no level is left, where the first
/// operand is missing or no name, where the name resolves to no form, and
/// where the form's content cannot be read.
pub open spec fn spec_invoke<S: Scalar>(
    doc: Document,
    resources: Option<Resources>,
    operands: Seq<OperandView>,
    ctm: Transform<S>,
    depth: nat,
) -> Seq<LineEntity<S>>
    decreases depth, 0nat, 0nat,
{
    if depth == 0 || operands.len() == 0 {
        Seq::empty()
    } else {
        match operands[0] {
            OperandView::Name(name) => match spec_resolve_form(doc, resources, name) {
                Some(i) => match doc.objects@[i].content {
                    Some(data) => spec_stream(
                        doc,
                        spec_form_scope(doc.objects@[i], resources),
                        data@,
                        spec_form_ctm(doc.objects@[i], ctm),
                        (depth - 1) as nat,
                    ),
                    None => Seq::empty(),
                },
                None => Seq::empty(),
            },
            _ => Seq::empty(),
        }
    }
}

/// What one operation does to the state, and the segments that it draws.
pub open spec fn spec_step<S: Scalar>(
    doc: Document,
    resources: Option<Resources>,
    op: OperationView,
    st: GraphicsStateView<S>,
    depth: nat,
) -> (GraphicsStateView<S>, Seq<LineEntity<S>>)
    decreases depth, 1nat, 0nat,
{
    if spec_classify(op.operator) == Operator::Invoke {
        (st, spec_invoke(doc, resources, op.operands, st.ctm, depth))
    } else {
        spec_draw(op, st)
    }
}

/// The state after a sequence of operations, and the segments that they
/// draw, in order.
pub open spec fn spec_run<S: Scalar>(
    doc: Document,
    resources: Option<Resources>,
    ops: Seq<OperationView>,
    st: GraphicsStateView<S>,
    depth: nat,
) -> (GraphicsStateView<S>, Seq<LineEntity<S>>)
    decreases depth, 2nat, ops.len(),
{
    if ops.len() == 0 {
        (st, Seq::empty())
    } else {
        let before = spec_run(doc, resources, ops.drop_last(), st, depth);
        let last = spec_step(doc, resources, ops.last(), before.0, depth);
        (last.0, before.1 + last.1)
    }
}

/// The segments that a content stream draws under `base_ctm`: those of its
/// operations, run from the initial state; none where the bytes do not
/// decode.
pub open spec fn spec_stream<S: Scalar>(
    doc: Document,
    resources: Option<Resources>,
    data: Seq<u8>,
    base_ctm: Transform<S>,
    depth: nat,
) -> Seq<LineEntity<S>>
    decreases depth, 3nat, 0nat,
{
    match decoded_operations(data) {
        Some(ops) => spec_run(doc, resources, ops, GraphicsStateView::initial(base_ctm), depth).1,
        None => Seq::empty(),
    }
}

/// Restoring with nothing saved is no error and changes nothing: the state
/// stays as it is, the matrix with it, and no segment is drawn.
pub proof fn lemma_restore_without_save<S: Scalar>(
    doc: Document,
    resources: Option<Resources>,
    restore: OperationView,
    st: GraphicsStateView<S>,
    depth: nat,
)
    requires
        spec_classify(restore.operator) == Operator::Restore,
        st.saved.len() == 0,
    ensures
        spec_step(doc, resources, restore, st, depth) == (st, Seq::<LineEntity<S>>::empty()),
{
}

/// Saving, concatenating a matrix and restoring leaves the state as it was
/// before the three, the matrix with it, and draws no segment, whatever the
/// matrix and whatever was saved before.
pub proof fn lemma_save_concat_restore<S: Scalar>(
    doc: Document,
    resources: Option<Resources>,
    save: OperationView,
    concat: OperationView,
    restore: OperationView,
    st: GraphicsStateView<S>,
    depth: nat,
)
    requires
        spec_classify(save.operator) == Operator::Save,
        spec_classify(concat.operator) == Operator::Concat,
        spec_classify(restore.operator) == Operator::Restore,
    ensures
        spec_run(doc, resources, seq![save, concat, restore], st, depth) == (
            st,
            Seq::<LineEntity<S>>::empty(),
        ),
{
    reveal_with_fuel(spec_run, 4);
    reveal_with_fuel(spec_step, 4);
    let ops = seq![save, concat, restore];
    let none = Seq::<OperationView>::empty();
    assert(ops.drop_last() =~= seq![save, concat]);
    assert(seq![save, concat].drop_last() =~= seq![save]);
    assert(seq![save].drop_last() =~= none);
    let r0 = spec_run(doc, resources, none, st, depth);
    assert(r0 == (st, Seq::<LineEntity<S>>::empty()));
    let r1 = spec_run(doc, resources, seq![save], st, depth);
    assert(r1.0 == (GraphicsStateView { saved: st.saved.push(st.ctm), ..st }));
    let r2 = spec_run(doc, resources, seq![save, concat], st, depth);
    assert(r2.0.saved == r1.0.saved);
    let r3 = spec_run(doc, resources, ops, st, depth);
    assert(r3.0.saved =~= st.saved);
    assert(r3.0.ctm == st.ctm);
    assert(r3.1 =~= Seq::<LineEntity<S>>::empty());
}

/// Carries out one operation that invokes no object.
pub fn draw<S: Scalar>(
    op: &Operation,
    state: &mut GraphicsState<S>,
    all_lines: &mut Vec<LineEntity<S>>,
)
    ensures
        final(state)@ == spec_draw(op@, old(state)@).0,
        final(all_lines)@ == old(all_lines)@ + spec_draw(op@, old(state)@).1,
{
    let n = op.operands.len();
    let ghost before = all_lines@;
    match classify(op.operator.as_slice()) {
        Operator::Save => {
            state.saved.push(state.ctm);
        },
        Operator::Restore => {
            if let Some(matrix) = state.saved.pop() {
                state.ctm = matrix;
            }
        },
        Operator::Concat => {
            if n == 6 {
                let new_matrix = operand_matrix(&op.operands);
                state.ctm = state.ctm.multiply(&new_matrix);
            }
        },
        Operator::MoveTo => {
            if n == 2 {
                let p = state.ctm.apply(operand_point(&op.operands, 0));
                state.current_point = p;
                state.subpath_start = p;
            }
        },
        Operator::LineTo => {
            if n == 2 {
                let p = state.ctm.apply(operand_point(&op.operands, 0));
                all_lines.push(LineEntity { start: state.current_point, end: p });
                state.current_point = p;
            }
        },
        Operator::CurveTo => {
            if n == 6 {
                let first = state.ctm.apply(operand_point(&op.operands, 0));
                let second = state.ctm.apply(operand_point(&op.operands, 2));
                let end = state.ctm.apply(operand_point(&op.operands, 4));
                let mut curve = bezier_to_lines(state.current_point, first, second, end, CURVE_SEGMENTS);
                all_lines.append(&mut curve);
                state.current_point = end;
            }
        },
        Operator::CurveFromCurrent => {
            if n == 4 {
                let second = state.ctm.apply(operand_point(&op.operands, 0));
                let end = state.ctm.apply(operand_point(&op.operands, 2));
                let mut curve = bezier_to_lines(
                    state.current_point,
                    state.current_point,
                    second,
                    end,
                    CURVE_SEGMENTS,
                );
                all_lines.append(&mut curve);
                state.current_point = end;
            }
        },
        Operator::CurveToEnd => {
            if n == 4 {
                let first = state.ctm.apply(operand_point(&op.operands, 0));
                let end = state.ctm.apply(operand_point(&op.operands, 2));
                let mut curve = bezier_to_lines(state.current_point, first, end, end, CURVE_SEGMENTS);
                all_lines.append(&mut curve);
                state.current_point = end;
            }
        },
        Operator::ClosePath => {
            all_lines.push(LineEntity { start: state.current_point, end: state.subpath_start });
            state.current_point = state.subpath_start;
        },
        Operator::Rectangle => {
            if n == 4 {
                let x: S = operand_value(&op.operands[0]);
                let y: S = operand_value(&op.operands[1]);
                let w: S = operand_value(&op.operands[2]);
                let h: S = operand_value(&op.operands[3]);
                let p_ll = state.ctm.apply(Point { x, y });
                let p_lr = state.ctm.apply(Point { x: x.plus(w), y });
                let p_ur = state.ctm.apply(Point { x: x.plus(w), y: y.plus(h) });
                let p_ul = state.ctm.apply(Point { x, y: y.plus(h) });
                state.subpath_start = p_ll;
                all_lines.push(LineEntity { start: p_ll, end: p_lr });
                all_lines.push(LineEntity { start: p_lr, end: p_ur });
                all_lines.push(LineEntity { start: p_ur, end: p_ul });
                all_lines.push(LineEntity { start: p_ul, end: p_ll });
                state.current_point = p_ll;
            }
        },
        Operator::Invoke => {},
        Operator::Ignored => {},
    }
    assert(state@.saved =~= spec_draw(op@, old(state)@).0.saved);
    assert(all_lines@ =~= before + spec_draw(op@, old(state)@).1);
}

/// Finds the form that a name refers to in a scope.
pub fn resolve_form(doc: &Document, resources: Option<&Resources>, name: &[u8]) -> (r: Option<
    usize,
>)
    ensures
        r matches Some(i) ==> spec_resolve_form(*doc, scope_of(resources), name@) == Some(
            i as int,
        ) && i < doc.objects.len(),
        r is None ==> spec_resolve_form(*doc, scope_of(resources), name@) is None,
{
    match resources {
        Some(scope) => match scope.lookup(name) {
            Some(Some(id)) => match doc.find(id) {
                Some(i) => match &doc.objects[i].subtype {
                    Some(subtype) => if is_form_name(subtype.as_slice()) {
                        Some(i)
                    } else {
                        None
                    },
                    None => None,
                },
                None => None,
            },
            _ => None,
        },
        None => None,
    }
}

/// The matrix that a form is drawn under.
pub fn form_ctm<S: Scalar>(form: &StreamObject, ctm: Transform<S>) -> (r: Transform<S>)
    ensures
        r == spec_form_ctm(*form, ctm),
{
    match &form.matrix {
        Some(entries) => if entries.len() == 6 {
            let form_matrix = operand_matrix(entries);
            ctm.multiply(&form_matrix)
        } else {
            ctm
        },
        None => ctm,
    }
}

/// Carries out one operation: it changes the state and appends the segments
/// that the operation draws. With `depth` zero an invocation draws nothing.
pub fn apply_operation<S: Scalar>(
    doc: &Document,
    resources: Option<&Resources>,
    op: &Operation,
    state: &mut GraphicsState<S>,
    depth: usize,
    all_lines: &mut Vec<LineEntity<S>>,
)
    ensures
        final(state)@ == spec_step(*doc, scope_of(resources), op@, old(state)@, depth as nat).0,
        final(all_lines)@ == old(all_lines)@ + spec_step(
            *doc,
            scope_of(resources),
            op@,
            old(state)@,
            depth as nat,
        ).1,
    decreases depth, 1nat, 0nat,
{
    match classify(op.operator.as_slice()) {
        Operator::Invoke => {
            if depth > 0 && op.operands.len() > 0 {
                if let Operand::Name(name) = &op.operands[0] {
                    if let Some(i) = resolve_form(doc, resources, name.as_slice()) {
                        let form = &doc.objects[i];
                        if let Some(data) = &form.content {
                            let ctm = form_ctm(form, state.ctm);
                            let scope = match &form.resources {
                                Some(own) => Some(own),
                                None => resources,
                            };
                            interpret_stream(doc, scope, data.as_slice(), ctm, depth - 1, all_lines);
                        }
                    }
                }
            }
            assert(all_lines@ =~= old(all_lines)@ + spec_step(
                *doc,
                scope_of(resources),
                op@,
                old(state)@,
                depth as nat,
            ).1);
        },
        _ => {
            draw(op, state, all_lines);
        },
    }
}

/// Carries out a sequence of operations in order.
pub fn interpret_operations<S: Scalar>(
    doc: &Document,
    resources: Option<&Resources>,
    operations: &Vec<Operation>,
    state: &mut GraphicsState<S>,
    depth: usize,
    all_lines: &mut Vec<LineEntity<S>>,
)
    ensures
        final(state)@ == spec_run(
            *doc,
            scope_of(resources),
            operations_view(operations@),
            old(state)@,
            depth as nat,
        ).0,
        final(all_lines)@ == old(all_lines)@ + spec_run(
            *doc,
            scope_of(resources),
            operations_view(operations@),
            old(state)@,
            depth as nat,
        ).1,
    decreases depth, 2nat, operations.len(),
{
    let ghost ops = operations_view(operations@);
    let ghost scope = scope_of(resources);
    let mut i: usize = 0;
    assert(all_lines@ =~= old(all_lines)@ + Seq::<LineEntity<S>>::empty());
    while i < operations.len()
        invariant
            i <= operations.len(),
            ops == operations_view(operations@),
            scope == scope_of(resources),
            state@ == spec_run(*doc, scope, ops.take(i as int), old(state)@, depth as nat).0,
            all_lines@ == old(all_lines)@ + spec_run(
                *doc,
                scope,
                ops.take(i as int),
                old(state)@,
                depth as nat,
            ).1,
        decreases operations.len() - i,
    {
        let ghost lines_before = all_lines@;
        apply_operation(doc, resources, &operations[i], state, depth, all_lines);
        proof {
            let next = ops.take(i + 1);
            assert(next.drop_last() =~= ops.take(i as int));
            assert(next.last() == operations@[i as int]@);
            let before = spec_run(*doc, scope, ops.take(i as int), old(state)@, depth as nat);
            let last = spec_step(*doc, scope, operations@[i as int]@, before.0, depth as nat);
            assert(all_lines@ =~= old(all_lines)@ + (before.1 + last.1));
        }
        i = i + 1;
    }
    assert(ops.take(i as int) =~= ops);
}

/// Interprets a content stream with `depth` levels of forms still allowed.
pub fn interpret_stream<S: Scalar>(
    doc: &Document,
    resources: Option<&Resources>,
    content_data: &[u8],
    base_ctm: Transform<S>,
    depth: usize,
    all_lines: &mut Vec<LineEntity<S>>,
)
    ensures
        final(all_lines)@ == old(all_lines)@ + spec_stream(
            *doc,
            scope_of(resources),
            content_data@,
            base_ctm,
            depth as nat,
        ),
    decreases depth, 3nat, 0nat,
{
    match decode_operations(content_data) {
        Some(operations) => {
            let mut state = GraphicsState::new(base_ctm);
            interpret_operations(doc, resources, &operations, &mut state, depth, all_lines);
        },
        None => {
            assert(all_lines@ =~= old(all_lines)@ + Seq::<LineEntity<S>>::empty());
        },
    }
}

/// Interprets the content stream of a page or a form under `base_ctm` and
/// appends the segments that it draws, those of the forms that it invokes
/// among them, to `all_lines`. Bytes that do not decode draw nothing.
pub fn parse_content_stream<S: Scalar>(
    doc: &Document,
    resources: Option<&Resources>,
    content_data: &[u8],
    base_ctm: Transform<S>,
    all_lines: &mut Vec<LineEntity<S>>,
)
    ensures
        final(all_lines)@ == old(all_lines)@ + spec_stream(
            *doc,
            scope_of(resources),
            content_data@,
            base_ctm,
            MAX_FORM_DEPTH as nat,
        ),
{
    interpret_stream(doc, resources, content_data, base_ctm, MAX_FORM_DEPTH, all_lines);
}

} // verus!
