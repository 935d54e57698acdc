//! Content streams: the operations that a page or a form is drawn with.

use crate::scalar::Scalar;
use vstd::prelude::*;

verus! {

/// An operand of an operation.
#[derive(Clone, Debug, PartialEq)]
pub enum Operand {
    /// A whole number.
    Integer(i64),
    /// A real number, as the bit pattern of its single-precision value.
    Real(u32),
    /// A name, without its leading slash.
    Name(Vec<u8>),
    /// Anything else: a string, an array, a dictionary, a boolean, null.
    Other,
}

/// An operand as a value: a name is the sequence of its bytes.
pub enum OperandView {
    Integer(i64),
    Real(u32),
    Name(Seq<u8>),
    Other,
}

impl View for Operand {
    type V = OperandView;

    open spec fn view(&self) -> OperandView {
        match self {
            Operand::Integer(i) => OperandView::Integer(*i),
            Operand::Real(bits) => OperandView::Real(*bits),
            Operand::Name(name) => OperandView::Name(name@),
            Operand::Other => OperandView::Other,
        }
    }
}

/// An operator with the operands that stand before it.
#[derive(Clone, Debug, PartialEq)]
pub struct Operation {
    pub operator: Vec<u8>,
    pub operands: Vec<Operand>,
}

/// An operation as a value.
pub struct OperationView {
    pub operator: Seq<u8>,
    pub operands: Seq<OperandView>,
}

impl View for Operation {
    type V = OperationView;

    open spec fn view(&self) -> OperationView {
        OperationView { operator: self.operator@, operands: operands_view(self.operands@) }
    }
}

/// The operands as values, in their order.
pub open spec fn operands_view(operands: Seq<Operand>) -> Seq<OperandView> {
    operands.map_values(|o: Operand| o@)
}

/// The operations as values, in their order.
pub open spec fn operations_view(operations: Seq<Operation>) -> Seq<OperationView> {
    operations.map_values(|o: Operation| o@)
}

/// The number that an operand stands for: zero for one that is no number.
pub open spec fn spec_operand_value<S: Scalar>(operand: OperandView) -> S {
    match operand {
        OperandView::Integer(i) => S::of_integer(i),
        OperandView::Real(bits) => S::of_single(bits),
        _ => S::of_integer(0),
    }
}

/// Reads an operand as a number: a whole number and a real as what they
/// say, anything else as zero.
pub fn operand_value<S: Scalar>(operand: &Operand) -> (r: S)
    ensures
        r == spec_operand_value::<S>(operand@),
{
    match operand {
        Operand::Integer(i) => S::from_integer(*i),
        Operand::Real(bits) => S::from_single(*bits),
        _ => S::from_integer(0),
    }
}

/// The operations that the bytes of a content stream decode to, or `None`
/// for bytes that are no content stream.
pub uninterp spec fn decoded_operations(data: Seq<u8>) -> Option<Seq<OperationView>>;

/// Decodes a content stream with `lopdf::content::Content::decode`.
///
/// Nothing is proved of the decoder: its result is taken as what
/// `decoded_operations` names. Operators come over as their bytes; of the
/// operands an integer, a real (as its bit pattern) and a name keep their
/// value, every other kind becomes `Operand::Other`.
#[verifier::external_body]
pub(crate) fn decode_operations(data: &[u8]) -> (r: Option<Vec<Operation>>)
    ensures
        r matches Some(operations) ==> decoded_operations(data@) == Some(
            operations_view(operations@),
        ),
        r is None ==> decoded_operations(data@) is None,
{
    let content = lopdf::content::Content::decode(data).ok()?;
    let mut operations = Vec::new();
    for op in content.operations {
        let mut operands = Vec::new();
        for object in op.operands {
            operands.push(match object {
                lopdf::Object::Integer(i) => Operand::Integer(i),
                lopdf::Object::Real(r) => Operand::Real(r.to_bits()),
                lopdf::Object::Name(name) => Operand::Name(name),
                _ => Operand::Other,
            });
        }
        operations.push(Operation { operator: op.operator.into_bytes(), operands });
    }
    Some(operations)
}

/// Whether two byte strings are the same.
pub fn bytes_equal(a: &[u8], b: &[u8]) -> (r: bool)
    ensures
        r == (a@ == b@),
{
    if a.len() != b.len() {
        return false;
    }
    let mut i: usize = 0;
    while i < a.len()
        invariant
            i <= a.len() == b.len(),
            forall|j: int| 0 <= j < i ==> a@[j] == b@[j],
        decreases a.len() - i,
    {
        if a[i] != b[i] {
            return false;
        }
        i = i + 1;
    }
    assert(a@ =~= b@);
    true
}

} // verus!
