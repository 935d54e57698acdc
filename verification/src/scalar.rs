//! The numbers that coordinates and matrix entries are made of.

use vstd::prelude::*;

verus! {

/// A number type that geometry can be computed in.
///
/// Each operation comes as a pair: a specification function that names the
/// result, and an executable method that returns it. An implementation fixes
/// what the names mean. Everything built on top is stated over the names
/// alone, so it says which operations were combined and in which order,
/// whatever the numbers are.
///
/// `Lattice` is the implementation that is verified here. One that is
/// written elsewhere is taken on trust: each of its methods has to return
/// what the specification function of the same operation names, every time.
pub trait Scalar: Copy {
    /// The scalar that stands for a whole number.
    spec fn of_integer(value: i64) -> Self;

    /// The scalar that stands for a single-precision number, given by its
    /// IEEE 754 bit pattern.
    spec fn of_single(bits: u32) -> Self;

    /// `self + rhs`.
    spec fn sum(self, rhs: Self) -> Self;

    /// `self - rhs`.
    spec fn difference(self, rhs: Self) -> Self;

    /// `self * rhs`.
    spec fn product(self, rhs: Self) -> Self;

    /// `self / rhs`.
    spec fn quotient(self, rhs: Self) -> Self;

    /// `|self|`.
    spec fn magnitude(self) -> Self;

    /// `self > rhs`.
    spec fn exceeds(self, rhs: Self) -> bool;

    /// Makes the scalar that stands for a whole number.
    fn from_integer(value: i64) -> (r: Self)
        ensures
            r == Self::of_integer(value),
    ;

    /// Makes the scalar that stands for a single-precision number.
    fn from_single(bits: u32) -> (r: Self)
        ensures
            r == Self::of_single(bits),
    ;

    /// Adds.
    fn plus(self, rhs: Self) -> (r: Self)
        ensures
            r == self.sum(rhs),
    ;

    /// Subtracts.
    fn minus(self, rhs: Self) -> (r: Self)
        ensures
            r == self.difference(rhs),
    ;

    /// Multiplies.
    fn times(self, rhs: Self) -> (r: Self)
        ensures
            r == self.product(rhs),
    ;

    /// Divides.
    fn over(self, rhs: Self) -> (r: Self)
        ensures
            r == self.quotient(rhs),
    ;

    /// Takes the magnitude.
    fn absolute(self) -> (r: Self)
        ensures
            r == self.magnitude(),
    ;

    /// Compares.
    fn greater_than(self, rhs: Self) -> (r: bool)
        ensures
            r == self.exceeds(rhs),
    ;
}

/// Scalars whose arithmetic is exact: sums and products obey the laws of a
/// commutative ring, and whole numbers are mapped into it in the one way
/// that respects them. Rounded arithmetic does not qualify.
pub trait Exact: Scalar {
    /// `a + b == b + a`.
    proof fn sum_commutes(a: Self, b: Self)
        ensures
            a.sum(b) == b.sum(a),
    ;

    /// `(a + b) + c == a + (b + c)`.
    proof fn sum_associates(a: Self, b: Self, c: Self)
        ensures
            a.sum(b).sum(c) == a.sum(b.sum(c)),
    ;

    /// `a * b == b * a`.
    proof fn product_commutes(a: Self, b: Self)
        ensures
            a.product(b) == b.product(a),
    ;

    /// `(a * b) * c == a * (b * c)`.
    proof fn product_associates(a: Self, b: Self, c: Self)
        ensures
            a.product(b).product(c) == a.product(b.product(c)),
    ;

    /// `a * (b + c) == a * b + a * c`.
    proof fn product_distributes(a: Self, b: Self, c: Self)
        ensures
            a.product(b.sum(c)) == a.product(b).sum(a.product(c)),
    ;

    /// `1 * a == a`.
    proof fn one_is_neutral(a: Self)
        ensures
            Self::of_integer(1).product(a) == a,
    ;

    /// `(a - b) + b == a`.
    proof fn difference_undoes_sum(a: Self, b: Self)
        ensures
            a.difference(b).sum(b) == a,
    ;

    /// The whole number after `n` is `n` plus one.
    proof fn integer_successor(n: i64)
        requires
            n < i64::MAX,
        ensures
            Self::of_integer((n + 1) as i64) == Self::of_integer(n).sum(Self::of_integer(1)),
    ;

    /// A value is never farther from itself than the thousandth that
    /// separates a segment from a point.
    proof fn nothing_exceeds_from_itself(a: Self)
        ensures
            !a.difference(a).magnitude().exceeds(
                Self::of_integer(1).quotient(Self::of_integer(1000)),
            ),
    ;
}

/// `(a + b) * c == a * c + b * c`.
pub(crate) proof fn lemma_sum_distributes<S: Exact>(a: S, b: S, c: S)
    ensures
        a.sum(b).product(c) == a.product(c).sum(b.product(c)),
{
    S::product_commutes(a.sum(b), c);
    S::product_distributes(c, a, b);
    S::product_commutes(c, a);
    S::product_commutes(c, b);
}

/// `(a + b) + (c + d) == (a + c) + (b + d)`.
pub(crate) proof fn lemma_sums_interchange<S: Exact>(a: S, b: S, c: S, d: S)
    ensures
        a.sum(b).sum(c.sum(d)) == a.sum(c).sum(b.sum(d)),
{
    S::sum_associates(a, b, c.sum(d));
    S::sum_associates(b, c, d);
    S::sum_commutes(b, c);
    S::sum_associates(c, b, d);
    S::sum_associates(a, c, b.sum(d));
}

/// `p * (a * x) == (a * p) * x`.
pub(crate) proof fn lemma_product_rotates<S: Exact>(p: S, a: S, x: S)
    ensures
        p.product(a.product(x)) == a.product(p).product(x),
{
    S::product_associates(p, a, x);
    S::product_commutes(p, a);
}

/// `0 * a + b == b`.
proof fn lemma_zero_product_is_neutral<S: Exact>(a: S, b: S)
    ensures
        S::of_integer(0).product(a).sum(b) == b,
{
    let zero = S::of_integer(0);
    let one = S::of_integer(1);
    let e = zero.product(a);
    let d = b.difference(a);
    // a == 1 * a == (0 + 1) * a == 0 * a + a
    S::integer_successor(0);
    S::one_is_neutral(a);
    lemma_sum_distributes(zero, one, a);
    assert(e.sum(a) == a);
    // b == (b - a) + a, and 0 * a is taken up by the a
    S::difference_undoes_sum(b, a);
    S::sum_associates(e, d, a);
    S::sum_commutes(e, d);
    S::sum_associates(d, e, a);
}

/// `0 + a == a` and `a + 0 == a`.
pub(crate) proof fn lemma_zero_is_neutral<S: Exact>(a: S)
    ensures
        S::of_integer(0).sum(a) == a,
        a.sum(S::of_integer(0)) == a,
{
    let zero = S::of_integer(0);
    let one = S::of_integer(1);
    S::product_commutes(zero, one);
    S::one_is_neutral(zero);
    lemma_zero_product_is_neutral(one, a);
    S::sum_commutes(zero, a);
}

/// `0 * a == 0` and `a * 0 == 0`.
pub(crate) proof fn lemma_zero_annihilates<S: Exact>(a: S)
    ensures
        S::of_integer(0).product(a) == S::of_integer(0),
        a.product(S::of_integer(0)) == S::of_integer(0),
{
    let zero = S::of_integer(0);
    lemma_zero_product_is_neutral(a, zero);
    lemma_zero_is_neutral(zero.product(a));
    S::product_commutes(zero, a);
}

} // verus!
