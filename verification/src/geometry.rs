//! Points, line segments and affine transforms.

use crate::scalar::{
    lemma_product_rotates, lemma_sum_distributes, lemma_sums_interchange,
    lemma_zero_annihilates, lemma_zero_is_neutral, Exact, Scalar,
};
use vstd::prelude::*;

verus! {

/// A point of the plane.
#[derive(Clone, Copy, Debug, PartialEq)]
pub struct Point<S: Scalar> {
    pub x: S,
    pub y: S,
}

/// A straight segment from `start` to `end`.
#[derive(Clone, Copy, Debug, PartialEq)]
pub struct LineEntity<S: Scalar> {
    pub start: Point<S>,
    pub end: Point<S>,
}

/// The affine map `(x, y) -> (a*x + c*y + e, b*x + d*y + f)`.
#[derive(Clone, Copy, Debug, PartialEq)]
pub struct Transform<S: Scalar> {
    pub a: S,
    pub b: S,
    pub c: S,
    pub d: S,
    pub e: S,
    pub f: S,
}

impl<S: Scalar> Point<S> {
    /// The point `(0, 0)`.
    pub open spec fn spec_origin() -> Self {
        Point { x: S::of_integer(0), y: S::of_integer(0) }
    }

    /// The point `(0, 0)`.
    pub fn origin() -> (r: Self)
        ensures
            r == Self::spec_origin(),
    {
        Point { x: S::from_integer(0), y: S::from_integer(0) }
    }
}

impl<S: Scalar> Transform<S> {
    /// The map that leaves every point where it is: `(1, 0, 0, 1, 0, 0)`.
    pub open spec fn spec_identity() -> Self {
        Transform {
            a: S::of_integer(1),
            b: S::of_integer(0),
            c: S::of_integer(0),
            d: S::of_integer(1),
            e: S::of_integer(0),
            f: S::of_integer(0),
        }
    }

    /// The map that shifts every point by `offset` along the x axis.
    pub open spec fn spec_shift_x(offset: S) -> Self {
        Transform { e: offset, ..Self::spec_identity() }
    }

    /// The composition `self ∘ other`: the map that sends a point through
    /// `other` first and through `self` after.
    pub open spec fn spec_multiply(self, other: Self) -> Self {
        Transform {
            a: other.a.product(self.a).sum(other.b.product(self.c)),
            b: other.a.product(self.b).sum(other.b.product(self.d)),
            c: other.c.product(self.a).sum(other.d.product(self.c)),
            d: other.c.product(self.b).sum(other.d.product(self.d)),
            e: other.e.product(self.a).sum(other.f.product(self.c)).sum(self.e),
            f: other.e.product(self.b).sum(other.f.product(self.d)).sum(self.f),
        }
    }

    /// The image of `p`.
    pub open spec fn spec_apply(self, p: Point<S>) -> Point<S> {
        Point {
            x: self.a.product(p.x).sum(self.c.product(p.y)).sum(self.e),
            y: self.b.product(p.x).sum(self.d.product(p.y)).sum(self.f),
        }
    }

    /// The map that leaves every point where it is.
    pub fn identity() -> (r: Self)
        ensures
            r == Self::spec_identity(),
    {
        Transform {
            a: S::from_integer(1),
            b: S::from_integer(0),
            c: S::from_integer(0),
            d: S::from_integer(1),
            e: S::from_integer(0),
            f: S::from_integer(0),
        }
    }

    /// The map that shifts every point by `offset` along the x axis.
    pub fn shift_x(offset: S) -> (r: Self)
        ensures
            r == Self::spec_shift_x(offset),
    {
        let mut r = Self::identity();
        r.e = offset;
        r
    }

    /// Composes two maps: the result sends a point through `other` first and
    /// through `self` after.
    pub fn multiply(&self, other: &Transform<S>) -> (r: Self)
        ensures
            r == self.spec_multiply(*other),
    {
        Transform {
            a: other.a.times(self.a).plus(other.b.times(self.c)),
            b: other.a.times(self.b).plus(other.b.times(self.d)),
            c: other.c.times(self.a).plus(other.d.times(self.c)),
            d: other.c.times(self.b).plus(other.d.times(self.d)),
            e: other.e.times(self.a).plus(other.f.times(self.c)).plus(self.e),
            f: other.e.times(self.b).plus(other.f.times(self.d)).plus(self.f),
        }
    }

    /// Maps a point.
    pub fn apply(&self, p: Point<S>) -> (r: Point<S>)
        ensures
            r == self.spec_apply(p),
    {
        Point {
            x: self.a.times(p.x).plus(self.c.times(p.y)).plus(self.e),
            y: self.b.times(p.x).plus(self.d.times(p.y)).plus(self.f),
        }
    }
}

/// One coordinate of a point sent through a composition, against the same
/// coordinate of the point sent through the one map and then the other.
/// `p`, `q`, `r` are the entries of the outer map that make the coordinate.
proof fn lemma_composed_coordinate<S: Exact>(p: S, q: S, r: S, inner: Transform<S>, x: S, y: S)
    ensures
        inner.a.product(p).sum(inner.b.product(q)).product(x).sum(
            inner.c.product(p).sum(inner.d.product(q)).product(y),
        ).sum(inner.e.product(p).sum(inner.f.product(q)).sum(r)) == p.product(
            inner.a.product(x).sum(inner.c.product(y)).sum(inner.e),
        ).sum(q.product(inner.b.product(x).sum(inner.d.product(y)).sum(inner.f))).sum(r),
{
    let m1 = inner.a.product(p).product(x);
    let m2 = inner.b.product(q).product(x);
    let m3 = inner.c.product(p).product(y);
    let m4 = inner.d.product(q).product(y);
    let m5 = inner.e.product(p);
    let m6 = inner.f.product(q);
    // The left side, term by term.
    lemma_sum_distributes(inner.a.product(p), inner.b.product(q), x);
    lemma_sum_distributes(inner.c.product(p), inner.d.product(q), y);
    let left = m1.sum(m2).sum(m3.sum(m4)).sum(m5.sum(m6).sum(r));
    // The right side, term by term.
    S::product_distributes(p, inner.a.product(x).sum(inner.c.product(y)), inner.e);
    S::product_distributes(p, inner.a.product(x), inner.c.product(y));
    lemma_product_rotates(p, inner.a, x);
    lemma_product_rotates(p, inner.c, y);
    S::product_commutes(p, inner.e);
    S::product_distributes(q, inner.b.product(x).sum(inner.d.product(y)), inner.f);
    S::product_distributes(q, inner.b.product(x), inner.d.product(y));
    lemma_product_rotates(q, inner.b, x);
    lemma_product_rotates(q, inner.d, y);
    S::product_commutes(q, inner.f);
    let right = m1.sum(m3).sum(m5).sum(m2.sum(m4).sum(m6)).sum(r);
    // The same seven terms in another order.
    lemma_sums_interchange(m1, m2, m3, m4);
    S::sum_associates(m1.sum(m3).sum(m2.sum(m4)), m5.sum(m6), r);
    lemma_sums_interchange(m1.sum(m3), m2.sum(m4), m5, m6);
    assert(left == right);
}

/// Composition is what it is named for: a point sent through
/// `outer.multiply(inner)` arrives where it arrives when it is sent through
/// `inner` first and through `outer` after. This holds where the arithmetic
/// is exact.
pub proof fn lemma_multiply_composes<S: Exact>(
    outer: Transform<S>,
    inner: Transform<S>,
    p: Point<S>,
)
    ensures
        outer.spec_multiply(inner).spec_apply(p) == outer.spec_apply(inner.spec_apply(p)),
{
    lemma_composed_coordinate(outer.a, outer.c, outer.e, inner, p.x, p.y);
    lemma_composed_coordinate(outer.b, outer.d, outer.f, inner, p.x, p.y);
}

/// `x * (p*u + q*v) + y * (r*u + s*v) == (x*p + y*r) * u + (x*q + y*s) * v`.
proof fn lemma_row_times_product<S: Exact>(x: S, y: S, p: S, q: S, r: S, s: S, u: S, v: S)
    ensures
        x.product(p.product(u).sum(q.product(v))).sum(
            y.product(r.product(u).sum(s.product(v))),
        ) == x.product(p).sum(y.product(r)).product(u).sum(
            x.product(q).sum(y.product(s)).product(v),
        ),
{
    S::product_distributes(x, p.product(u), q.product(v));
    S::product_distributes(y, r.product(u), s.product(v));
    S::product_associates(x, p, u);
    S::product_associates(x, q, v);
    S::product_associates(y, r, u);
    S::product_associates(y, s, v);
    lemma_sums_interchange(
        x.product(p).product(u),
        x.product(q).product(v),
        y.product(r).product(u),
        y.product(s).product(v),
    );
    lemma_sum_distributes(x.product(p), y.product(r), u);
    lemma_sum_distributes(x.product(q), y.product(s), v);
}

/// The same with the shifts of the two inner maps added:
/// `(m + ((g*u + h*v) + k)) == ((pp + g)*u + (qq + h)*v) + k`
/// where `m == pp*u + qq*v`.
proof fn lemma_row_with_shift<S: Exact>(pp: S, qq: S, g: S, h: S, k: S, u: S, v: S)
    ensures
        pp.product(u).sum(qq.product(v)).sum(g.product(u).sum(h.product(v)).sum(k)) == pp.sum(
            g,
        ).product(u).sum(qq.sum(h).product(v)).sum(k),
{
    lemma_sum_distributes(pp, g, u);
    lemma_sum_distributes(qq, h, v);
    lemma_sums_interchange(pp.product(u), g.product(u), qq.product(v), h.product(v));
    S::sum_associates(
        pp.product(u).sum(qq.product(v)),
        g.product(u).sum(h.product(v)),
        k,
    );
}

/// Composition is associative: three maps composed give the same map
/// however they are grouped. This holds where the arithmetic is exact.
pub proof fn lemma_multiply_associates<S: Exact>(a: Transform<S>, b: Transform<S>, c: Transform<S>)
    ensures
        a.spec_multiply(b).spec_multiply(c) == a.spec_multiply(b.spec_multiply(c)),
{
    lemma_row_times_product(c.a, c.b, b.a, b.b, b.c, b.d, a.a, a.c);
    lemma_row_times_product(c.a, c.b, b.a, b.b, b.c, b.d, a.b, a.d);
    lemma_row_times_product(c.c, c.d, b.a, b.b, b.c, b.d, a.a, a.c);
    lemma_row_times_product(c.c, c.d, b.a, b.b, b.c, b.d, a.b, a.d);
    lemma_row_times_product(c.e, c.f, b.a, b.b, b.c, b.d, a.a, a.c);
    lemma_row_times_product(c.e, c.f, b.a, b.b, b.c, b.d, a.b, a.d);
    let pp = c.e.product(b.a).sum(c.f.product(b.c));
    let qq = c.e.product(b.b).sum(c.f.product(b.d));
    lemma_row_with_shift(pp, qq, b.e, b.f, a.e, a.a, a.c);
    lemma_row_with_shift(pp, qq, b.e, b.f, a.f, a.b, a.d);
}

/// A pair of products of which one factor is one and another is zero adds
/// up to what is multiplied by one.
proof fn lemma_one_and_zero<S: Exact>(a: S, b: S)
    ensures
        a.product(S::of_integer(1)).sum(b.product(S::of_integer(0))) == a,
        a.product(S::of_integer(0)).sum(b.product(S::of_integer(1))) == b,
        S::of_integer(1).product(a).sum(S::of_integer(0).product(b)) == a,
        S::of_integer(0).product(a).sum(S::of_integer(1).product(b)) == b,
{
    let one = S::of_integer(1);
    S::one_is_neutral(a);
    S::one_is_neutral(b);
    S::product_commutes(a, one);
    S::product_commutes(b, one);
    lemma_zero_annihilates(a);
    lemma_zero_annihilates(b);
    lemma_zero_is_neutral(a);
    lemma_zero_is_neutral(b);
}

/// The identity leaves every point where it is. This holds where the
/// arithmetic is exact.
pub proof fn lemma_identity_leaves_points<S: Exact>(p: Point<S>)
    ensures
        Transform::<S>::spec_identity().spec_apply(p) == p,
{
    lemma_one_and_zero(p.x, p.y);
    lemma_zero_is_neutral(p.x);
    lemma_zero_is_neutral(p.y);
}

/// A shift along the x axis adds the offset to `x` and leaves `y` as it is.
/// This holds where the arithmetic is exact.
pub proof fn lemma_shift_x_translates<S: Exact>(offset: S, p: Point<S>)
    ensures
        Transform::<S>::spec_shift_x(offset).spec_apply(p) == (Point {
            x: p.x.sum(offset),
            y: p.y,
        }),
{
    lemma_one_and_zero(p.x, p.y);
    lemma_zero_is_neutral(p.y);
}

/// Composing with the identity, on either side, leaves a transform as it
/// is. This holds where the arithmetic is exact.
pub proof fn lemma_identity_is_neutral<S: Exact>(t: Transform<S>)
    ensures
        Transform::<S>::spec_identity().spec_multiply(t) == t,
        t.spec_multiply(Transform::<S>::spec_identity()) == t,
{
    let zero = S::of_integer(0);
    lemma_one_and_zero(t.a, t.b);
    lemma_one_and_zero(t.c, t.d);
    lemma_one_and_zero(t.e, t.f);
    lemma_one_and_zero(t.a, t.c);
    lemma_one_and_zero(t.b, t.d);
    lemma_zero_is_neutral(t.a);
    lemma_zero_is_neutral(t.b);
    lemma_zero_is_neutral(t.c);
    lemma_zero_is_neutral(t.d);
    lemma_zero_is_neutral(t.e);
    lemma_zero_is_neutral(t.f);
    lemma_zero_annihilates(t.a);
    lemma_zero_annihilates(t.b);
    lemma_zero_annihilates(t.c);
    lemma_zero_annihilates(t.d);
    lemma_zero_is_neutral(zero);
}

} // verus!
