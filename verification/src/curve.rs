//! Cubic Bézier curves, flattened into chains of segments.

use crate::geometry::{LineEntity, Point};
use crate::scalar::{lemma_sum_distributes, lemma_sums_interchange, Exact, Scalar};
use vstd::prelude::*;

verus! {

/// One coordinate of the cubic curve with control values `c0..c3` at
/// parameter `t`: `u³·c0 + 3·u²·t·c1 + 3·u·t²·c2 + t³·c3` with `u = 1 - t`,
/// each product and sum taken from left to right.
pub open spec fn curve_coordinate<S: Scalar>(c0: S, c1: S, c2: S, c3: S, t: S) -> S {
    let three = S::of_integer(3);
    let t2 = t.product(t);
    let t3 = t2.product(t);
    let u = S::of_integer(1).difference(t);
    let u2 = u.product(u);
    let u3 = u2.product(u);
    u3.product(c0).sum(three.product(u2).product(t).product(c1)).sum(
        three.product(u).product(t2).product(c2),
    ).sum(t3.product(c3))
}

/// The scalar that stands for a count. A count beyond the whole numbers
/// that scalars are made from stands as the largest of them.
pub open spec fn spec_count<S: Scalar>(count: int) -> S {
    S::of_integer(
        if count > i64::MAX {
            i64::MAX
        } else {
            count as i64
        },
    )
}

/// The parameter of step `step` out of `count`: the quotient of the two.
pub open spec fn curve_parameter<S: Scalar>(step: int, count: int) -> S {
    spec_count::<S>(step).quotient(spec_count::<S>(count))
}

/// The point of the curve at step `step` out of `count`.
pub open spec fn curve_point<S: Scalar>(
    start: Point<S>,
    first: Point<S>,
    second: Point<S>,
    end: Point<S>,
    step: int,
    count: int,
) -> Point<S> {
    let t = curve_parameter::<S>(step, count);
    Point {
        x: curve_coordinate(start.x, first.x, second.x, end.x, t),
        y: curve_coordinate(start.y, first.y, second.y, end.y, t),
    }
}

/// The chain of `segments` segments along the curve: the first starts at
/// `start`, each later one where the one before ends, and segment `k` ends
/// at the point of step `k + 1`.
pub open spec fn spec_bezier_to_lines<S: Scalar>(
    start: Point<S>,
    first: Point<S>,
    second: Point<S>,
    end: Point<S>,
    segments: nat,
) -> Seq<LineEntity<S>> {
    Seq::new(
        segments,
        |k: int|
            LineEntity {
                start: if k == 0 {
                    start
                } else {
                    curve_point(start, first, second, end, k, segments as int)
                },
                end: curve_point(start, first, second, end, k + 1, segments as int),
            },
    )
}

/// Makes the scalar that stands for a count.
fn count_scalar<S: Scalar>(n: usize) -> (r: S)
    ensures
        r == spec_count::<S>(n as int),
{
    let wide: u64 = n as u64;
    if wide > 0x7fff_ffff_ffff_ffff {
        S::from_integer(0x7fff_ffff_ffff_ffff)
    } else {
        S::from_integer(wide as i64)
    }
}

/// Computes one coordinate of a point of the curve.
fn coordinate_at<S: Scalar>(c0: S, c1: S, c2: S, c3: S, t: S) -> (r: S)
    ensures
        r == curve_coordinate(c0, c1, c2, c3, t),
{
    let three = S::from_integer(3);
    let t2 = t.times(t);
    let t3 = t2.times(t);
    let u = S::from_integer(1).minus(t);
    let u2 = u.times(u);
    let u3 = u2.times(u);
    u3.times(c0).plus(three.times(u2).times(t).times(c1)).plus(
        three.times(u).times(t2).times(c2),
    ).plus(t3.times(c3))
}

/// Flattens the cubic curve from `start` to `end` with the control points
/// `first` and `second` into `segments` segments at equal steps of the
/// parameter. A control point may lie on the end next to it.
pub fn bezier_to_lines<S: Scalar>(
    start: Point<S>,
    first: Point<S>,
    second: Point<S>,
    end: Point<S>,
    segments: usize,
) -> (lines: Vec<LineEntity<S>>)
    ensures
        lines@ == spec_bezier_to_lines(start, first, second, end, segments as nat),
{
    let mut lines: Vec<LineEntity<S>> = Vec::new();
    let mut prev_point = start;
    let mut i: usize = 0;
    while i < segments
        invariant
            i <= segments,
            lines@ == spec_bezier_to_lines(start, first, second, end, segments as nat).take(i as int),
            prev_point == if i == 0 {
                start
            } else {
                curve_point(start, first, second, end, i as int, segments as int)
            },
        decreases segments - i,
    {
        let t = count_scalar::<S>(i + 1).over(count_scalar::<S>(segments));
        let current_point = Point {
            x: coordinate_at(start.x, first.x, second.x, end.x, t),
            y: coordinate_at(start.y, first.y, second.y, end.y, t),
        };
        lines.push(LineEntity { start: prev_point, end: current_point });
        prev_point = current_point;
        i = i + 1;
        assert(lines@ =~= spec_bezier_to_lines(start, first, second, end, segments as nat).take(i as int));
    }
    assert(lines@ =~= spec_bezier_to_lines(start, first, second, end, segments as nat));
    lines
}

/// `3 * z == (z + z) + z`.
proof fn lemma_triple<S: Exact>(z: S)
    ensures
        S::of_integer(3).product(z) == z.sum(z).sum(z),
{
    let one = S::of_integer(1);
    S::integer_successor(1);
    S::integer_successor(2);
    lemma_sum_distributes(one.sum(one), one, z);
    lemma_sum_distributes(one, one, z);
    S::one_is_neutral(z);
}

/// `a * b + a * c == a` where `b + c == 1`.
proof fn lemma_split_of_one<S: Exact>(a: S, b: S, c: S)
    requires
        b.sum(c) == S::of_integer(1),
    ensures
        a.product(b).sum(a.product(c)) == a,
{
    S::product_distributes(a, b, c);
    S::product_commutes(a, S::of_integer(1));
    S::one_is_neutral(a);
}

/// The four weights of a cubic curve add up to one: with `u = 1 - t`,
/// `u³ + 3·u²·t + 3·u·t² + t³ == 1`.
proof fn lemma_weights_add_up<S: Exact>(t: S)
    ensures
        ({
            let u = S::of_integer(1).difference(t);
            u.product(u).product(u).sum(S::of_integer(3).product(u.product(u)).product(t)).sum(
                S::of_integer(3).product(u).product(t.product(t)),
            ).sum(t.product(t).product(t))
        }) == S::of_integer(1),
{
    let one = S::of_integer(1);
    let three = S::of_integer(3);
    let u = one.difference(t);
    let u2 = u.product(u);
    let t2 = t.product(t);
    let ut = u.product(t);
    let x = u2.product(u);
    let a = u2.product(t);
    let b = u.product(t2);
    let z = t2.product(t);
    S::difference_undoes_sum(one, t);
    assert(u.sum(t) == one);
    // The two middle weights are three times `a` and three times `b`.
    S::product_associates(three, u2, t);
    S::product_associates(three, u, t2);
    lemma_triple(a);
    lemma_triple(b);
    let k = x.sum(a.sum(a).sum(a)).sum(b.sum(b).sum(b)).sum(z);
    // The eight terms in pairs.
    S::sum_associates(a, a, a);
    S::sum_associates(x, a, a.sum(a));
    S::sum_associates(x.sum(a), a.sum(a), b.sum(b).sum(b));
    S::sum_associates(b, b, b);
    lemma_sums_interchange(a, a, b, b.sum(b));
    S::sum_associates(a, b, b);
    assert(a.sum(a).sum(b.sum(b).sum(b)) == a.sum(b).sum(a.sum(b).sum(b)));
    S::sum_associates(x.sum(a), a.sum(b).sum(a.sum(b).sum(b)), z);
    S::sum_associates(a.sum(b), a.sum(b).sum(b), z);
    S::sum_associates(a.sum(b), b, z);
    S::sum_associates(x.sum(a), a.sum(b), a.sum(b).sum(b.sum(z)));
    assert(k == x.sum(a).sum(a.sum(b)).sum(a.sum(b).sum(b.sum(z))));
    // Each pair is a product with `u + t`, which is one.
    lemma_split_of_one(u2, u, t);
    assert(x.sum(a) == u2);
    S::product_associates(u, u, t);
    S::product_commutes(u, ut);
    S::product_associates(u, t, t);
    lemma_split_of_one(ut, u, t);
    assert(a.sum(b) == ut);
    S::product_commutes(u, t2);
    lemma_split_of_one(t2, u, t);
    assert(b.sum(z) == t2);
    lemma_split_of_one(u, u, t);
    assert(u2.sum(ut) == u);
    S::product_commutes(u, t);
    lemma_split_of_one(t, u, t);
    assert(ut.sum(t2) == t);
}

/// A coordinate of a curve whose four control values are one value is that
/// value, at every parameter.
proof fn lemma_coordinate_of_a_point<S: Exact>(c: S, t: S)
    ensures
        curve_coordinate(c, c, c, c, t) == c,
{
    let three = S::of_integer(3);
    let u = S::of_integer(1).difference(t);
    let k1 = u.product(u).product(u);
    let k2 = three.product(u.product(u)).product(t);
    let k3 = three.product(u).product(t.product(t));
    let k4 = t.product(t).product(t);
    lemma_sum_distributes(k1, k2, c);
    lemma_sum_distributes(k1.sum(k2), k3, c);
    lemma_sum_distributes(k1.sum(k2).sum(k3), k4, c);
    lemma_weights_add_up(t);
    S::one_is_neutral(c);
}

/// A curve whose four control points are one point never leaves it: each of
/// its segments starts and ends at that point, however many there are. This
/// holds where the arithmetic is exact.
pub proof fn lemma_curve_of_a_point<S: Exact>(p: Point<S>, segments: nat)
    ensures
        spec_bezier_to_lines(p, p, p, p, segments) == Seq::new(
            segments,
            |k: int| LineEntity { start: p, end: p },
        ),
{
    assert forall|k: int| 0 <= k <= segments implies #[trigger] curve_point(
        p,
        p,
        p,
        p,
        k,
        segments as int,
    ) == p by {
        let t = curve_parameter::<S>(k, segments as int);
        lemma_coordinate_of_a_point(p.x, t);
        lemma_coordinate_of_a_point(p.y, t);
    }
    assert(spec_bezier_to_lines(p, p, p, p, segments) =~= Seq::new(
        segments,
        |k: int| LineEntity { start: p, end: p },
    ));
}

} // verus!
