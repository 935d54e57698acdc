use pdf_vectors::curve::bezier_to_lines;
use pdf_vectors::drawing::{generate_dxf, is_degenerate};
use pdf_vectors::geometry::{LineEntity, Point, Transform};
use pdf_vectors::lattice::Lattice;
use pdf_vectors::scalar::Scalar;

#[derive(Clone, Copy, Debug, PartialEq)]
struct Double(f64);

impl Scalar for Double {
    fn of_integer(value: i64) -> Self {
        Double(value as f64)
    }
    fn of_single(bits: u32) -> Self {
        Double(f32::from_bits(bits) as f64)
    }
    fn sum(self, rhs: Self) -> Self {
        Double(self.0 + rhs.0)
    }
    fn difference(self, rhs: Self) -> Self {
        Double(self.0 - rhs.0)
    }
    fn product(self, rhs: Self) -> Self {
        Double(self.0 * rhs.0)
    }
    fn quotient(self, rhs: Self) -> Self {
        Double(self.0 / rhs.0)
    }
    fn magnitude(self) -> Self {
        Double(self.0.abs())
    }
    fn exceeds(self, rhs: Self) -> bool {
        self.0 > rhs.0
    }
    fn from_integer(value: i64) -> Self {
        Double(value as f64)
    }
    fn from_single(bits: u32) -> Self {
        Double(f32::from_bits(bits) as f64)
    }
    fn plus(self, rhs: Self) -> Self {
        Double(self.0 + rhs.0)
    }
    fn minus(self, rhs: Self) -> Self {
        Double(self.0 - rhs.0)
    }
    fn times(self, rhs: Self) -> Self {
        Double(self.0 * rhs.0)
    }
    fn over(self, rhs: Self) -> Self {
        Double(self.0 / rhs.0)
    }
    fn absolute(self) -> Self {
        Double(self.0.abs())
    }
    fn greater_than(self, rhs: Self) -> bool {
        self.0 > rhs.0
    }
}

fn pt(x: f64, y: f64) -> Point<Double> {
    Point { x: Double(x), y: Double(y) }
}

fn seg(x0: f64, y0: f64, x1: f64, y1: f64) -> LineEntity<Double> {
    LineEntity { start: pt(x0, y0), end: pt(x1, y1) }
}

fn matrix(a: f64, b: f64, c: f64, d: f64, e: f64, f: f64) -> Transform<Double> {
    Transform { a: Double(a), b: Double(b), c: Double(c), d: Double(d), e: Double(e), f: Double(f) }
}

fn lpt(x: i64, y: i64) -> Point<Lattice> {
    Point { x: Lattice { value: x }, y: Lattice { value: y } }
}

fn lmatrix(v: [i64; 6]) -> Transform<Lattice> {
    Transform {
        a: Lattice { value: v[0] },
        b: Lattice { value: v[1] },
        c: Lattice { value: v[2] },
        d: Lattice { value: v[3] },
        e: Lattice { value: v[4] },
        f: Lattice { value: v[5] },
    }
}

#[test]
fn identity_is_one_zero_zero_one_zero_zero() {
    assert_eq!(Transform::<Double>::identity(), matrix(1.0, 0.0, 0.0, 1.0, 0.0, 0.0));
    assert_eq!(Transform::<Double>::identity().apply(pt(3.5, -2.0)), pt(3.5, -2.0));
}

#[test]
fn apply_uses_every_entry() {
    let t = matrix(2.0, 3.0, 5.0, 7.0, 11.0, 13.0);
    // x' = 2*1 + 5*10 + 11, y' = 3*1 + 7*10 + 13
    assert_eq!(t.apply(pt(1.0, 10.0)), pt(63.0, 86.0));
}

#[test]
fn shift_x_moves_along_x_only() {
    let t = Transform::shift_x(Double(120.0));
    assert_eq!(t, matrix(1.0, 0.0, 0.0, 1.0, 120.0, 0.0));
    assert_eq!(t.apply(pt(1.0, 2.0)), pt(121.0, 2.0));
}

#[test]
fn multiply_sends_a_point_through_the_second_map_first() {
    let scale = matrix(2.0, 0.0, 0.0, 2.0, 0.0, 0.0);
    let shift = matrix(1.0, 0.0, 0.0, 1.0, 100.0, 0.0);
    let p = pt(1.0, 1.0);
    // shift first, scale after: 2 * (1 + 100)
    assert_eq!(scale.multiply(&shift).apply(p), pt(202.0, 2.0));
    assert_eq!(scale.multiply(&shift).apply(p), scale.apply(shift.apply(p)));
    // scale first, shift after: 2 * 1 + 100
    assert_eq!(shift.multiply(&scale).apply(p), pt(102.0, 2.0));
    assert_eq!(shift.multiply(&scale).apply(p), shift.apply(scale.apply(p)));
    assert_ne!(scale.multiply(&shift).apply(p), shift.multiply(&scale).apply(p));
}

#[test]
fn multiply_gives_the_entries_of_the_product() {
    let outer = matrix(2.0, 3.0, 5.0, 7.0, 11.0, 13.0);
    let inner = matrix(17.0, 19.0, 23.0, 29.0, 31.0, 37.0);
    assert_eq!(
        outer.multiply(&inner),
        matrix(
            17.0 * 2.0 + 19.0 * 5.0,
            17.0 * 3.0 + 19.0 * 7.0,
            23.0 * 2.0 + 29.0 * 5.0,
            23.0 * 3.0 + 29.0 * 7.0,
            31.0 * 2.0 + 37.0 * 5.0 + 11.0,
            31.0 * 3.0 + 37.0 * 7.0 + 13.0,
        )
    );
}

#[test]
fn multiply_composes_on_the_lattice() {
    let outer = lmatrix([2, 3, 5, 7, 11, 13]);
    let inner = lmatrix([-17, 19, 23, -29, 31, 37]);
    let p = lpt(41, -43);
    assert_eq!(outer.multiply(&inner).apply(p), outer.apply(inner.apply(p)));
    assert_eq!(inner.multiply(&outer).apply(p), inner.apply(outer.apply(p)));
}

#[test]
fn multiply_composes_on_the_lattice_where_products_wrap() {
    let outer = lmatrix([i64::MAX, 3, -5, i64::MIN, 11, 13]);
    let inner = lmatrix([1 << 40, 19, 23, 1 << 62, 31, 37]);
    let p = lpt(1 << 50, -(1 << 33));
    assert_eq!(outer.multiply(&inner).apply(p), outer.apply(inner.apply(p)));
}

#[test]
fn identity_is_neutral_in_composition() {
    let t = matrix(2.0, 3.0, 5.0, 7.0, 11.0, 13.0);
    assert_eq!(Transform::identity().multiply(&t), t);
    assert_eq!(t.multiply(&Transform::identity()), t);
    let l = lmatrix([2, -3, 5, i64::MAX, i64::MIN, 13]);
    assert_eq!(Transform::identity().multiply(&l), l);
    assert_eq!(l.multiply(&Transform::identity()), l);
    assert_eq!(Transform::<Lattice>::identity().apply(lpt(i64::MIN, 7)), lpt(i64::MIN, 7));
}

#[test]
fn composition_is_associative_on_the_lattice() {
    let a = lmatrix([2, 3, 5, 7, 11, 13]);
    let b = lmatrix([-17, 19, 23, -29, 31, 37]);
    let c = lmatrix([i64::MAX, 1 << 40, -43, 47, i64::MIN, 53]);
    assert_eq!(a.multiply(&b).multiply(&c), a.multiply(&b.multiply(&c)));
    assert_eq!(c.multiply(&a).multiply(&b), c.multiply(&a.multiply(&b)));
    assert_ne!(a.multiply(&b), b.multiply(&a));
}

#[test]
fn a_shift_adds_to_x_on_the_lattice() {
    let t = Transform::shift_x(Lattice { value: 120 });
    assert_eq!(t.apply(lpt(7, -9)), lpt(127, -9));
    assert_eq!(t.apply(lpt(i64::MAX, 0)), lpt(i64::MIN + 119, 0));
}

#[test]
fn bezier_halves_a_curve() {
    let lines = bezier_to_lines(pt(0.0, 0.0), pt(0.0, 10.0), pt(10.0, 10.0), pt(10.0, 0.0), 2);
    assert_eq!(lines, vec![seg(0.0, 0.0, 5.0, 7.5), seg(5.0, 7.5, 10.0, 0.0)]);
}

#[test]
fn bezier_makes_a_chain_of_the_number_of_segments_asked_for() {
    let lines = bezier_to_lines(pt(0.0, 0.0), pt(1.0, 3.0), pt(4.0, 3.0), pt(6.0, 0.0), 10);
    assert_eq!(lines.len(), 10);
    assert_eq!(lines[0].start, pt(0.0, 0.0));
    assert_eq!(lines[9].end, pt(6.0, 0.0));
    for k in 1..10 {
        assert_eq!(lines[k].start, lines[k - 1].end);
    }
}

#[test]
fn bezier_with_no_segments_is_empty() {
    let lines = bezier_to_lines(pt(0.0, 0.0), pt(1.0, 3.0), pt(4.0, 3.0), pt(6.0, 0.0), 0);
    assert_eq!(lines.len(), 0);
}

#[test]
fn bezier_of_a_straight_line_in_thirds() {
    // Control points at one and two thirds: the curve is the segment itself.
    let lines = bezier_to_lines(pt(0.0, 0.0), pt(3.0, 0.0), pt(6.0, 0.0), pt(9.0, 0.0), 1);
    assert_eq!(lines, vec![seg(0.0, 0.0, 9.0, 0.0)]);
}

#[test]
fn bezier_with_first_control_point_at_the_start() {
    let lines = bezier_to_lines(pt(0.0, 0.0), pt(0.0, 0.0), pt(8.0, 8.0), pt(8.0, 0.0), 2);
    // t = 1/2: 3/8 * 8 + 1/8 * 8 = 4 and 3/8 * 8 = 3
    assert_eq!(lines, vec![seg(0.0, 0.0, 4.0, 3.0), seg(4.0, 3.0, 8.0, 0.0)]);
}

#[test]
fn bezier_with_second_control_point_at_the_end() {
    let lines = bezier_to_lines(pt(0.0, 0.0), pt(0.0, 8.0), pt(8.0, 0.0), pt(8.0, 0.0), 2);
    // t = 1/2: x = 3/8 * 8 + 1/8 * 8 = 4, y = 3/8 * 8 = 3
    assert_eq!(lines, vec![seg(0.0, 0.0, 4.0, 3.0), seg(4.0, 3.0, 8.0, 0.0)]);
}

#[test]
fn bezier_of_a_point_stays_within_the_tolerance() {
    for n in [1usize, 2, 3, 7, 10, 64] {
        let p = pt(12.3, -45.6);
        let lines = bezier_to_lines(p, p, p, p, n);
        assert_eq!(lines.len(), n);
        for line in &lines {
            assert!((line.start.x.0 - line.end.x.0).abs() < 0.001);
            assert!((line.start.y.0 - line.end.y.0).abs() < 0.001);
            assert!(is_degenerate(line));
        }
        assert_eq!(generate_dxf(&lines, Double(1.0)), vec![]);
    }
}

#[test]
fn bezier_of_a_point_is_that_point_on_the_lattice() {
    for n in [1usize, 2, 5, 10] {
        let p = lpt(7, -9);
        let lines = bezier_to_lines(p, p, p, p, n);
        assert_eq!(lines.len(), n);
        for line in &lines {
            assert_eq!(*line, LineEntity { start: p, end: p });
        }
        assert_eq!(generate_dxf(&lines, Lattice { value: 1 }), vec![]);
    }
}

#[test]
fn generate_dxf_scales_points_to_millimetres() {
    let lines = vec![seg(0.0, 0.0, 72.0, 0.0), seg(72.0, 0.0, 72.0, 144.0)];
    let k = 25.4 / 72.0;
    assert_eq!(
        generate_dxf(&lines, Double(1.0)),
        vec![seg(0.0, 0.0, 72.0 * k, 0.0), seg(72.0 * k, 0.0, 72.0 * k, 144.0 * k)]
    );
    let k2 = 2.0 * (25.4 / 72.0);
    assert_eq!(
        generate_dxf(&lines, Double(2.0)),
        vec![seg(0.0, 0.0, 72.0 * k2, 0.0), seg(72.0 * k2, 0.0, 72.0 * k2, 144.0 * k2)]
    );
}

#[test]
fn generate_dxf_leaves_out_segments_within_a_thousandth() {
    let lines = vec![
        seg(1.0, 1.0, 1.0, 1.0),
        seg(1.0, 1.0, 1.0005, 0.9995),
        seg(1.0, 1.0, 1.002, 1.0),
        seg(1.0, 1.0, 1.0, 0.998),
        seg(0.0, 0.0, 0.001, -0.001),
        seg(0.0, 0.0, 0.0009765625, 0.0),
    ];
    let out = generate_dxf(&lines, Double(72.0 / 25.4));
    assert_eq!(out.len(), 2);
    assert!(is_degenerate(&lines[0]));
    assert!(is_degenerate(&lines[1]));
    assert!(!is_degenerate(&lines[2]));
    assert!(!is_degenerate(&lines[3]));
    // Exactly a thousandth apart is not more than a thousandth.
    assert!(is_degenerate(&lines[4]));
    assert!(is_degenerate(&lines[5]));
}

#[test]
fn generate_dxf_of_nothing_is_nothing() {
    let lines: Vec<LineEntity<Double>> = Vec::new();
    assert_eq!(generate_dxf(&lines, Double(1.0)), vec![]);
}

#[test]
fn generate_dxf_keeps_negative_and_large_coordinates() {
    let lines = vec![seg(-7200.0, -72.0, 7.2e9, 72.0)];
    let k = 25.4 / 72.0;
    assert_eq!(generate_dxf(&lines, Double(1.0)), vec![seg(-7200.0 * k, -72.0 * k, 7.2e9 * k, 72.0 * k)]);
}
