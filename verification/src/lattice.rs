//! Whole-number scalars with exact arithmetic.

use crate::scalar::{Exact, Scalar};
use vstd::arithmetic::div_mod::*;
use vstd::arithmetic::mul::*;
use vstd::arithmetic::power2::*;
use vstd::prelude::*;

verus! {

/// A whole number, kept in 64 bits. Sums, differences and products wrap
/// around in two's complement, which makes them exact modulo 2^64.
#[derive(Clone, Copy, Debug, PartialEq, Eq)]
pub struct Lattice {
    pub value: i64,
}

/// The 64-bit value that is congruent to `x` modulo 2^64.
pub open spec fn wrap(x: int) -> i64 {
    let m = x % 0x1_0000_0000_0000_0000;
    if m > i64::MAX {
        (m - 0x1_0000_0000_0000_0000) as i64
    } else {
        m as i64
    }
}

/// The 64-bit value nearest to `x`.
pub open spec fn saturate(x: int) -> i64 {
    if x > i64::MAX {
        i64::MAX
    } else if x < i64::MIN {
        i64::MIN
    } else {
        x as i64
    }
}

/// The quotient of two whole numbers, rounded toward zero.
pub open spec fn truncated_quotient(x: int, d: int) -> int
    recommends
        d != 0,
{
    if x >= 0 && d > 0 {
        x / d
    } else if x < 0 && d < 0 {
        (-x) / (-d)
    } else if x < 0 {
        -((-x) / d)
    } else {
        -(x / (-d))
    }
}

/// The whole part of the single-precision number with this bit pattern,
/// rounded toward zero; zero for what is not a number. An infinity gives a
/// value of magnitude 2^128.
pub open spec fn single_whole_part(bits: u32) -> int {
    let exponent = (bits as int / 0x80_0000) % 0x100;
    let fraction = bits as int % 0x80_0000;
    let significand = 0x80_0000 + fraction;
    let magnitude: int = if exponent == 0xff && fraction != 0 {
        0
    } else if exponent >= 150 {
        significand * pow2((exponent - 150) as nat)
    } else if exponent >= 127 {
        significand / (pow2((150 - exponent) as nat) as int)
    } else {
        0
    };
    if bits >= 0x8000_0000 {
        -magnitude
    } else {
        magnitude
    }
}

/// Wrapping keeps the remainder modulo 2^64.
proof fn lemma_wrap_congruent(x: int)
    ensures
        (wrap(x) as int) % 0x1_0000_0000_0000_0000 == x % 0x1_0000_0000_0000_0000,
{
    let m = x % 0x1_0000_0000_0000_0000;
    lemma_mod_twice(x, 0x1_0000_0000_0000_0000);
    if m > i64::MAX {
        lemma_mod_sub_multiples_vanish(m, 0x1_0000_0000_0000_0000);
    }
}

/// Wrapping leaves a value that fits as it is.
proof fn lemma_wrap_in_range(x: int)
    requires
        i64::MIN <= x <= i64::MAX,
    ensures
        wrap(x) == x,
{
    if x < 0 {
        lemma_mod_add_multiples_vanish(x, 0x1_0000_0000_0000_0000);
        lemma_small_mod((x + 0x1_0000_0000_0000_0000) as nat, 0x1_0000_0000_0000_0000);
    } else {
        lemma_small_mod(x as nat, 0x1_0000_0000_0000_0000);
    }
}

/// A term of a sum may be wrapped before the sum is.
proof fn lemma_wrap_sum(x: int, y: int)
    ensures
        wrap(wrap(x) + y) == wrap(x + y),
        wrap(y + wrap(x)) == wrap(y + x),
{
    lemma_wrap_congruent(x);
    lemma_add_mod_noop(wrap(x) as int, y, 0x1_0000_0000_0000_0000);
    lemma_add_mod_noop(x, y, 0x1_0000_0000_0000_0000);
}

/// A factor of a product may be wrapped before the product is.
proof fn lemma_wrap_product(x: int, y: int)
    ensures
        wrap(wrap(x) * y) == wrap(x * y),
        wrap(y * wrap(x)) == wrap(y * x),
{
    lemma_wrap_congruent(x);
    lemma_mul_mod_noop(wrap(x) as int, y, 0x1_0000_0000_0000_0000);
    lemma_mul_mod_noop(x, y, 0x1_0000_0000_0000_0000);
    lemma_mul_is_commutative(y, wrap(x) as int);
    lemma_mul_is_commutative(y, x);
}

/// A quotient is no farther from zero than what is divided.
proof fn lemma_quotient_bounds(x: int, d: int)
    requires
        d != 0,
    ensures
        x >= 0 ==> -x <= truncated_quotient(x, d) <= x,
        x < 0 ==> x <= truncated_quotient(x, d) <= -x,
{
    let n = if x >= 0 {
        x
    } else {
        -x
    };
    let m = if d > 0 {
        d
    } else {
        -d
    };
    lemma_div_pos_is_pos(n, m);
    lemma_div_nonincreasing(n, m);
}

/// `significand * 2^shift`, for a product below 2^63.
fn scale_up(significand: u64, shift: u32) -> (r: u64)
    requires
        significand < 0x100_0000,
        shift < 40,
    ensures
        r == significand * pow2(shift as nat),
        r < 0x8000_0000_0000_0000,
{
    let mut r: u64 = significand;
    let mut done: u32 = 0;
    proof {
        lemma2_to64();
        lemma2_to64_rest();
    }
    while done < shift
        invariant
            done <= shift < 40,
            significand < 0x100_0000,
            r == significand * pow2(done as nat),
            pow2(done as nat) <= pow2(39),
            pow2(39) == 0x80_0000_0000,
        decreases shift - done,
    {
        proof {
            lemma_pow2_unfold((done + 1) as nat);
            if done + 1 < 39 {
                lemma_pow2_strictly_increases((done + 1) as nat, 39);
            }
            assert(significand * (2 * pow2(done as nat)) == 2 * (significand * pow2(
                done as nat,
            ))) by (nonlinear_arith);
            assert(significand * pow2((done + 1) as nat) <= 0x100_0000 * 0x80_0000_0000)
                by (nonlinear_arith)
                requires
                    significand < 0x100_0000,
                    pow2((done + 1) as nat) <= 0x80_0000_0000,
            ;
        }
        r = r * 2;
        done = done + 1;
    }
    proof {
        assert(significand * pow2(shift as nat) < 0x100_0000 * 0x80_0000_0000)
            by (nonlinear_arith)
            requires
                significand < 0x100_0000,
                pow2(shift as nat) <= 0x80_0000_0000,
        ;
    }
    r
}

/// `significand / 2^shift`, rounded down.
fn scale_down(significand: u64, shift: u32) -> (r: u64)
    requires
        shift <= 23,
    ensures
        r == significand as int / (pow2(shift as nat) as int),
        r <= significand,
{
    let mut r: u64 = significand;
    let mut done: u32 = 0;
    proof {
        lemma2_to64();
        lemma2_to64_rest();
    }
    while done < shift
        invariant
            done <= shift <= 23,
            r == significand as int / (pow2(done as nat) as int),
            r <= significand,
            0 < pow2(done as nat) <= pow2(23),
            pow2(23) == 0x80_0000,
        decreases shift - done,
    {
        proof {
            lemma_pow2_unfold((done + 1) as nat);
            if done + 1 < 23 {
                lemma_pow2_strictly_increases((done + 1) as nat, 23);
            }
            lemma_div_denominator(significand as int, pow2(done as nat) as int, 2);
            assert(pow2(done as nat) * 2 == 2 * pow2(done as nat)) by (nonlinear_arith);
        }
        r = r / 2;
        done = done + 1;
    }
    r
}

impl Scalar for Lattice {
    open spec fn of_integer(value: i64) -> Self {
        Lattice { value }
    }

    open spec fn of_single(bits: u32) -> Self {
        Lattice { value: saturate(single_whole_part(bits)) }
    }

    open spec fn sum(self, rhs: Self) -> Self {
        Lattice { value: wrap(self.value + rhs.value) }
    }

    open spec fn difference(self, rhs: Self) -> Self {
        Lattice { value: wrap(self.value - rhs.value) }
    }

    open spec fn product(self, rhs: Self) -> Self {
        Lattice { value: wrap(self.value * rhs.value) }
    }

    /// The quotient rounded toward zero, wrapped around like sums and
    /// products; zero where the divisor is zero.
    open spec fn quotient(self, rhs: Self) -> Self {
        if rhs.value == 0 {
            Lattice { value: 0 }
        } else {
            Lattice { value: wrap(truncated_quotient(self.value as int, rhs.value as int)) }
        }
    }

    open spec fn magnitude(self) -> Self {
        if self.value < 0 {
            Lattice { value: wrap(-self.value) }
        } else {
            self
        }
    }

    open spec fn exceeds(self, rhs: Self) -> bool {
        self.value > rhs.value
    }

    fn from_integer(value: i64) -> (r: Self) {
        Lattice { value }
    }

    fn from_single(bits: u32) -> (r: Self) {
        let negative = bits >= 0x8000_0000;
        let exponent: u32 = (bits / 0x80_0000) % 0x100;
        let fraction: u32 = bits % 0x80_0000;
        let significand: u64 = 0x80_0000 + fraction as u64;
        if exponent == 0xff && fraction != 0 {
            Lattice { value: 0 }
        } else if exponent < 127 {
            Lattice { value: 0 }
        } else if exponent >= 190 {
            proof {
                lemma2_to64();
                lemma2_to64_rest();
                if exponent - 150 > 40 {
                    lemma_pow2_strictly_increases(40, (exponent - 150) as nat);
                }
                assert(significand * pow2((exponent - 150) as nat) >= 0x8000_0000_0000_0000)
                    by (nonlinear_arith)
                    requires
                        significand >= 0x80_0000,
                        pow2((exponent - 150) as nat) >= 0x100_0000_0000,
                ;
            }
            if negative {
                Lattice { value: i64::MIN }
            } else {
                Lattice { value: i64::MAX }
            }
        } else {
            let magnitude: u64 = if exponent >= 150 {
                scale_up(significand, exponent - 150)
            } else {
                scale_down(significand, 150 - exponent)
            };
            if negative {
                Lattice { value: -(magnitude as i64) }
            } else {
                Lattice { value: magnitude as i64 }
            }
        }
    }

    fn plus(self, rhs: Self) -> (r: Self) {
        Lattice { value: self.value.wrapping_add(rhs.value) }
    }

    fn minus(self, rhs: Self) -> (r: Self) {
        Lattice { value: self.value.wrapping_sub(rhs.value) }
    }

    fn times(self, rhs: Self) -> (r: Self) {
        Lattice { value: self.value.wrapping_mul(rhs.value) }
    }

    fn over(self, rhs: Self) -> (r: Self) {
        match self.value.checked_div(rhs.value) {
            Some(q) => {
                proof {
                    lemma_wrap_in_range(q as int);
                }
                Lattice { value: q }
            },
            None => if rhs.value == 0 {
                Lattice { value: 0 }
            } else {
                proof {
                    lemma_quotient_bounds(self.value as int, rhs.value as int);
                }
                Lattice { value: i64::MIN }
            },
        }
    }

    fn absolute(self) -> (r: Self) {
        if self.value < 0 {
            Lattice { value: 0i64.wrapping_sub(self.value) }
        } else {
            self
        }
    }

    fn greater_than(self, rhs: Self) -> (r: bool) {
        self.value > rhs.value
    }
}

impl Exact for Lattice {
    proof fn sum_commutes(a: Self, b: Self) {
    }

    proof fn sum_associates(a: Self, b: Self, c: Self) {
        lemma_wrap_sum(a.value + b.value, c.value as int);
        lemma_wrap_sum(b.value + c.value, a.value as int);
    }

    proof fn product_commutes(a: Self, b: Self) {
        lemma_mul_is_commutative(a.value as int, b.value as int);
    }

    proof fn product_associates(a: Self, b: Self, c: Self) {
        lemma_wrap_product(a.value * b.value, c.value as int);
        lemma_wrap_product(b.value * c.value, a.value as int);
        lemma_mul_is_associative(a.value as int, b.value as int, c.value as int);
    }

    proof fn product_distributes(a: Self, b: Self, c: Self) {
        lemma_wrap_product(b.value + c.value, a.value as int);
        lemma_mul_is_distributive_add(a.value as int, b.value as int, c.value as int);
        lemma_wrap_sum(a.value * b.value, wrap(a.value * c.value) as int);
        lemma_wrap_sum(a.value * c.value, a.value * b.value);
    }

    proof fn one_is_neutral(a: Self) {
        lemma_wrap_in_range(a.value as int);
        assert(1 * a.value == a.value);
    }

    proof fn difference_undoes_sum(a: Self, b: Self) {
        lemma_wrap_sum(a.value - b.value, b.value as int);
        lemma_wrap_in_range(a.value as int);
    }

    proof fn integer_successor(n: i64) {
        lemma_wrap_in_range(n + 1);
    }

    proof fn nothing_exceeds_from_itself(a: Self) {
        lemma_wrap_in_range(0);
    }
}

} // verus!
