//! Fixed-point scalars: a real number is stored as an `i64` count of
//! 2^-20 units.  Every operation saturates at the `i64` range and
//! truncates fractions toward zero, and every operation's result is
//! stated exactly, as an integer function of the operand bits.

use vstd::arithmetic::div_mod::{
    lemma_div_is_ordered, lemma_div_multiples_vanish, lemma_div_nonincreasing,
    lemma_div_pos_is_pos, lemma_multiply_divide_lt,
};
use vstd::arithmetic::power2::{lemma2_to64, lemma_pow2_strictly_increases, pow2};
use vstd::prelude::*;

verus! {

/// Number of bits per whole unit: values are multiples of 2^-20.
pub const FX_SCALE: i64 = 1048576;

/// Clamps an unbounded integer into the `i64` range.
pub open spec fn sat64(x: int) -> int {
    if x > i64::MAX as int {
        i64::MAX as int
    } else if x < i64::MIN as int {
        i64::MIN as int
    } else {
        x
    }
}

/// Integer division truncated toward zero, for a positive divisor.
pub open spec fn tdiv(n: int, d: int) -> int
    recommends
        d > 0,
{
    if n >= 0 {
        n / d
    } else {
        -((-n) / d)
    }
}

/// Truncating division extended to any nonzero divisor.
pub open spec fn tdiv_signed(n: int, d: int) -> int
    recommends
        d != 0,
{
    if d > 0 {
        tdiv(n, d)
    } else {
        tdiv(-n, -d)
    }
}

pub open spec fn fx_add_spec(a: int, b: int) -> int {
    sat64(a + b)
}

pub open spec fn fx_sub_spec(a: int, b: int) -> int {
    sat64(a - b)
}

pub open spec fn fx_neg_spec(a: int) -> int {
    sat64(-a)
}

pub open spec fn fx_abs_spec(a: int) -> int {
    if a >= 0 {
        a
    } else {
        sat64(-a)
    }
}

pub open spec fn fx_min_spec(a: int, b: int) -> int {
    if a <= b {
        a
    } else {
        b
    }
}

pub open spec fn fx_max_spec(a: int, b: int) -> int {
    if a >= b {
        a
    } else {
        b
    }
}

pub open spec fn fx_clamp_spec(x: int, lo: int, hi: int) -> int {
    if x < lo {
        lo
    } else if x > hi {
        hi
    } else {
        x
    }
}

pub open spec fn fx_mul_spec(a: int, b: int) -> int {
    sat64(tdiv(a * b, FX_SCALE as int))
}

/// Division by zero saturates toward the sign of the dividend, standing
/// in for the infinities that a field with a degenerate configuration
/// would produce.
pub open spec fn fx_div_spec(a: int, b: int) -> int {
    if b == 0 {
        if a > 0 {
            i64::MAX as int
        } else if a < 0 {
            i64::MIN as int
        } else {
            0
        }
    } else {
        sat64(tdiv_signed(a * (FX_SCALE as int), b))
    }
}

/// `r` is the integer square root of `x`, rounded down.
pub open spec fn is_isqrt(x: int, r: int) -> bool {
    0 <= r && r * r <= x && x < (r + 1) * (r + 1)
}

pub open spec fn isqrt_spec(x: int) -> int
    recommends
        x >= 0,
{
    choose|r: int| is_isqrt(x, r)
}

/// Fixed-point square root: the bits of `sqrt(a / 2^20) * 2^20`,
/// rounded down; nonpositive inputs give zero.
pub open spec fn fx_sqrt_spec(a: int) -> int {
    if a <= 0 {
        0
    } else {
        isqrt_spec(a * (FX_SCALE as int))
    }
}

pub proof fn lemma_isqrt_unique(x: int, r: int)
    requires
        is_isqrt(x, r),
    ensures
        isqrt_spec(x) == r,
{
    assert(exists|r2: int| is_isqrt(x, r2));
    let rr = isqrt_spec(x);
    assert(is_isqrt(x, rr));
    assert(rr == r) by (nonlinear_arith)
        requires
            is_isqrt(x, rr),
            is_isqrt(x, r);
}

/// Every nonnegative integer has an integer square root, so the chosen
/// root really satisfies its defining bracket.
pub proof fn lemma_isqrt_exists(x: int)
    requires
        x >= 0,
    ensures
        is_isqrt(x, isqrt_spec(x)),
    decreases x,
{
    if x == 0 {
        assert(is_isqrt(0, 0)) by (nonlinear_arith);
        assert(exists|r: int| is_isqrt(x, r));
    } else {
        lemma_isqrt_exists(x - 1);
        let r = isqrt_spec(x - 1);
        if x < (r + 1) * (r + 1) {
            assert(is_isqrt(x, r));
        } else {
            assert(x == (r + 1) * (r + 1));
            assert(is_isqrt(x, r + 1)) by (nonlinear_arith)
                requires
                    x == (r + 1) * (r + 1),
                    r >= 0;
        }
        assert(exists|rr: int| is_isqrt(x, rr));
    }
}

/// Integer square roots are monotone.
pub proof fn lemma_isqrt_monotone(x: int, y: int)
    requires
        0 <= x <= y,
    ensures
        isqrt_spec(x) <= isqrt_spec(y),
{
    lemma_isqrt_exists(x);
    lemma_isqrt_exists(y);
    assert(isqrt_spec(x) <= isqrt_spec(y)) by (nonlinear_arith)
        requires
            is_isqrt(x, isqrt_spec(x)),
            is_isqrt(y, isqrt_spec(y)),
            x <= y;
}

/// Integer square roots are subadditive up to one.
pub proof fn lemma_isqrt_subadditive(x: int, y: int)
    requires
        x >= 0,
        y >= 0,
    ensures
        isqrt_spec(x + y) <= isqrt_spec(x) + isqrt_spec(y) + 1,
{
    lemma_isqrt_exists(x);
    lemma_isqrt_exists(y);
    lemma_isqrt_exists(x + y);
    assert(isqrt_spec(x + y) <= isqrt_spec(x) + isqrt_spec(y) + 1) by (nonlinear_arith)
        requires
            is_isqrt(x, isqrt_spec(x)),
            is_isqrt(y, isqrt_spec(y)),
            is_isqrt(x + y, isqrt_spec(x + y));
}

/// Twice a product never exceeds the sum of the squares.
proof fn lemma_two_products(u: int, v: int)
    by (nonlinear_arith)
    ensures
        2 * (u * v) <= u * u + v * v,
{
}

/// The Cauchy–Schwarz inequality for integer triples: both sides are
/// expanded monomial by monomial, and each cross term is dominated
/// through the two-squares bound.
pub proof fn lemma_cauchy_schwarz(ax: int, ay: int, az: int, bx: int, by: int, bz: int)
    ensures
        (ax * bx + ay * by + az * bz) * (ax * bx + ay * by + az * bz) <= (ax * ax + ay * ay + az
            * az) * (bx * bx + by * by + bz * bz),
{
    let d = ax * bx + ay * by + az * bz;
    let na = ax * ax + ay * ay + az * az;
    let nb = bx * bx + by * by + bz * bz;
    let c1 = ax * bx;
    let c2 = ay * by;
    let c3 = az * bz;
    let s1 = ax * ax;
    let s2 = ay * ay;
    let s3 = az * az;
    let t1 = bx * bx;
    let t2 = by * by;
    let t3 = bz * bz;
    let p1 = ax * by;
    let q1 = ay * bx;
    let p2 = ax * bz;
    let q2 = az * bx;
    let p3 = ay * bz;
    let q3 = az * by;
    lemma_two_products(p1, q1);
    lemma_two_products(p2, q2);
    lemma_two_products(p3, q3);
    assert(c1 * c2 == p1 * q1) by (nonlinear_arith)
        requires
            c1 == ax * bx,
            c2 == ay * by,
            p1 == ax * by,
            q1 == ay * bx;
    assert(c1 * c3 == p2 * q2) by (nonlinear_arith)
        requires
            c1 == ax * bx,
            c3 == az * bz,
            p2 == ax * bz,
            q2 == az * bx;
    assert(c2 * c3 == p3 * q3) by (nonlinear_arith)
        requires
            c2 == ay * by,
            c3 == az * bz,
            p3 == ay * bz,
            q3 == az * by;
    assert(s1 * t1 == c1 * c1) by (nonlinear_arith)
        requires
            s1 == ax * ax,
            t1 == bx * bx,
            c1 == ax * bx;
    assert(s2 * t2 == c2 * c2) by (nonlinear_arith)
        requires
            s2 == ay * ay,
            t2 == by * by,
            c2 == ay * by;
    assert(s3 * t3 == c3 * c3) by (nonlinear_arith)
        requires
            s3 == az * az,
            t3 == bz * bz,
            c3 == az * bz;
    assert(s1 * t2 == p1 * p1) by (nonlinear_arith)
        requires
            s1 == ax * ax,
            t2 == by * by,
            p1 == ax * by;
    assert(s2 * t1 == q1 * q1) by (nonlinear_arith)
        requires
            s2 == ay * ay,
            t1 == bx * bx,
            q1 == ay * bx;
    assert(s1 * t3 == p2 * p2) by (nonlinear_arith)
        requires
            s1 == ax * ax,
            t3 == bz * bz,
            p2 == ax * bz;
    assert(s3 * t1 == q2 * q2) by (nonlinear_arith)
        requires
            s3 == az * az,
            t1 == bx * bx,
            q2 == az * bx;
    assert(s2 * t3 == p3 * p3) by (nonlinear_arith)
        requires
            s2 == ay * ay,
            t3 == bz * bz,
            p3 == ay * bz;
    assert(s3 * t2 == q3 * q3) by (nonlinear_arith)
        requires
            s3 == az * az,
            t2 == by * by,
            q3 == az * by;
    assert(d * d == c1 * c1 + c2 * c2 + c3 * c3 + 2 * (c1 * c2) + 2 * (c1 * c3) + 2 * (c2 * c3))
        by (nonlinear_arith)
        requires
            d == c1 + c2 + c3;
    assert(na * nb == s1 * t1 + s1 * t2 + s1 * t3 + s2 * t1 + s2 * t2 + s2 * t3 + s3 * t1 + s3
        * t2 + s3 * t3) by (nonlinear_arith)
        requires
            na == s1 + s2 + s3,
            nb == t1 + t2 + t3;
}

/// The triangle inequality for integer square roots of triple norms:
/// the root of the summed triple's squared norm exceeds the two parts'
/// roots by at most one.
pub proof fn lemma_isqrt_triangle(ax: int, ay: int, az: int, bx: int, by: int, bz: int)
    ensures
        isqrt_spec(
            (ax + bx) * (ax + bx) + (ay + by) * (ay + by) + (az + bz) * (az + bz),
        ) <= isqrt_spec(ax * ax + ay * ay + az * az) + isqrt_spec(
            bx * bx + by * by + bz * bz,
        ) + 1,
{
    let d = ax * bx + ay * by + az * bz;
    let na = ax * ax + ay * ay + az * az;
    let nb = bx * bx + by * by + bz * bz;
    let nab = (ax + bx) * (ax + bx) + (ay + by) * (ay + by) + (az + bz) * (az + bz);
    lemma_cauchy_schwarz(ax, ay, az, bx, by, bz);
    assert(nab == na + nb + 2 * d) by (nonlinear_arith)
        requires
            d == ax * bx + ay * by + az * bz,
            na == ax * ax + ay * ay + az * az,
            nb == bx * bx + by * by + bz * bz,
            nab == (ax + bx) * (ax + bx) + (ay + by) * (ay + by) + (az + bz) * (az + bz);
    assert(na >= 0 && nb >= 0 && nab >= 0) by (nonlinear_arith)
        requires
            na == ax * ax + ay * ay + az * az,
            nb == bx * bx + by * by + bz * bz,
            nab == (ax + bx) * (ax + bx) + (ay + by) * (ay + by) + (az + bz) * (az + bz);
    lemma_isqrt_exists(na);
    lemma_isqrt_exists(nb);
    lemma_isqrt_exists(nab);
    let a = isqrt_spec(na);
    let b = isqrt_spec(nb);
    let c = isqrt_spec(nab);
    assert(na * nb < ((a + 1) * (b + 1)) * ((a + 1) * (b + 1))) by (nonlinear_arith)
        requires
            0 <= na < (a + 1) * (a + 1),
            0 <= nb < (b + 1) * (b + 1);
    assert((a + 1) * (b + 1) >= 1) by (nonlinear_arith)
        requires
            a >= 0,
            b >= 0;
    assert(d <= (a + 1) * (b + 1) - 1) by (nonlinear_arith)
        requires
            d * d <= na * nb,
            na * nb < ((a + 1) * (b + 1)) * ((a + 1) * (b + 1)),
            (a + 1) * (b + 1) >= 1;
    assert(c <= a + b + 1) by (nonlinear_arith)
        requires
            is_isqrt(nab, c),
            nab == na + nb + 2 * d,
            na < (a + 1) * (a + 1),
            nb < (b + 1) * (b + 1),
            d <= (a + 1) * (b + 1) - 1,
            a >= 0,
            b >= 0;
}

/// On nonnegative input the fixed-point square root is the integer
/// root of the rescaled bits, the zero case included.
pub proof fn lemma_fx_sqrt_nonneg(a: int)
    requires
        a >= 0,
    ensures
        fx_sqrt_spec(a) == isqrt_spec(a * (FX_SCALE as int)),
{
    if a == 0 {
        assert(is_isqrt(0, 0)) by (nonlinear_arith);
        lemma_isqrt_unique(0, 0);
    }
}

/// Saturation changes nowhere faster than its argument.
pub proof fn lemma_sat64_lipschitz(x: int, y: int)
    ensures
        sat64(x) - sat64(y) <= if x - y >= 0 {
            x - y
        } else {
            y - x
        },
        sat64(y) - sat64(x) <= if x - y >= 0 {
            x - y
        } else {
            y - x
        },
{
}

fn isqrt_u128(x: u128) -> (r: u128)
    requires
        x < 0x40000000000000000000000000000000,
    ensures
        is_isqrt(x as int, r as int),
{
    let mut lo: u128 = 0;
    let mut hi: u128 = 0x8000000000000000;
    proof {
        assert((0x8000000000000000 as int) * (0x8000000000000000 as int)
            == 0x40000000000000000000000000000000) by (nonlinear_arith);
    }
    while lo + 1 < hi
        invariant
            lo < hi,
            hi <= 0x8000000000000000,
            (lo as int) * (lo as int) <= x as int,
            (x as int) < (hi as int) * (hi as int),
        decreases hi - lo,
    {
        let mid: u128 = lo + (hi - lo) / 2;
        proof {
            assert(lo < mid < hi);
            assert((mid as int) * (mid as int) < 0x40000000000000000000000000000000)
                by (nonlinear_arith)
                requires
                    (mid as int) < 0x8000000000000000;
        }
        let sq: u128 = mid * mid;
        if sq <= x {
            lo = mid;
        } else {
            hi = mid;
        }
    }
    lo
}

/// The bits of `ln(2)`, rounded down to the fixed-point grid.
pub const FX_LN2: i64 = 726817;

/// The exponent of the highest binary digit of `a`, for `a >= 1`.
pub open spec fn floor_log2(a: int) -> int
    recommends
        a >= 1,
    decreases a,
{
    if a < 2 {
        0
    } else {
        1 + floor_log2(a / 2)
    }
}

/// One binary-digit step of the logarithm: square the mantissa (held at
/// scale 2^32), emit a one and renormalize when it reaches two.  The
/// result is the next `n` binary digits of `log2(m / 2^32)`.
pub open spec fn log2_frac_spec(m: int, n: nat) -> int
    decreases n,
{
    if n == 0 {
        0
    } else {
        let m2 = (m * m) / 0x100000000;
        if m2 >= 0x200000000 {
            pow2((n - 1) as nat) + log2_frac_spec(m2 / 2, (n - 1) as nat)
        } else {
            log2_frac_spec(m2, (n - 1) as nat)
        }
    }
}

/// Fixed-point base-two logarithm, 20 fractional digits: the integer
/// part from the highest binary digit of `a`, the fraction from the
/// squaring recurrence above.  Nonpositive inputs saturate to the
/// lowest representable number, standing in for minus infinity.
pub open spec fn fx_log2_spec(a: int) -> int {
    if a <= 0 {
        i64::MIN as int
    } else {
        (floor_log2(a) - 20) * (FX_SCALE as int) + log2_frac_spec(
            (a * 0x100000000) / pow2(floor_log2(a) as nat) as int,
            20,
        )
    }
}

/// Fixed-point natural logarithm: `log2(a)` times `ln(2)`.
pub open spec fn fx_ln_spec(a: int) -> int {
    fx_mul_spec(fx_log2_spec(a), FX_LN2 as int)
}

/// A fixed-point number: `bits` counts 2^-20 units.
#[derive(Clone, Copy, PartialEq, Eq, Structural, Debug)]
pub struct Fx {
    pub bits: i64,
}

/// The fixed-point number with the given bits, for specifications that
/// rebuild values from the integer results of the `_spec` functions.
pub open spec fn fx_of(v: int) -> Fx {
    Fx { bits: v as i64 }
}

impl View for Fx {
    type V = int;

    open spec fn view(&self) -> int {
        self.bits as int
    }
}

proof fn lemma_mul_i64_range(a: int, b: int)
    by (nonlinear_arith)
    requires
        i64::MIN as int <= a <= i64::MAX as int,
        i64::MIN as int <= b <= i64::MAX as int,
    ensures
        -0x40000000000000000000000000000000 <= a * b
            <= 0x40000000000000000000000000000000,
{
}

fn clamp64(x: i128) -> (r: i64)
    ensures
        r as int == sat64(x as int),
{
    if x > i64::MAX as i128 {
        i64::MAX
    } else if x < i64::MIN as i128 {
        i64::MIN
    } else {
        x as i64
    }
}

fn tdiv128(n: i128, d: i128) -> (q: i128)
    requires
        d >= 1,
        n > i128::MIN,
    ensures
        q == tdiv(n as int, d as int),
{
    if n >= 0 {
        let nn: u128 = n as u128;
        let dd: u128 = d as u128;
        let qq: u128 = nn / dd;
        proof {
            lemma_div_pos_is_pos(nn as int, dd as int);
            lemma_div_nonincreasing(nn as int, dd as int);
        }
        qq as i128
    } else {
        let nn: u128 = (-n) as u128;
        let dd: u128 = d as u128;
        let qq: u128 = nn / dd;
        proof {
            lemma_div_pos_is_pos(nn as int, dd as int);
            lemma_div_nonincreasing(nn as int, dd as int);
        }
        -(qq as i128)
    }
}

impl Fx {
    pub fn from_bits(bits: i64) -> (r: Fx)
        ensures
            r@ == bits as int,
    {
        Fx { bits }
    }

    pub fn from_int(i: i64) -> (r: Fx)
        ensures
            r@ == sat64(i * (FX_SCALE as int)),
    {
        proof {
            lemma_mul_i64_range(i as int, FX_SCALE as int);
        }
        let p: i128 = (i as i128) * (FX_SCALE as i128);
        Fx { bits: clamp64(p) }
    }

    /// The value `n / d`, to the nearest representable number toward zero.
    pub fn from_ratio(n: i64, d: i64) -> (r: Fx)
        ensures
            r@ == fx_div_spec(sat64(n * (FX_SCALE as int)), sat64(d * (FX_SCALE as int))),
    {
        Fx::from_int(n).div(Fx::from_int(d))
    }

    pub fn zero() -> (r: Fx)
        ensures
            r@ == 0,
    {
        Fx { bits: 0 }
    }

    pub fn one() -> (r: Fx)
        ensures
            r@ == FX_SCALE as int,
    {
        Fx { bits: FX_SCALE }
    }

    pub fn add(self, rhs: Fx) -> (r: Fx)
        ensures
            r@ == fx_add_spec(self@, rhs@),
    {
        let s: i128 = self.bits as i128 + rhs.bits as i128;
        Fx { bits: clamp64(s) }
    }

    pub fn sub(self, rhs: Fx) -> (r: Fx)
        ensures
            r@ == fx_sub_spec(self@, rhs@),
    {
        let s: i128 = self.bits as i128 - rhs.bits as i128;
        Fx { bits: clamp64(s) }
    }

    pub fn neg(self) -> (r: Fx)
        ensures
            r@ == fx_neg_spec(self@),
    {
        let s: i128 = -(self.bits as i128);
        Fx { bits: clamp64(s) }
    }

    pub fn abs(self) -> (r: Fx)
        ensures
            r@ == fx_abs_spec(self@),
    {
        if self.bits >= 0 {
            self
        } else {
            self.neg()
        }
    }

    pub fn min(self, rhs: Fx) -> (r: Fx)
        ensures
            r@ == fx_min_spec(self@, rhs@),
    {
        if self.bits <= rhs.bits {
            self
        } else {
            rhs
        }
    }

    pub fn max(self, rhs: Fx) -> (r: Fx)
        ensures
            r@ == fx_max_spec(self@, rhs@),
    {
        if self.bits >= rhs.bits {
            self
        } else {
            rhs
        }
    }

    pub fn clamp(self, lo: Fx, hi: Fx) -> (r: Fx)
        ensures
            r@ == fx_clamp_spec(self@, lo@, hi@),
    {
        if self.bits < lo.bits {
            lo
        } else if self.bits > hi.bits {
            hi
        } else {
            self
        }
    }

    pub fn le(self, rhs: Fx) -> (b: bool)
        ensures
            b == (self@ <= rhs@),
    {
        self.bits <= rhs.bits
    }

    pub fn lt(self, rhs: Fx) -> (b: bool)
        ensures
            b == (self@ < rhs@),
    {
        self.bits < rhs.bits
    }

    pub fn mul(self, rhs: Fx) -> (r: Fx)
        ensures
            r@ == fx_mul_spec(self@, rhs@),
    {
        proof {
            lemma_mul_i64_range(self@, rhs@);
        }
        let p: i128 = (self.bits as i128) * (rhs.bits as i128);
        let q: i128 = tdiv128(p, FX_SCALE as i128);
        Fx { bits: clamp64(q) }
    }

    /// Square root truncated to the fixed-point grid; nonpositive
    /// inputs give zero.
    pub fn sqrt(self) -> (r: Fx)
        ensures
            r@ == fx_sqrt_spec(self@),
    {
        if self.bits <= 0 {
            Fx { bits: 0 }
        } else {
            let x: u128 = (self.bits as u128) * (FX_SCALE as u128);
            proof {
                lemma_mul_i64_range(self@, FX_SCALE as int);
            }
            let s: u128 = isqrt_u128(x);
            proof {
                lemma_isqrt_unique(x as int, s as int);
                assert(s as int <= i64::MAX as int) by (nonlinear_arith)
                    requires
                        is_isqrt(x as int, s as int),
                        (x as int) < 0x100000000000000000000000;
            }
            Fx { bits: s as i64 }
        }
    }

    pub fn div(self, rhs: Fx) -> (r: Fx)
        ensures
            r@ == fx_div_spec(self@, rhs@),
    {
        if rhs.bits == 0 {
            if self.bits > 0 {
                Fx { bits: i64::MAX }
            } else if self.bits < 0 {
                Fx { bits: i64::MIN }
            } else {
                Fx { bits: 0 }
            }
        } else {
            proof {
                lemma_mul_i64_range(self@, FX_SCALE as int);
            }
            let n: i128 = (self.bits as i128) * (FX_SCALE as i128);
            let d: i128 = if rhs.bits >= 0 {
                rhs.bits as i128
            } else {
                -(rhs.bits as i128)
            };
            let q: i128 = tdiv128(if rhs.bits >= 0 { n } else { -n }, d);
            Fx { bits: clamp64(q) }
        }
    }

    /// Base-two logarithm with 20 binary digits of fraction; nonpositive
    /// inputs saturate to the lowest representable number.
    pub fn log2(self) -> (r: Fx)
        ensures
            r@ == fx_log2_spec(self@),
    {
        if self.bits <= 0 {
            return Fx { bits: i64::MIN };
        }
        let a: u64 = self.bits as u64;
        let mut e: u32 = 0;
        let mut p: u64 = 1;
        let mut m: u64 = a;
        proof {
            lemma2_to64();
        }
        while m >= 2
            invariant
                1 <= m <= a,
                a < 0x8000000000000000,
                p >= 1,
                e <= 63,
                p == pow2(e as nat),
                (p as int) * (m as int) <= a as int,
                (a as int) < (p as int) * (m as int + 1),
                floor_log2(a as int) == e + floor_log2(m as int),
            decreases m,
        {
            proof {
                lemma2_to64();
                assert(floor_log2(m as int) == 1 + floor_log2((m as int) / 2));
                assert(2 * (p as int) <= (p as int) * (m as int)) by (nonlinear_arith)
                    requires
                        m >= 2,
                        p >= 1;
                assert((2 * (p as int)) * ((m as int) / 2) <= (p as int) * (m as int))
                    by (nonlinear_arith)
                    requires
                        2 * ((m as int) / 2) <= m as int,
                        p >= 1;
                assert((a as int) < (2 * (p as int)) * ((m as int) / 2 + 1))
                    by (nonlinear_arith)
                    requires
                        (a as int) < (p as int) * (m as int + 1),
                        (m as int) - 1 <= 2 * ((m as int) / 2),
                        p >= 1;
                assert(pow2((e + 1) as nat) == 2 * pow2(e as nat)) by {
                    vstd::arithmetic::power2::lemma_pow2_unfold((e + 1) as nat);
                }
                if e >= 63 {
                    assert(p as int >= 0x8000000000000000);
                    assert(false);
                }
            }
            m = m / 2;
            p = p * 2;
            e = e + 1;
        }
        // m == 1, so p == 2^e is the highest binary digit of a:
        // p <= a < 2 * p.
        proof {
            assert(m == 1);
            assert((p as int) * 1 <= a as int && (a as int) < (p as int) * 2)
                by (nonlinear_arith)
                requires
                    (p as int) * (m as int) <= a as int,
                    (a as int) < (p as int) * (m as int + 1),
                    m == 1;
        }
        let norm: u128 = ((a as u128) * 0x100000000) / (p as u128);
        proof {
            lemma_div_multiples_vanish(0x100000000, p as int);
            lemma_div_is_ordered(
                (p as int) * 0x100000000,
                (a as int) * 0x100000000,
                p as int,
            );
            assert((a as int) * 0x100000000 >= (p as int) * 0x100000000) by (nonlinear_arith)
                requires
                    a as int >= p as int;
            assert((a as int) * 0x100000000 < (p as int) * 0x200000000) by (nonlinear_arith)
                requires
                    (a as int) < 2 * (p as int);
            lemma_multiply_divide_lt((a as int) * 0x100000000, p as int, 0x200000000);
        }
        let frac: u64 = log2_fraction(norm);
        proof {
            if e > 62 {
                lemma_pow2_strictly_increases(62, e as nat);
            }
        }
        Fx { bits: ((e as i64) - 20) * FX_SCALE + (frac as i64) }
    }

    /// Natural logarithm: `log2` scaled by `ln(2)`.
    pub fn ln(self) -> (r: Fx)
        ensures
            r@ == fx_ln_spec(self@),
    {
        self.log2().mul(Fx { bits: FX_LN2 })
    }
}

/// The first 20 binary fraction digits of `log2(norm / 2^32)`, for a
/// mantissa `norm` in `[2^32, 2^33)`.
fn log2_fraction(norm: u128) -> (frac: u64)
    requires
        0x100000000 <= norm < 0x200000000,
    ensures
        frac as int == log2_frac_spec(norm as int, 20),
        frac < 0x100000,
{
    let mut mm: u128 = norm;
    let mut frac: u64 = 0;
    let mut j: u32 = 0;
    proof {
        lemma2_to64();
    }
    while j < 20
        invariant
            j <= 20,
            mm < 0x200000000,
            frac < pow2(j as nat),
            pow2(j as nat) <= 0x100000,
            (frac as int) * pow2((20 - j) as nat) + log2_frac_spec(mm as int, (20 - j) as nat)
                == log2_frac_spec(norm as int, 20),
        decreases 20 - j,
    {
        proof {
            lemma2_to64();
            if j + 1 < 20 {
                lemma_pow2_strictly_increases((j + 1) as nat, 20);
            }
            assert((mm as int) * (mm as int) < 0x40000000000000000) by (nonlinear_arith)
                requires
                    (mm as int) < 0x200000000;
            lemma_div_pos_is_pos((mm as int) * (mm as int), 0x100000000);
            lemma_multiply_divide_lt((mm as int) * (mm as int), 0x100000000, 0x400000000);
            assert(pow2(((20 - j) as nat)) == 2 * pow2((20 - j - 1) as nat)) by {
                vstd::arithmetic::power2::lemma_pow2_unfold((20 - j) as nat);
            }
            assert(pow2(((j + 1) as nat)) == 2 * pow2(j as nat)) by {
                vstd::arithmetic::power2::lemma_pow2_unfold((j + 1) as nat);
            }
        }
        let m2: u128 = (mm * mm) / 0x100000000;
        let ghost k: nat = (20 - j) as nat;
        let ghost frac0: int = frac as int;
        let ghost mm0: int = mm as int;
        if m2 >= 0x200000000 {
            mm = m2 / 2;
            frac = frac * 2 + 1;
            proof {
                assert(log2_frac_spec(mm0, k) == pow2((k - 1) as nat) + log2_frac_spec(
                    mm as int,
                    (k - 1) as nat,
                ));
                assert((frac as int) * pow2((k - 1) as nat) == frac0 * pow2(k) + pow2(
                    (k - 1) as nat,
                )) by (nonlinear_arith)
                    requires
                        frac as int == 2 * frac0 + 1,
                        pow2(k) == 2 * pow2((k - 1) as nat);
            }
        } else {
            mm = m2;
            frac = frac * 2;
            proof {
                assert(log2_frac_spec(mm0, k) == log2_frac_spec(mm as int, (k - 1) as nat));
                assert((frac as int) * pow2((k - 1) as nat) == frac0 * pow2(k))
                    by (nonlinear_arith)
                    requires
                        frac as int == 2 * frac0,
                        pow2(k) == 2 * pow2((k - 1) as nat);
            }
        }
        j = j + 1;
    }
    proof {
        lemma2_to64();
        assert((frac as int) * pow2(0) + log2_frac_spec(mm as int, 0)
            == log2_frac_spec(norm as int, 20));
    }
    frac
}

} // verus!
