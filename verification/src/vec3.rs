//! Three-component vectors over the fixed-point scalars, with the
//! componentwise arithmetic, dot and cross products, length and
//! normalization that the distance fields and the shading pipeline use.

use crate::fx::{
    fx_abs_spec, fx_add_spec, fx_clamp_spec, fx_div_spec, fx_max_spec, fx_min_spec, fx_mul_spec,
    fx_neg_spec, fx_of, fx_sqrt_spec, fx_sub_spec, is_isqrt, isqrt_spec, lemma_fx_sqrt_nonneg,
    lemma_isqrt_monotone, lemma_isqrt_subadditive, lemma_isqrt_triangle, lemma_isqrt_unique, Fx,
    FX_SCALE,
};
use vstd::arithmetic::div_mod::{
    lemma_div_pos_is_pos, lemma_fundamental_div_mod, lemma_mod_bound, lemma_multiply_divide_le,
};
use vstd::prelude::*;

verus! {

/// The total rounding slack of the grid triangle inequality: each of
/// the two lengths on the right loses at most `isqrt(3 * 2^20) + 1`
/// bits to the truncation of its three squared components, and the
/// integer-root triangle inequality itself one more.
pub const FX_LENGTH_SLACK: i64 = 3549;

#[derive(Clone, Copy, PartialEq, Eq, Structural, Debug)]
pub struct Vec3 {
    pub x: Fx,
    pub y: Fx,
    pub z: Fx,
}

impl Vec3 {
    pub open spec fn zero_spec() -> Vec3 {
        Vec3 { x: (Fx { bits: 0 }), y: (Fx { bits: 0 }), z: (Fx { bits: 0 }) }
    }

    pub open spec fn one_spec() -> Vec3 {
        Vec3 { x: (Fx { bits: FX_SCALE }), y: (Fx { bits: FX_SCALE }), z: (Fx { bits: FX_SCALE }) }
    }

    pub open spec fn add_spec(self, rhs: Vec3) -> Vec3 {
        Vec3 {
            x: fx_of(fx_add_spec(self.x@, rhs.x@)),
            y: fx_of(fx_add_spec(self.y@, rhs.y@)),
            z: fx_of(fx_add_spec(self.z@, rhs.z@)),
        }
    }

    pub open spec fn sub_spec(self, rhs: Vec3) -> Vec3 {
        Vec3 {
            x: fx_of(fx_sub_spec(self.x@, rhs.x@)),
            y: fx_of(fx_sub_spec(self.y@, rhs.y@)),
            z: fx_of(fx_sub_spec(self.z@, rhs.z@)),
        }
    }

    pub open spec fn mul_spec(self, rhs: Vec3) -> Vec3 {
        Vec3 {
            x: fx_of(fx_mul_spec(self.x@, rhs.x@)),
            y: fx_of(fx_mul_spec(self.y@, rhs.y@)),
            z: fx_of(fx_mul_spec(self.z@, rhs.z@)),
        }
    }

    pub open spec fn scale_spec(self, s: int) -> Vec3 {
        Vec3 {
            x: fx_of(fx_mul_spec(self.x@, s)),
            y: fx_of(fx_mul_spec(self.y@, s)),
            z: fx_of(fx_mul_spec(self.z@, s)),
        }
    }

    pub open spec fn neg_spec(self) -> Vec3 {
        Vec3 {
            x: fx_of(fx_neg_spec(self.x@)),
            y: fx_of(fx_neg_spec(self.y@)),
            z: fx_of(fx_neg_spec(self.z@)),
        }
    }

    pub open spec fn abs_spec(self) -> Vec3 {
        Vec3 {
            x: fx_of(fx_abs_spec(self.x@)),
            y: fx_of(fx_abs_spec(self.y@)),
            z: fx_of(fx_abs_spec(self.z@)),
        }
    }

    pub open spec fn dot_spec(a: Vec3, b: Vec3) -> int {
        fx_add_spec(
            fx_add_spec(fx_mul_spec(a.x@, b.x@), fx_mul_spec(a.y@, b.y@)),
            fx_mul_spec(a.z@, b.z@),
        )
    }

    pub open spec fn cross_spec(a: Vec3, b: Vec3) -> Vec3 {
        Vec3 {
            x: fx_of(fx_sub_spec(fx_mul_spec(a.y@, b.z@), fx_mul_spec(a.z@, b.y@))),
            y: fx_of(fx_sub_spec(fx_mul_spec(a.z@, b.x@), fx_mul_spec(a.x@, b.z@))),
            z: fx_of(fx_sub_spec(fx_mul_spec(a.x@, b.y@), fx_mul_spec(a.y@, b.x@))),
        }
    }

    pub open spec fn sqr_length_spec(self) -> int {
        Vec3::dot_spec(self, self)
    }

    pub open spec fn length_spec(self) -> int {
        fx_sqrt_spec(self.sqr_length_spec())
    }

    pub open spec fn normalize_spec(self) -> Vec3 {
        let l = self.length_spec();
        Vec3 {
            x: fx_of(fx_div_spec(self.x@, l)),
            y: fx_of(fx_div_spec(self.y@, l)),
            z: fx_of(fx_div_spec(self.z@, l)),
        }
    }

    pub open spec fn min_spec(a: Vec3, b: int) -> Vec3 {
        Vec3 {
            x: fx_of(fx_min_spec(a.x@, b)),
            y: fx_of(fx_min_spec(a.y@, b)),
            z: fx_of(fx_min_spec(a.z@, b)),
        }
    }

    pub open spec fn max_spec(a: Vec3, b: int) -> Vec3 {
        Vec3 {
            x: fx_of(fx_max_spec(a.x@, b)),
            y: fx_of(fx_max_spec(a.y@, b)),
            z: fx_of(fx_max_spec(a.z@, b)),
        }
    }

    pub open spec fn max_element_spec(self) -> int {
        fx_max_spec(fx_max_spec(self.x@, self.y@), self.z@)
    }

    pub open spec fn min_element_spec(self) -> int {
        fx_min_spec(fx_min_spec(self.x@, self.y@), self.z@)
    }

    pub open spec fn clamp_spec(self, lo: int, hi: int) -> Vec3 {
        Vec3 {
            x: fx_of(fx_clamp_spec(self.x@, lo, hi)),
            y: fx_of(fx_clamp_spec(self.y@, lo, hi)),
            z: fx_of(fx_clamp_spec(self.z@, lo, hi)),
        }
    }

    pub fn new(x: Fx, y: Fx, z: Fx) -> (r: Vec3)
        ensures
            r == (Vec3 { x, y, z }),
    {
        Vec3 { x, y, z }
    }

    pub fn one() -> (r: Vec3)
        ensures
            r == Vec3::one_spec(),
    {
        Vec3 { x: Fx::one(), y: Fx::one(), z: Fx::one() }
    }

    pub fn zero() -> (r: Vec3)
        ensures
            r == Vec3::zero_spec(),
    {
        Vec3 { x: Fx::zero(), y: Fx::zero(), z: Fx::zero() }
    }

    pub fn add(&self, rhs: &Vec3) -> (r: Vec3)
        ensures
            r == self.add_spec(*rhs),
    {
        Vec3 { x: self.x.add(rhs.x), y: self.y.add(rhs.y), z: self.z.add(rhs.z) }
    }

    pub fn sub(&self, rhs: &Vec3) -> (r: Vec3)
        ensures
            r == self.sub_spec(*rhs),
    {
        Vec3 { x: self.x.sub(rhs.x), y: self.y.sub(rhs.y), z: self.z.sub(rhs.z) }
    }

    pub fn mul(&self, rhs: &Vec3) -> (r: Vec3)
        ensures
            r == self.mul_spec(*rhs),
    {
        Vec3 { x: self.x.mul(rhs.x), y: self.y.mul(rhs.y), z: self.z.mul(rhs.z) }
    }

    pub fn scale(&self, s: Fx) -> (r: Vec3)
        ensures
            r == self.scale_spec(s@),
    {
        Vec3 { x: self.x.mul(s), y: self.y.mul(s), z: self.z.mul(s) }
    }

    pub fn neg(&self) -> (r: Vec3)
        ensures
            r == self.neg_spec(),
    {
        Vec3 { x: self.x.neg(), y: self.y.neg(), z: self.z.neg() }
    }

    pub fn abs(&self) -> (r: Vec3)
        ensures
            r == self.abs_spec(),
    {
        Vec3 { x: self.x.abs(), y: self.y.abs(), z: self.z.abs() }
    }

    pub fn dot(a: &Vec3, b: &Vec3) -> (r: Fx)
        ensures
            r@ == Vec3::dot_spec(*a, *b),
    {
        a.x.mul(b.x).add(a.y.mul(b.y)).add(a.z.mul(b.z))
    }

    pub fn cross(a: &Vec3, b: &Vec3) -> (r: Vec3)
        ensures
            r == Vec3::cross_spec(*a, *b),
    {
        Vec3 {
            x: a.y.mul(b.z).sub(a.z.mul(b.y)),
            y: a.z.mul(b.x).sub(a.x.mul(b.z)),
            z: a.x.mul(b.y).sub(a.y.mul(b.x)),
        }
    }

    pub fn sqr_length(&self) -> (r: Fx)
        ensures
            r@ == self.sqr_length_spec(),
    {
        Vec3::dot(self, self)
    }

    pub fn length(&self) -> (r: Fx)
        ensures
            r@ == self.length_spec(),
    {
        self.sqr_length().sqrt()
    }

    /// Scales the vector to unit length; degenerate vectors whose
    /// length rounds to zero come back unchanged in direction terms
    /// (componentwise saturating division by zero).
    pub fn normalize(&self) -> (r: Vec3)
        ensures
            r == self.normalize_spec(),
    {
        let l = self.length();
        Vec3 { x: self.x.div(l), y: self.y.div(l), z: self.z.div(l) }
    }

    pub fn min(a: &Vec3, b: Fx) -> (r: Vec3)
        ensures
            r == Vec3::min_spec(*a, b@),
    {
        Vec3 { x: a.x.min(b), y: a.y.min(b), z: a.z.min(b) }
    }

    pub fn max(a: &Vec3, b: Fx) -> (r: Vec3)
        ensures
            r == Vec3::max_spec(*a, b@),
    {
        Vec3 { x: a.x.max(b), y: a.y.max(b), z: a.z.max(b) }
    }

    pub fn max_element(&self) -> (r: Fx)
        ensures
            r@ == self.max_element_spec(),
    {
        self.x.max(self.y).max(self.z)
    }

    pub fn min_element(&self) -> (r: Fx)
        ensures
            r@ == self.min_element_spec(),
    {
        self.x.min(self.y).min(self.z)
    }

    pub fn clamp(&self, lo: Fx, hi: Fx) -> (r: Vec3)
        ensures
            r == self.clamp_spec(lo@, hi@),
    {
        Vec3 { x: self.x.clamp(lo, hi), y: self.y.clamp(lo, hi), z: self.z.clamp(lo, hi) }
    }
}

/// The fixed-point squared length reads the true squared norm of the
/// bits to within the three truncated remainders.
proof fn lemma_sqr_length_bracket(v: Vec3)
    requires
        -0x10000000000 <= v.x@ <= 0x10000000000,
        -0x10000000000 <= v.y@ <= 0x10000000000,
        -0x10000000000 <= v.z@ <= 0x10000000000,
    ensures
        0 <= v.sqr_length_spec(),
        v.sqr_length_spec() * (FX_SCALE as int) <= v.x@ * v.x@ + v.y@ * v.y@ + v.z@ * v.z@,
        v.x@ * v.x@ + v.y@ * v.y@ + v.z@ * v.z@ < v.sqr_length_spec() * (FX_SCALE as int) + 3
            * (FX_SCALE as int),
{
    let s = FX_SCALE as int;
    let x = v.x@;
    let y = v.y@;
    let z = v.z@;
    assert(0 <= x * x <= 0x100000000000000000000 && 0 <= y * y <= 0x100000000000000000000 && 0
        <= z * z <= 0x100000000000000000000) by (nonlinear_arith)
        requires
            -0x10000000000 <= x <= 0x10000000000,
            -0x10000000000 <= y <= 0x10000000000,
            -0x10000000000 <= z <= 0x10000000000;
    lemma_div_pos_is_pos(x * x, s);
    lemma_div_pos_is_pos(y * y, s);
    lemma_div_pos_is_pos(z * z, s);
    lemma_multiply_divide_le(x * x, s, 0x1000000000000000);
    lemma_multiply_divide_le(y * y, s, 0x1000000000000000);
    lemma_multiply_divide_le(z * z, s, 0x1000000000000000);
    lemma_fundamental_div_mod(x * x, s);
    lemma_fundamental_div_mod(y * y, s);
    lemma_fundamental_div_mod(z * z, s);
    lemma_mod_bound(x * x, s);
    lemma_mod_bound(y * y, s);
    lemma_mod_bound(z * z, s);
}

/// The grid triangle inequality: the fixed-point length of a
/// componentwise sum of two vectors exceeds the sum of their two
/// lengths by at most the fixed rounding slack.
pub proof fn lemma_length_triangle(u: Vec3, v: Vec3, w: Vec3)
    requires
        u.x@ == v.x@ + w.x@,
        u.y@ == v.y@ + w.y@,
        u.z@ == v.z@ + w.z@,
        -0x8000000000 <= v.x@ <= 0x8000000000,
        -0x8000000000 <= v.y@ <= 0x8000000000,
        -0x8000000000 <= v.z@ <= 0x8000000000,
        -0x8000000000 <= w.x@ <= 0x8000000000,
        -0x8000000000 <= w.y@ <= 0x8000000000,
        -0x8000000000 <= w.z@ <= 0x8000000000,
    ensures
        u.length_spec() <= v.length_spec() + w.length_spec() + FX_LENGTH_SLACK as int,
{
    let s = FX_SCALE as int;
    lemma_sqr_length_bracket(u);
    lemma_sqr_length_bracket(v);
    lemma_sqr_length_bracket(w);
    let squ = u.sqr_length_spec();
    let sqv = v.sqr_length_spec();
    let sqw = w.sqr_length_spec();
    let nu = u.x@ * u.x@ + u.y@ * u.y@ + u.z@ * u.z@;
    let nv = v.x@ * v.x@ + v.y@ * v.y@ + v.z@ * v.z@;
    let nw = w.x@ * w.x@ + w.y@ * w.y@ + w.z@ * w.z@;
    lemma_fx_sqrt_nonneg(squ);
    lemma_fx_sqrt_nonneg(sqv);
    lemma_fx_sqrt_nonneg(sqw);
    lemma_isqrt_monotone(s * squ, nu);
    lemma_isqrt_triangle(v.x@, v.y@, v.z@, w.x@, w.y@, w.z@);
    lemma_isqrt_monotone(nv, s * sqv + 3 * s);
    lemma_isqrt_subadditive(s * sqv, 3 * s);
    lemma_isqrt_monotone(nw, s * sqw + 3 * s);
    lemma_isqrt_subadditive(s * sqw, 3 * s);
    assert(is_isqrt(3 * s, 1773)) by (nonlinear_arith)
        requires
            s == 1048576;
    lemma_isqrt_unique(3 * s, 1773);
}

} // verus!
