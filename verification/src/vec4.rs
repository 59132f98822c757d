//! Four-component vectors over the fixed-point scalars.  Besides the
//! componentwise algebra they carry the quaternion squaring and cubing
//! maps that drive the escape-time fractal, and the quantization of a
//! color to 8-bit pixel channels.

use crate::fx::{
    fx_abs_spec, fx_add_spec, fx_clamp_spec, fx_div_spec, fx_max_spec, fx_min_spec, fx_mul_spec,
    fx_neg_spec, fx_of, fx_sqrt_spec, fx_sub_spec, Fx, FX_SCALE,
};
use crate::vec3::Vec3;
use vstd::arithmetic::div_mod::{lemma_div_pos_is_pos, lemma_multiply_divide_lt};
use vstd::prelude::*;

verus! {

#[derive(Clone, Copy, PartialEq, Eq, Structural, Debug)]
pub struct Vec4 {
    pub x: Fx,
    pub y: Fx,
    pub z: Fx,
    pub w: Fx,
}

/// An 8-bit channel from a color component: 255.999 per unit,
/// truncated — computed exactly on the grid as `c * 255999 / 1000`
/// bits per step — with values outside the unit interval clipped to
/// the ends, so 0 maps to 0 and 1 maps to 255.
pub open spec fn px_spec(c: int) -> int {
    if c < 0 {
        0
    } else if c >= FX_SCALE as int {
        255
    } else {
        (c * 255999) / 1048576000
    }
}

impl Vec4 {
    pub open spec fn zero_spec() -> Vec4 {
        Vec4 {
            x: (Fx { bits: 0 }),
            y: (Fx { bits: 0 }),
            z: (Fx { bits: 0 }),
            w: (Fx { bits: 0 }),
        }
    }

    pub open spec fn one_spec() -> Vec4 {
        Vec4 {
            x: (Fx { bits: FX_SCALE }),
            y: (Fx { bits: FX_SCALE }),
            z: (Fx { bits: FX_SCALE }),
            w: (Fx { bits: FX_SCALE }),
        }
    }

    pub open spec fn add_spec(self, rhs: Vec4) -> Vec4 {
        Vec4 {
            x: fx_of(fx_add_spec(self.x@, rhs.x@)),
            y: fx_of(fx_add_spec(self.y@, rhs.y@)),
            z: fx_of(fx_add_spec(self.z@, rhs.z@)),
            w: fx_of(fx_add_spec(self.w@, rhs.w@)),
        }
    }

    pub open spec fn sub_spec(self, rhs: Vec4) -> Vec4 {
        Vec4 {
            x: fx_of(fx_sub_spec(self.x@, rhs.x@)),
            y: fx_of(fx_sub_spec(self.y@, rhs.y@)),
            z: fx_of(fx_sub_spec(self.z@, rhs.z@)),
            w: fx_of(fx_sub_spec(self.w@, rhs.w@)),
        }
    }

    pub open spec fn mul_spec(self, rhs: Vec4) -> Vec4 {
        Vec4 {
            x: fx_of(fx_mul_spec(self.x@, rhs.x@)),
            y: fx_of(fx_mul_spec(self.y@, rhs.y@)),
            z: fx_of(fx_mul_spec(self.z@, rhs.z@)),
            w: fx_of(fx_mul_spec(self.w@, rhs.w@)),
        }
    }

    pub open spec fn scale_spec(self, s: int) -> Vec4 {
        Vec4 {
            x: fx_of(fx_mul_spec(self.x@, s)),
            y: fx_of(fx_mul_spec(self.y@, s)),
            z: fx_of(fx_mul_spec(self.z@, s)),
            w: fx_of(fx_mul_spec(self.w@, s)),
        }
    }

    pub open spec fn neg_spec(self) -> Vec4 {
        Vec4 {
            x: fx_of(fx_neg_spec(self.x@)),
            y: fx_of(fx_neg_spec(self.y@)),
            z: fx_of(fx_neg_spec(self.z@)),
            w: fx_of(fx_neg_spec(self.w@)),
        }
    }

    pub open spec fn abs_spec(self) -> Vec4 {
        Vec4 {
            x: fx_of(fx_abs_spec(self.x@)),
            y: fx_of(fx_abs_spec(self.y@)),
            z: fx_of(fx_abs_spec(self.z@)),
            w: fx_of(fx_abs_spec(self.w@)),
        }
    }

    pub open spec fn dot_spec(a: Vec4, b: Vec4) -> int {
        fx_add_spec(
            fx_add_spec(
                fx_add_spec(fx_mul_spec(a.x@, b.x@), fx_mul_spec(a.y@, b.y@)),
                fx_mul_spec(a.z@, b.z@),
            ),
            fx_mul_spec(a.w@, b.w@),
        )
    }

    pub open spec fn sqr_length_spec(self) -> int {
        Vec4::dot_spec(self, self)
    }

    pub open spec fn length_spec(self) -> int {
        fx_sqrt_spec(self.sqr_length_spec())
    }

    pub open spec fn normalize_spec(self) -> Vec4 {
        let l = self.length_spec();
        Vec4 {
            x: fx_of(fx_div_spec(self.x@, l)),
            y: fx_of(fx_div_spec(self.y@, l)),
            z: fx_of(fx_div_spec(self.z@, l)),
            w: fx_of(fx_div_spec(self.w@, l)),
        }
    }

    pub open spec fn min_spec(a: Vec4, b: int) -> Vec4 {
        Vec4 {
            x: fx_of(fx_min_spec(a.x@, b)),
            y: fx_of(fx_min_spec(a.y@, b)),
            z: fx_of(fx_min_spec(a.z@, b)),
            w: fx_of(fx_min_spec(a.w@, b)),
        }
    }

    pub open spec fn max_spec(a: Vec4, b: int) -> Vec4 {
        Vec4 {
            x: fx_of(fx_max_spec(a.x@, b)),
            y: fx_of(fx_max_spec(a.y@, b)),
            z: fx_of(fx_max_spec(a.z@, b)),
            w: fx_of(fx_max_spec(a.w@, b)),
        }
    }

    pub open spec fn max_element_spec(self) -> int {
        fx_max_spec(fx_max_spec(fx_max_spec(self.x@, self.y@), self.z@), self.w@)
    }

    pub open spec fn min_element_spec(self) -> int {
        fx_min_spec(fx_min_spec(fx_min_spec(self.x@, self.y@), self.z@), self.w@)
    }

    pub open spec fn clamp_spec(self, lo: int, hi: int) -> Vec4 {
        Vec4 {
            x: fx_of(fx_clamp_spec(self.x@, lo, hi)),
            y: fx_of(fx_clamp_spec(self.y@, lo, hi)),
            z: fx_of(fx_clamp_spec(self.z@, lo, hi)),
            w: fx_of(fx_clamp_spec(self.w@, lo, hi)),
        }
    }

    /// Quaternion square: `(x, y, z, w)` as the quaternion `x + yi + zj + wk`.
    pub open spec fn q_square_spec(self) -> Vec4 {
        Vec4 {
            x: fx_of(
                fx_sub_spec(
                    fx_sub_spec(
                        fx_sub_spec(fx_mul_spec(self.x@, self.x@), fx_mul_spec(self.y@, self.y@)),
                        fx_mul_spec(self.z@, self.z@),
                    ),
                    fx_mul_spec(self.w@, self.w@),
                ),
            ),
            y: fx_of(fx_mul_spec(fx_mul_spec(self.x@, self.y@), 2 * FX_SCALE as int)),
            z: fx_of(fx_mul_spec(fx_mul_spec(self.x@, self.z@), 2 * FX_SCALE as int)),
            w: fx_of(fx_mul_spec(fx_mul_spec(self.x@, self.w@), 2 * FX_SCALE as int)),
        }
    }

    /// Quaternion cube, expanded algebraically from the componentwise
    /// squares so the result stays a quaternion.
    pub open spec fn q_cube_spec(self) -> Vec4 {
        let s = self.mul_spec(self);
        let three = 3 * FX_SCALE as int;
        let f1 = fx_sub_spec(
            fx_sub_spec(
                fx_sub_spec(s.x@, fx_mul_spec(s.y@, three)),
                fx_mul_spec(s.z@, three),
            ),
            fx_mul_spec(s.w@, three),
        );
        let f2 = fx_sub_spec(
            fx_sub_spec(fx_sub_spec(fx_mul_spec(s.x@, three), s.y@), s.z@),
            s.w@,
        );
        Vec4 {
            x: fx_of(fx_mul_spec(self.x@, f1)),
            y: fx_of(fx_mul_spec(self.y@, f2)),
            z: fx_of(fx_mul_spec(self.z@, f2)),
            w: fx_of(fx_mul_spec(self.w@, f2)),
        }
    }

    pub open spec fn to_pixel_data_spec(self) -> (int, int, int) {
        (px_spec(self.x@), px_spec(self.y@), px_spec(self.z@))
    }

    pub fn new(x: Fx, y: Fx, z: Fx, w: Fx) -> (r: Vec4)
        ensures
            r == (Vec4 { x, y, z, w }),
    {
        Vec4 { x, y, z, w }
    }

    pub fn from_vec3(v: &Vec3, w: Fx) -> (r: Vec4)
        ensures
            r == (Vec4 { x: v.x, y: v.y, z: v.z, w }),
    {
        Vec4 { x: v.x, y: v.y, z: v.z, w }
    }

    pub fn one() -> (r: Vec4)
        ensures
            r == Vec4::one_spec(),
    {
        Vec4 { x: Fx::one(), y: Fx::one(), z: Fx::one(), w: Fx::one() }
    }

    pub fn zero() -> (r: Vec4)
        ensures
            r == Vec4::zero_spec(),
    {
        Vec4 { x: Fx::zero(), y: Fx::zero(), z: Fx::zero(), w: Fx::zero() }
    }

    pub fn add(&self, rhs: &Vec4) -> (r: Vec4)
        ensures
            r == self.add_spec(*rhs),
    {
        Vec4 {
            x: self.x.add(rhs.x),
            y: self.y.add(rhs.y),
            z: self.z.add(rhs.z),
            w: self.w.add(rhs.w),
        }
    }

    pub fn sub(&self, rhs: &Vec4) -> (r: Vec4)
        ensures
            r == self.sub_spec(*rhs),
    {
        Vec4 {
            x: self.x.sub(rhs.x),
            y: self.y.sub(rhs.y),
            z: self.z.sub(rhs.z),
            w: self.w.sub(rhs.w),
        }
    }

    pub fn mul(&self, rhs: &Vec4) -> (r: Vec4)
        ensures
            r == self.mul_spec(*rhs),
    {
        Vec4 {
            x: self.x.mul(rhs.x),
            y: self.y.mul(rhs.y),
            z: self.z.mul(rhs.z),
            w: self.w.mul(rhs.w),
        }
    }

    pub fn scale(&self, s: Fx) -> (r: Vec4)
        ensures
            r == self.scale_spec(s@),
    {
        Vec4 { x: self.x.mul(s), y: self.y.mul(s), z: self.z.mul(s), w: self.w.mul(s) }
    }

    pub fn neg(&self) -> (r: Vec4)
        ensures
            r == self.neg_spec(),
    {
        Vec4 { x: self.x.neg(), y: self.y.neg(), z: self.z.neg(), w: self.w.neg() }
    }

    pub fn abs(&self) -> (r: Vec4)
        ensures
            r == self.abs_spec(),
    {
        Vec4 { x: self.x.abs(), y: self.y.abs(), z: self.z.abs(), w: self.w.abs() }
    }

    pub fn dot(a: &Vec4, b: &Vec4) -> (r: Fx)
        ensures
            r@ == Vec4::dot_spec(*a, *b),
    {
        a.x.mul(b.x).add(a.y.mul(b.y)).add(a.z.mul(b.z)).add(a.w.mul(b.w))
    }

    pub fn sqr_length(&self) -> (r: Fx)
        ensures
            r@ == self.sqr_length_spec(),
    {
        Vec4::dot(self, self)
    }

    pub fn length(&self) -> (r: Fx)
        ensures
            r@ == self.length_spec(),
    {
        self.sqr_length().sqrt()
    }

    pub fn normalize(&self) -> (r: Vec4)
        ensures
            r == self.normalize_spec(),
    {
        let l = self.length();
        Vec4 { x: self.x.div(l), y: self.y.div(l), z: self.z.div(l), w: self.w.div(l) }
    }

    pub fn min(a: &Vec4, b: Fx) -> (r: Vec4)
        ensures
            r == Vec4::min_spec(*a, b@),
    {
        Vec4 { x: a.x.min(b), y: a.y.min(b), z: a.z.min(b), w: a.w.min(b) }
    }

    pub fn max(a: &Vec4, b: Fx) -> (r: Vec4)
        ensures
            r == Vec4::max_spec(*a, b@),
    {
        Vec4 { x: a.x.max(b), y: a.y.max(b), z: a.z.max(b), w: a.w.max(b) }
    }

    pub fn max_element(&self) -> (r: Fx)
        ensures
            r@ == self.max_element_spec(),
    {
        self.x.max(self.y).max(self.z).max(self.w)
    }

    pub fn min_element(&self) -> (r: Fx)
        ensures
            r@ == self.min_element_spec(),
    {
        self.x.min(self.y).min(self.z).min(self.w)
    }

    pub fn clamp(&self, lo: Fx, hi: Fx) -> (r: Vec4)
        ensures
            r == self.clamp_spec(lo@, hi@),
    {
        Vec4 {
            x: self.x.clamp(lo, hi),
            y: self.y.clamp(lo, hi),
            z: self.z.clamp(lo, hi),
            w: self.w.clamp(lo, hi),
        }
    }

    pub fn q_square(&self) -> (r: Vec4)
        ensures
            r == self.q_square_spec(),
    {
        let two = Fx::from_int(2);
        Vec4 {
            x: self.x.mul(self.x).sub(self.y.mul(self.y)).sub(self.z.mul(self.z)).sub(
                self.w.mul(self.w),
            ),
            y: self.x.mul(self.y).mul(two),
            z: self.x.mul(self.z).mul(two),
            w: self.x.mul(self.w).mul(two),
        }
    }

    pub fn q_cube(&self) -> (r: Vec4)
        ensures
            r == self.q_cube_spec(),
    {
        let sqr_self = self.mul(self);
        let three = Fx::from_int(3);
        let new_x_factor = sqr_self.x.sub(sqr_self.y.mul(three)).sub(sqr_self.z.mul(three)).sub(
            sqr_self.w.mul(three),
        );
        let new_other_factor = sqr_self.x.mul(three).sub(sqr_self.y).sub(sqr_self.z).sub(
            sqr_self.w,
        );
        Vec4 {
            x: self.x.mul(new_x_factor),
            y: self.y.mul(new_other_factor),
            z: self.z.mul(new_other_factor),
            w: self.w.mul(new_other_factor),
        }
    }

    /// The first three components quantized to 8-bit pixel channels.
    pub fn to_pixel_data(self) -> (r: (u8, u8, u8))
        ensures
            (r.0 as int, r.1 as int, r.2 as int) == self.to_pixel_data_spec(),
    {
        (px_channel(self.x), px_channel(self.y), px_channel(self.z))
    }
}

fn px_channel(c: Fx) -> (r: u8)
    ensures
        r as int == px_spec(c@),
{
    if c.bits < 0 {
        0
    } else if c.bits >= FX_SCALE {
        255
    } else {
        proof {
            assert(c@ * 255999 < 1048576000 * 256) by (nonlinear_arith)
                requires
                    0 <= c@ < 1048576;
            lemma_div_pos_is_pos(c@ * 255999, 1048576000);
            lemma_multiply_divide_lt(c@ * 255999, 1048576000, 256);
        }
        (((c.bits as u64) * 255999) / 1048576000) as u8
    }
}

} // verus!
