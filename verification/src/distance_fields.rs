//! The distance-field model: primitive shapes, an escape-time fractal
//! estimator, and the CSG combinators that compose two fields into one.
//! A scene is a tree of these variants, built once and then read by
//! every ray; `sdf_spec` is the exact value every evaluation returns.

use crate::fx::{
    fx_add_spec, fx_div_spec, fx_ln_spec, fx_max_spec, fx_min_spec, fx_mul_spec, fx_neg_spec,
    fx_sqrt_spec, fx_sub_spec, lemma_sat64_lipschitz, Fx, FX_SCALE,
};
use crate::vec3::{lemma_length_triangle, Vec3, FX_LENGTH_SLACK};
use crate::vec4::Vec4;
use vstd::prelude::*;

verus! {

/// The quarter unit in the estimator's leading constant.
pub const FX_QUARTER: i64 = 262144;

/// The squared-magnitude escape threshold of the fractal iteration:
/// 256, written in 2^-20 bits.
pub const JULIA_ESCAPE: i64 = 0x10000000;

#[derive(Debug)]
pub enum DistanceField {
    Sphere(Sphere),
    Cuboid(Cuboid),
    Torus(Torus),
    Plane(Plane),
    Julia(Julia),
    Union(Box<Union>),
    Subtraction(Box<Subtraction>),
    Intersection(Box<Intersection>),
}

/// Anything that evaluates a signed distance: negative or zero inside,
/// positive outside, a conservative lower bound on the distance to the
/// nearest surface (the fractal estimator may overshoot; that is a
/// property of the escape-time technique, not of this implementation).
pub trait DistanceFunction {
    spec fn distance_spec(&self, p: Vec3) -> int;

    fn get_distance(&self, p: &Vec3) -> (d: Fx)
        ensures
            d@ == self.distance_spec(*p),
    ;
}

#[derive(Debug, Clone)]
pub struct Sphere {
    pub pos: Vec3,
    pub size: Fx,
}

#[derive(Debug, Clone)]
pub struct Cuboid {
    pub pos: Vec3,
    pub size: Vec3,
}

#[derive(Debug, Clone)]
pub struct Torus {
    pub pos: Vec3,
    pub outer_size: Fx,
    pub inner_size: Fx,
}

#[derive(Debug, Clone)]
pub struct Plane {
    pub normal: Vec3,
    pub h: Fx,
}

/// A quaternion Julia set, rendered through an escape-time distance
/// estimate, with an optional orbit trap painted as extra geometry and
/// an optional horizontal ground clip.
#[derive(Debug, Clone)]
pub struct Julia {
    pub pos: Vec3,
    pub iterations: u32,
    pub traps: bool,
    pub c: Vec4,
    pub cut: bool,
    pub cut_y: Fx,
    pub trap_x: Fx,
    pub trap_z: Fx,
    pub trap_r: Fx,
}

#[derive(Debug)]
pub struct Union {
    pub a: DistanceField,
    pub b: DistanceField,
}

#[derive(Debug)]
pub struct Subtraction {
    pub a: DistanceField,
    pub b: DistanceField,
}

#[derive(Debug)]
pub struct Intersection {
    pub a: DistanceField,
    pub b: DistanceField,
}

/// Distance from the orbit iterate's (x, z) to the trap circle.
pub open spec fn julia_trap_spec(j: Julia, z: Vec4) -> int {
    let dx = fx_sub_spec(z.x@, j.trap_x@);
    let dz = fx_sub_spec(z.z@, j.trap_z@);
    fx_sub_spec(fx_sqrt_spec(fx_add_spec(fx_mul_spec(dx, dx), fx_mul_spec(dz, dz))), j.trap_r@)
}

/// The fractal iteration: accumulate the derivative-magnitude bound
/// from the old iterate, cube it and add the constant, track the orbit
/// trap, and stop early once the squared magnitude escapes.  Returns
/// the final squared magnitude, derivative bound and trap distance.
pub open spec fn julia_loop_spec(j: Julia, z: Vec4, deriv: int, m2: int, trap: int, n: nat) -> (
    int,
    int,
    int,
)
    decreases n,
{
    if n == 0 {
        (m2, deriv, trap)
    } else {
        let deriv1 = fx_mul_spec(
            deriv,
            fx_mul_spec(9 * FX_SCALE as int, z.q_square_spec().sqr_length_spec()),
        );
        let z1 = z.q_cube_spec().add_spec(j.c);
        let m2_1 = z1.sqr_length_spec();
        let trap1 = if j.traps {
            fx_min_spec(trap, julia_trap_spec(j, z1))
        } else {
            trap
        };
        if m2_1 > JULIA_ESCAPE as int {
            (m2_1, deriv1, trap1)
        } else {
            julia_loop_spec(j, z1, deriv1, m2_1, trap1, (n - 1) as nat)
        }
    }
}

/// The escape-time distance estimate `0.25 * ln(m2) * sqrt(m2 / deriv)`,
/// the trap distance folded in when traps are on, and the ground clip
/// applied last.
pub open spec fn julia_distance_spec(j: Julia, p: Vec3) -> int {
    let p2 = p.sub_spec(j.pos);
    let z0 = Vec4 { x: p2.x, y: p2.y, z: p2.z, w: (Fx { bits: 0 }) };
    let (m2, deriv, trap) = julia_loop_spec(
        j,
        z0,
        FX_SCALE as int,
        0,
        i64::MAX as int,
        j.iterations as nat,
    );
    let d0 = fx_mul_spec(
        fx_mul_spec(FX_QUARTER as int, fx_ln_spec(m2)),
        fx_sqrt_spec(fx_div_spec(m2, deriv)),
    );
    let d1 = if j.traps {
        fx_min_spec(d0, trap)
    } else {
        d0
    };
    if j.cut {
        fx_max_spec(d1, fx_sub_spec(p.y@, j.cut_y@))
    } else {
        d1
    }
}

/// The signed distance of the whole scene tree at `p`.
pub open spec fn sdf_spec(f: DistanceField, p: Vec3) -> int
    decreases f,
{
    match f {
        DistanceField::Sphere(s) => s.distance_spec(p),
        DistanceField::Cuboid(c) => c.distance_spec(p),
        DistanceField::Torus(t) => t.distance_spec(p),
        DistanceField::Plane(pl) => pl.distance_spec(p),
        DistanceField::Julia(j) => j.distance_spec(p),
        DistanceField::Union(u) => fx_min_spec(sdf_spec(u.a, p), sdf_spec(u.b, p)),
        DistanceField::Subtraction(s) => fx_max_spec(
            fx_neg_spec(sdf_spec(s.a, p)),
            sdf_spec(s.b, p),
        ),
        DistanceField::Intersection(i) => fx_max_spec(sdf_spec(i.a, p), sdf_spec(i.b, p)),
    }
}

/// A union's distance is the nearer of its two children's distances,
/// at every point.
pub proof fn lemma_union_distance(f: DistanceField, p: Vec3)
    requires
        f is Union,
    ensures
        sdf_spec(f, p) == fx_min_spec(sdf_spec(f->Union_0.a, p), sdf_spec(f->Union_0.b, p)),
{
}

/// A subtraction's distance is the larger of the negated first child's
/// distance and the second child's, at every point.
pub proof fn lemma_subtraction_distance(f: DistanceField, p: Vec3)
    requires
        f is Subtraction,
    ensures
        sdf_spec(f, p) == fx_max_spec(
            fx_neg_spec(sdf_spec(f->Subtraction_0.a, p)),
            sdf_spec(f->Subtraction_0.b, p),
        ),
{
}

/// An intersection's distance is the farther of its two children's
/// distances, at every point.
pub proof fn lemma_intersection_distance(f: DistanceField, p: Vec3)
    requires
        f is Intersection,
    ensures
        sdf_spec(f, p) == fx_max_spec(
            sdf_spec(f->Intersection_0.a, p),
            sdf_spec(f->Intersection_0.b, p),
        ),
{
}

/// A sphere's distance at any point is the length of the offset from
/// the center, minus the radius.
pub proof fn lemma_sphere_distance(s: Sphere, p: Vec3)
    ensures
        sdf_spec(DistanceField::Sphere(s), p) == fx_sub_spec(
            p.sub_spec(s.pos).length_spec(),
            s.size@,
        ),
{
}

/// At its own center a sphere's distance is minus the radius.
pub proof fn lemma_sphere_center_distance(s: Sphere)
    ensures
        sdf_spec(DistanceField::Sphere(s), s.pos) == fx_neg_spec(s.size@),
{
    let o = s.pos.sub_spec(s.pos);
    assert(o.x@ == 0 && o.y@ == 0 && o.z@ == 0);
    vstd::arithmetic::div_mod::lemma_div_of0(FX_SCALE as int);
    assert(o.sqr_length_spec() == 0);
    assert(o.length_spec() == 0);
}

/// A coordinate small enough for the grid Lipschitz bound: offsets of
/// two boxed points still satisfy the triangle inequality's headroom.
pub open spec fn lipschitz_boxed(v: Vec3) -> bool {
    &&& -0x4000000000 <= v.x@ <= 0x4000000000
    &&& -0x4000000000 <= v.y@ <= 0x4000000000
    &&& -0x4000000000 <= v.z@ <= 0x4000000000
}

/// The grid form of the conservative-bound invariant for a sphere: its
/// field varies between two points by at most the fixed-point distance
/// between them plus the rounding slack, so a sphere-tracing step of
/// the field's value overshoots the surface by at most the slack.
pub proof fn lemma_sphere_grid_lipschitz(s: Sphere, a: Vec3, b: Vec3)
    requires
        lipschitz_boxed(a),
        lipschitz_boxed(b),
        lipschitz_boxed(s.pos),
    ensures
        sdf_spec(DistanceField::Sphere(s), a) - sdf_spec(DistanceField::Sphere(s), b) <= a.sub_spec(
            b,
        ).length_spec() + FX_LENGTH_SLACK as int,
        sdf_spec(DistanceField::Sphere(s), b) - sdf_spec(DistanceField::Sphere(s), a) <= a.sub_spec(
            b,
        ).length_spec() + FX_LENGTH_SLACK as int,
{
    let u = a.sub_spec(s.pos);
    let v = b.sub_spec(s.pos);
    let w = a.sub_spec(b);
    let nw = w.neg_spec();
    lemma_length_triangle(u, w, v);
    lemma_length_triangle(v, nw, u);
    assert(nw.x@ * nw.x@ == w.x@ * w.x@ && nw.y@ * nw.y@ == w.y@ * w.y@ && nw.z@ * nw.z@ == w.z@
        * w.z@) by (nonlinear_arith)
        requires
            nw.x@ == -w.x@,
            nw.y@ == -w.y@,
            nw.z@ == -w.z@;
    assert(nw.sqr_length_spec() == w.sqr_length_spec());
    assert(nw.length_spec() == w.length_spec());
    lemma_sat64_lipschitz(u.length_spec() - s.size@, v.length_spec() - s.size@);
}

/// A union varies between two points by no more than the larger of its
/// children's variations: the minimum of two fields moves no faster
/// than the fields themselves.
pub proof fn lemma_union_variation(f: DistanceField, a: Vec3, b: Vec3, k: int)
    requires
        f is Union,
        -k <= sdf_spec(f->Union_0.a, a) - sdf_spec(f->Union_0.a, b) <= k,
        -k <= sdf_spec(f->Union_0.b, a) - sdf_spec(f->Union_0.b, b) <= k,
    ensures
        -k <= sdf_spec(f, a) - sdf_spec(f, b) <= k,
{
}

/// The same bound for an intersection: the maximum of two fields moves
/// no faster than the fields themselves.
pub proof fn lemma_intersection_variation(f: DistanceField, a: Vec3, b: Vec3, k: int)
    requires
        f is Intersection,
        -k <= sdf_spec(f->Intersection_0.a, a) - sdf_spec(f->Intersection_0.a, b) <= k,
        -k <= sdf_spec(f->Intersection_0.b, a) - sdf_spec(f->Intersection_0.b, b) <= k,
    ensures
        -k <= sdf_spec(f, a) - sdf_spec(f, b) <= k,
{
}

/// The same bound for a subtraction: saturated negation and the
/// maximum both move no faster than their arguments.
pub proof fn lemma_subtraction_variation(f: DistanceField, a: Vec3, b: Vec3, k: int)
    requires
        f is Subtraction,
        -k <= sdf_spec(f->Subtraction_0.a, a) - sdf_spec(f->Subtraction_0.a, b) <= k,
        -k <= sdf_spec(f->Subtraction_0.b, a) - sdf_spec(f->Subtraction_0.b, b) <= k,
    ensures
        -k <= sdf_spec(f, a) - sdf_spec(f, b) <= k,
{
    lemma_sat64_lipschitz(
        -sdf_spec(f->Subtraction_0.a, a),
        -sdf_spec(f->Subtraction_0.a, b),
    );
}

impl DistanceFunction for DistanceField {
    open spec fn distance_spec(&self, p: Vec3) -> int {
        sdf_spec(*self, p)
    }

    fn get_distance(&self, p: &Vec3) -> (d: Fx)
        decreases *self,
    {
        match self {
            DistanceField::Sphere(s) => s.get_distance(p),
            DistanceField::Cuboid(c) => c.get_distance(p),
            DistanceField::Torus(t) => t.get_distance(p),
            DistanceField::Plane(pl) => pl.get_distance(p),
            DistanceField::Julia(j) => j.get_distance(p),
            DistanceField::Union(u) => u.a.get_distance(p).min(u.b.get_distance(p)),
            DistanceField::Subtraction(s) => s.a.get_distance(p).neg().max(s.b.get_distance(p)),
            DistanceField::Intersection(i) => i.a.get_distance(p).max(i.b.get_distance(p)),
        }
    }
}

impl DistanceFunction for Sphere {
    /// Distance to the center, minus the radius.
    open spec fn distance_spec(&self, p: Vec3) -> int {
        fx_sub_spec(p.sub_spec(self.pos).length_spec(), self.size@)
    }

    fn get_distance(&self, p: &Vec3) -> (d: Fx) {
        p.sub(&self.pos).length().sub(self.size)
    }
}

impl DistanceFunction for Cuboid {
    /// Exact distance outside, the largest axis excess inside:
    /// `length(max(q, 0)) + min(max_element(q), 0)` for
    /// `q = abs(p - pos) - half_extent`.
    open spec fn distance_spec(&self, p: Vec3) -> int {
        let q = p.sub_spec(self.pos).abs_spec().sub_spec(self.size);
        fx_add_spec(
            Vec3::max_spec(q, 0).length_spec(),
            fx_min_spec(q.max_element_spec(), 0),
        )
    }

    fn get_distance(&self, p: &Vec3) -> (d: Fx) {
        let q = p.sub(&self.pos).abs().sub(&self.size);
        Vec3::max(&q, Fx::zero()).length().add(q.max_element().min(Fx::zero()))
    }
}

impl DistanceFunction for Torus {
    /// Ring distance in the XZ-plane combined with the Y offset.
    open spec fn distance_spec(&self, p: Vec3) -> int {
        let ring = fx_sub_spec(
            fx_sqrt_spec(fx_add_spec(fx_mul_spec(p.x@, p.x@), fx_mul_spec(p.z@, p.z@))),
            self.outer_size@,
        );
        let q = Vec3 { x: (Fx { bits: ring as i64 }), y: p.y, z: (Fx { bits: 0 }) };
        fx_sub_spec(q.length_spec(), self.inner_size@)
    }

    fn get_distance(&self, p: &Vec3) -> (d: Fx) {
        let ring = p.x.mul(p.x).add(p.z.mul(p.z)).sqrt().sub(self.outer_size);
        let q = Vec3::new(ring, p.y, Fx::zero());
        q.length().sub(self.inner_size)
    }
}

impl DistanceFunction for Plane {
    /// Signed distance to an infinite plane.
    open spec fn distance_spec(&self, p: Vec3) -> int {
        fx_add_spec(Vec3::dot_spec(p, self.normal), self.h@)
    }

    fn get_distance(&self, p: &Vec3) -> (d: Fx) {
        Vec3::dot(p, &self.normal).add(self.h)
    }
}

impl DistanceFunction for Julia {
    open spec fn distance_spec(&self, p: Vec3) -> int {
        julia_distance_spec(*self, p)
    }

    fn get_distance(&self, p: &Vec3) -> (d: Fx) {
        let p2 = p.sub(&self.pos);
        let mut z = Vec4::from_vec3(&p2, Fx::zero());
        let mut deriv = Fx::one();
        let mut m2 = Fx::zero();
        let mut trap = Fx::from_bits(i64::MAX);
        let nine = Fx::from_int(9);
        let mut i: u32 = 0;
        let ghost z0 = z;
        let ghost target = julia_loop_spec(
            *self,
            z0,
            FX_SCALE as int,
            0,
            i64::MAX as int,
            self.iterations as nat,
        );
        while i < self.iterations
            invariant_except_break
                i <= self.iterations,
                nine@ == 9 * FX_SCALE as int,
                julia_loop_spec(
                    *self,
                    z,
                    deriv@,
                    m2@,
                    trap@,
                    (self.iterations - i) as nat,
                ) == target,
            ensures
                (m2@, deriv@, trap@) == target,
            decreases self.iterations - i,
        {
            let ghost z_pre = z;
            let ghost deriv_pre = deriv@;
            let ghost m2_pre = m2@;
            let ghost trap_pre = trap@;
            let ghost k = (self.iterations - i) as nat;
            deriv = deriv.mul(nine.mul(z.q_square().sqr_length()));
            z = z.q_cube().add(&self.c);
            m2 = z.sqr_length();
            if self.traps {
                let dx = z.x.sub(self.trap_x);
                let dz = z.z.sub(self.trap_z);
                let new_o = dx.mul(dx).add(dz.mul(dz)).sqrt().sub(self.trap_r);
                trap = trap.min(new_o);
            }
            proof {
                assert(julia_loop_spec(*self, z_pre, deriv_pre, m2_pre, trap_pre, k) == if m2@
                    > JULIA_ESCAPE as int {
                    (m2@, deriv@, trap@)
                } else {
                    julia_loop_spec(*self, z, deriv@, m2@, trap@, (k - 1) as nat)
                });
            }
            i = i + 1;
            if m2.bits > JULIA_ESCAPE {
                break;
            }
        }
        let d0 = Fx::from_bits(FX_QUARTER).mul(m2.ln()).mul(m2.div(deriv).sqrt());
        let d1 = if self.traps {
            d0.min(trap)
        } else {
            d0
        };
        if self.cut {
            d1.max(p.y.sub(self.cut_y))
        } else {
            d1
        }
    }
}

impl DistanceFunction for Union {
    /// The nearer of the two children.
    open spec fn distance_spec(&self, p: Vec3) -> int {
        fx_min_spec(sdf_spec(self.a, p), sdf_spec(self.b, p))
    }

    fn get_distance(&self, p: &Vec3) -> (d: Fx) {
        self.a.get_distance(p).min(self.b.get_distance(p))
    }
}

impl DistanceFunction for Subtraction {
    /// Removes region `a` from `b`.
    open spec fn distance_spec(&self, p: Vec3) -> int {
        fx_max_spec(fx_neg_spec(sdf_spec(self.a, p)), sdf_spec(self.b, p))
    }

    fn get_distance(&self, p: &Vec3) -> (d: Fx) {
        self.a.get_distance(p).neg().max(self.b.get_distance(p))
    }
}

impl DistanceFunction for Intersection {
    /// Only the region inside both.
    open spec fn distance_spec(&self, p: Vec3) -> int {
        fx_max_spec(sdf_spec(self.a, p), sdf_spec(self.b, p))
    }

    fn get_distance(&self, p: &Vec3) -> (d: Fx) {
        self.a.get_distance(p).max(self.b.get_distance(p))
    }
}

} // verus!
