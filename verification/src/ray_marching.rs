//! The sphere-tracing integrator and the shading pipeline.  A ray walks
//! forward by the field's own value — a safe step, since the field is a
//! lower bound on the distance to any surface — until it hits, runs out
//! of distance, or runs out of iterations.  A hit point is shaded with
//! a central-difference normal, a soft shadow and ambient occlusion.

use crate::distance_fields::{sdf_spec, DistanceField, DistanceFunction};
use crate::fx::{
    fx_add_spec, fx_clamp_spec, fx_div_spec, fx_max_spec, fx_min_spec, fx_mul_spec, fx_of,
    fx_sub_spec, sat64, Fx, FX_SCALE,
};
use crate::ray::Ray;
use crate::vec3::Vec3;
use crate::vec4::Vec4;
use vstd::prelude::*;

verus! {

/// The normal-estimation offset: 2^-10 of a unit.  The reference
/// profile's 10^-6 is a single bit on the 2^-20 grid, where central
/// differences collapse into quantization noise; this is the smallest
/// power of two whose differences the grid resolves cleanly.
pub const FX_NORMAL_EPS: i64 = 1024;

/// Configuration and scene for one render: iteration and distance
/// budgets, the hit and normal epsilons, the owned field tree, one
/// diffuse color, one directional light, one ambient light, and the
/// ambient-occlusion sampling parameters.  Built once, never mutated.
pub struct RayMarcher {
    // quality
    pub max_iterations: u32,
    pub max_distance: Fx,
    pub accuracy: Fx,
    // misc
    pub debug: bool,
    // normals
    pub normal_accuracy: Fx,
    pub offset_x: Vec3,
    pub offset_y: Vec3,
    pub offset_z: Vec3,
    // scene
    pub scene: DistanceField,
    pub obj_color: Vec3,
    // sun light
    pub light_dir: Vec3,
    pub light_color: Vec3,
    pub light_intensity: Fx,
    // indirect light
    pub bg_light_color: Vec3,
    pub bg_light_intensity: Fx,
    // shadow
    pub shadow_dist_min: Fx,
    pub shadow_dist_max: Fx,
    pub shadow_fuzziness: Fx,
    // AO
    pub ao_step_size: Fx,
    pub ao_intensity: Fx,
    pub ao_iterations: u32,
}

/// How one ray march ended: on a surface, past the distance budget, or
/// out of iterations.  The two miss causes are kept apart so that each
/// termination condition can be observed on its own.
#[derive(Clone, Copy, PartialEq, Eq, Structural, Debug)]
pub enum MarchOutcome {
    Hit { t: Fx, iterations: u32 },
    MissFar { t: Fx, iterations: u32 },
    MissExhausted,
}

/// The march from parametric distance `t` with `i` iterations already
/// spent: stop past the distance budget, stop below the hit epsilon,
/// otherwise advance by the field's value.
pub open spec fn march_from(rm: RayMarcher, ray: Ray, t: int, i: nat) -> MarchOutcome
    decreases rm.max_iterations as int - i,
{
    if i >= rm.max_iterations {
        MarchOutcome::MissExhausted
    } else if t > rm.max_distance@ {
        MarchOutcome::MissFar { t: fx_of(t), iterations: i as u32 }
    } else {
        let d = sdf_spec(rm.scene, ray.at_spec(t));
        if d < rm.accuracy@ {
            MarchOutcome::Hit { t: fx_of(t), iterations: i as u32 }
        } else {
            march_from(rm, ray, fx_add_spec(t, d), (i + 1) as nat)
        }
    }
}

/// A hit is only reported on a point where the field is below the hit
/// epsilon and inside the distance budget, and a distance miss only
/// once `t` has passed the budget.
pub proof fn lemma_march_from_props(rm: RayMarcher, ray: Ray, t: int, i: nat)
    requires
        i64::MIN as int <= t <= i64::MAX as int,
    ensures
        march_from(rm, ray, t, i) matches MarchOutcome::Hit { t: th, .. } ==> sdf_spec(
            rm.scene,
            ray.at_spec(th@),
        ) < rm.accuracy@ && th@ <= rm.max_distance@,
        march_from(rm, ray, t, i) matches MarchOutcome::MissFar { t: tm, .. } ==> tm@
            > rm.max_distance@,
    decreases rm.max_iterations as int - i,
{
    if i >= rm.max_iterations {
    } else if t > rm.max_distance@ {
    } else {
        let d = sdf_spec(rm.scene, ray.at_spec(t));
        if d < rm.accuracy@ {
        } else {
            lemma_march_from_props(rm, ray, fx_add_spec(t, d), (i + 1) as nat);
        }
    }
}

/// With a positive hit epsilon, a march that ends on a surface or past
/// the distance budget does so within `max_distance / accuracy + 1`
/// further steps: every continuing step advances `t` by at least the
/// epsilon.  An iteration budget above that bound leaves exhaustion to
/// fields that keep reporting sub-epsilon distances without a hit.
pub proof fn lemma_march_steps_bounded(rm: RayMarcher, ray: Ray, t: int, i: nat)
    requires
        rm.accuracy@ > 0,
        0 <= t <= rm.max_distance@,
        rm.max_distance@ + rm.accuracy@ <= i64::MAX as int,
    ensures
        march_from(rm, ray, t, i) matches MarchOutcome::Hit { iterations, .. } ==> iterations as int
            <= i + (rm.max_distance@ - t) / rm.accuracy@ + 1,
        march_from(rm, ray, t, i) matches MarchOutcome::MissFar { iterations, .. }
            ==> iterations as int <= i + (rm.max_distance@ - t) / rm.accuracy@ + 1,
    decreases rm.max_iterations as int - i,
{
    vstd::arithmetic::div_mod::lemma_div_pos_is_pos(rm.max_distance@ - t, rm.accuracy@);
    if i >= rm.max_iterations {
    } else {
        assert(i < rm.max_iterations);
        assert((i as u32) as int == i as int);
        let d = sdf_spec(rm.scene, ray.at_spec(t));
        if d < rm.accuracy@ {
            assert(march_from(rm, ray, t, i) == MarchOutcome::Hit {
                t: fx_of(t),
                iterations: i as u32,
            });
        } else {
            let t1 = fx_add_spec(t, d);
            assert(march_from(rm, ray, t, i) == march_from(rm, ray, t1, (i + 1) as nat));
            if t1 > rm.max_distance@ {
                if i + 1 < rm.max_iterations {
                    assert(march_from(rm, ray, t1, (i + 1) as nat) == MarchOutcome::MissFar {
                        t: fx_of(t1),
                        iterations: (i + 1) as u32,
                    });
                    assert(((i + 1) as u32) as int == i + 1);
                }
            } else {
                lemma_march_steps_bounded(rm, ray, t1, i + 1);
                assert(t1 >= t + rm.accuracy@);
                vstd::arithmetic::div_mod::lemma_div_is_ordered(
                    rm.max_distance@ - t1,
                    rm.max_distance@ - t - rm.accuracy@,
                    rm.accuracy@,
                );
                vstd::arithmetic::div_mod::lemma_div_minus_one(
                    rm.max_distance@ - t,
                    rm.accuracy@,
                );
            }
        }
    }
}

/// The traversal-cost visualization used in debug mode: a gray level at
/// the fraction of the iteration budget that was spent.
pub open spec fn debug_color_spec(rm: RayMarcher, i: u32) -> Vec4 {
    Vec4::one_spec().scale_spec(
        fx_div_spec(sat64(i * FX_SCALE as int), sat64(rm.max_iterations * FX_SCALE as int)),
    )
}

/// Central finite differences of the field along each axis, normalized.
pub open spec fn get_normal_spec(rm: RayMarcher, p: Vec3) -> Vec3 {
    let v = Vec3 {
        x: fx_of(
            fx_sub_spec(
                sdf_spec(rm.scene, p.add_spec(rm.offset_x)),
                sdf_spec(rm.scene, p.sub_spec(rm.offset_x)),
            ),
        ),
        y: fx_of(
            fx_sub_spec(
                sdf_spec(rm.scene, p.add_spec(rm.offset_y)),
                sdf_spec(rm.scene, p.sub_spec(rm.offset_y)),
            ),
        ),
        z: fx_of(
            fx_sub_spec(
                sdf_spec(rm.scene, p.add_spec(rm.offset_z)),
                sdf_spec(rm.scene, p.sub_spec(rm.offset_z)),
            ),
        ),
    };
    v.normalize_spec()
}

/// The penumbra march: step like the primary march, shrink the factor
/// by how closely the ray grazes geometry, return zero outright on a
/// hit, and clamp into the unit interval at the end.  The iteration
/// budget is a backstop against fields that return tiny steps forever.
pub open spec fn shadow_loop_spec(rm: RayMarcher, sr: Ray, t: int, factor: int, fuel: nat) -> int
    decreases fuel,
{
    if t >= rm.shadow_dist_max@ || fuel == 0 {
        fx_clamp_spec(factor, 0, FX_SCALE as int)
    } else {
        let d = sdf_spec(rm.scene, sr.at_spec(t));
        if d < rm.accuracy@ {
            0
        } else {
            shadow_loop_spec(
                rm,
                sr,
                fx_add_spec(t, d),
                fx_min_spec(factor, fx_div_spec(fx_mul_spec(rm.shadow_fuzziness@, d), t)),
                (fuel - 1) as nat,
            )
        }
    }
}

/// The shadow factor at `p`: a secondary ray from just off the surface
/// toward the light, marched through the penumbra rule.
pub open spec fn shadow_spec(rm: RayMarcher, p: Vec3, n: Vec3) -> int {
    let sro = p.add_spec(n.scale_spec(rm.accuracy@));
    let sr = Ray { orig: sro, dir: rm.light_dir.neg_spec().normalize_spec() };
    shadow_loop_spec(rm, sr, rm.shadow_dist_min@, FX_SCALE as int, rm.max_iterations as nat)
}

/// The shadow factor always lands in the unit interval.
pub proof fn lemma_shadow_loop_range(rm: RayMarcher, sr: Ray, t: int, factor: int, fuel: nat)
    ensures
        0 <= shadow_loop_spec(rm, sr, t, factor, fuel) <= FX_SCALE as int,
    decreases fuel,
{
    if t >= rm.shadow_dist_max@ || fuel == 0 {
    } else {
        let d = sdf_spec(rm.scene, sr.at_spec(t));
        if d < rm.accuracy@ {
        } else {
            lemma_shadow_loop_range(
                rm,
                sr,
                fx_add_spec(t, d),
                fx_min_spec(factor, fx_div_spec(fx_mul_spec(rm.shadow_fuzziness@, d), t)),
                (fuel - 1) as nat,
            );
        }
    }
}

/// A point whose shadow ray already sees a sub-epsilon field value at
/// its first probe sits against an occluder: the factor is zero.
pub proof fn lemma_shadow_occluded(rm: RayMarcher, p: Vec3, n: Vec3)
    requires
        rm.shadow_dist_min@ < rm.shadow_dist_max@,
        rm.max_iterations >= 1,
        ({
            let sro = p.add_spec(n.scale_spec(rm.accuracy@));
            let sr = Ray { orig: sro, dir: rm.light_dir.neg_spec().normalize_spec() };
            sdf_spec(rm.scene, sr.at_spec(rm.shadow_dist_min@)) < rm.accuracy@
        }),
    ensures
        shadow_spec(rm, p, n) == 0,
{
}

/// The occlusion accumulator after the samples from index `i` on: each
/// sample steps outward along the normal and adds how much the field
/// falls short of the step distance.
pub open spec fn ao_loop_spec(rm: RayMarcher, p: Vec3, n: Vec3, ao: int, i: nat) -> int
    decreases rm.ao_iterations as int - i,
{
    if i >= rm.ao_iterations {
        ao
    } else {
        let dist = fx_mul_spec(rm.ao_step_size@, sat64((i + 1) * FX_SCALE as int));
        let point = p.add_spec(n.scale_spec(dist));
        let term = fx_max_spec(0, fx_div_spec(fx_sub_spec(dist, sdf_spec(rm.scene, point)), dist));
        ao_loop_spec(rm, p, n, fx_add_spec(ao, term), (i + 1) as nat)
    }
}

/// The ambient-occlusion multiplier at `p`, clamped into the unit
/// interval; it darkens only the ambient term.
pub open spec fn ambient_occlusion_spec(rm: RayMarcher, p: Vec3, n: Vec3) -> int {
    fx_clamp_spec(
        fx_sub_spec(FX_SCALE as int, fx_mul_spec(ao_loop_spec(rm, p, n, 0, 0), rm.ao_intensity@)),
        0,
        FX_SCALE as int,
    )
}

/// The shaded color of a hit point: the diffuse term from the light
/// direction, dimmed by the shadow factor, plus the ambient term dimmed
/// by the occlusion, carried by the object's reflectance color, and the
/// composite clamped into the unit interval for lossless quantization.
pub open spec fn shading_spec(rm: RayMarcher, p: Vec3) -> Vec4 {
    let n = get_normal_spec(rm, p);
    let shadow = shadow_spec(rm, p, n);
    let ao = ambient_occlusion_spec(rm, p, n);
    let dotc = fx_clamp_spec(Vec3::dot_spec(rm.light_dir.neg_spec(), n), 0, FX_SCALE as int);
    let sun = rm.obj_color.mul_spec(
        rm.light_color.scale_spec(dotc).scale_spec(rm.light_intensity@).scale_spec(shadow),
    );
    let bg = rm.obj_color.mul_spec(rm.bg_light_color.scale_spec(rm.bg_light_intensity@))
        .scale_spec(ao);
    let light = sun.add_spec(bg).clamp_spec(0, FX_SCALE as int);
    Vec4 { x: light.x, y: light.y, z: light.z, w: fx_of(FX_SCALE as int) }
}

/// A color component inside the unit interval.
pub open spec fn unit_range(c: int) -> bool {
    0 <= c <= FX_SCALE as int
}

/// A color whose three components lie inside the unit interval.
pub open spec fn unit_color(v: Vec3) -> bool {
    unit_range(v.x@) && unit_range(v.y@) && unit_range(v.z@)
}

/// Outside debug mode every channel of a rendered ray's color lies
/// inside the unit interval, whatever the light profile: misses are
/// black, and a shaded hit clamps its composite — the guarantee the
/// 8-bit quantization stage needs in order to be lossless.
pub proof fn lemma_ray_color_in_unit_range(rm: RayMarcher, ray: Ray)
    requires
        !rm.debug,
    ensures
        unit_color(
            Vec3 {
                x: ray_marching_spec(rm, ray).x,
                y: ray_marching_spec(rm, ray).y,
                z: ray_marching_spec(rm, ray).z,
            },
        ),
{
}

/// The color of one ray: shade a hit, return black on either kind of
/// miss, or gray out the iteration count in debug mode.
pub open spec fn ray_marching_spec(rm: RayMarcher, ray: Ray) -> Vec4 {
    match march_from(rm, ray, 0, 0) {
        MarchOutcome::Hit { t, iterations } => if rm.debug {
            debug_color_spec(rm, iterations)
        } else {
            shading_spec(rm, ray.at_spec(t@))
        },
        MarchOutcome::MissFar { iterations, .. } => if rm.debug {
            debug_color_spec(rm, iterations)
        } else {
            Vec4::zero_spec()
        },
        MarchOutcome::MissExhausted => if rm.debug {
            Vec4::one_spec()
        } else {
            Vec4::zero_spec()
        },
    }
}

/// A marcher around the given scene with the default render profile:
/// a 4000-step budget over 7 units of distance, a hit epsilon of about
/// a hundred-thousandth, a white object under a white light from
/// (0.5, -1, 0.5), a tenth of ambient light, and three occlusion
/// samples a twentieth of a unit apart.  The normal-estimation step is
/// `FX_NORMAL_EPS`, chosen for the grid in place of the reference
/// profile's sub-grid 10^-6.
pub fn create_ray_marcher(scene: DistanceField) -> (rm: RayMarcher)
    ensures
        rm.max_iterations == 4000,
        rm.max_distance@ == 7 * FX_SCALE as int,
        rm.accuracy@ == 10,
        rm.debug == false,
        rm.obj_color == Vec3::one_spec(),
        rm.normal_accuracy@ == FX_NORMAL_EPS as int,
        rm.offset_x == (Vec3 {
            x: (Fx { bits: FX_NORMAL_EPS }),
            y: (Fx { bits: 0 }),
            z: (Fx { bits: 0 }),
        }),
        rm.offset_y == (Vec3 {
            x: (Fx { bits: 0 }),
            y: (Fx { bits: FX_NORMAL_EPS }),
            z: (Fx { bits: 0 }),
        }),
        rm.offset_z == (Vec3 {
            x: (Fx { bits: 0 }),
            y: (Fx { bits: 0 }),
            z: (Fx { bits: FX_NORMAL_EPS }),
        }),
        rm.scene == scene,
        rm.light_dir == (Vec3 {
            x: (Fx { bits: 524288 }),
            y: (Fx { bits: -1048576i64 }),
            z: (Fx { bits: 524288 }),
        }).normalize_spec(),
        rm.light_color == Vec3::one_spec(),
        rm.light_intensity@ == FX_SCALE as int,
        rm.bg_light_color == Vec3::one_spec(),
        rm.bg_light_intensity@ == 104857,
        rm.shadow_dist_min@ == 0,
        rm.shadow_dist_max@ == 7 * FX_SCALE as int,
        rm.shadow_fuzziness@ == 5 * FX_SCALE as int,
        rm.ao_step_size@ == 52428,
        rm.ao_intensity@ == 314572,
        rm.ao_iterations == 3,
{
    let max_iterations: u32 = 4000;
    let max_distance = Fx::from_int(7);
    // about 0.00001 of a unit on the 2^-20 grid
    let accuracy = Fx::from_bits(10);

    let debug = false;

    let obj_color = Vec3::one();

    let normal_accuracy = Fx::from_bits(FX_NORMAL_EPS);
    let offset_x = Vec3::new(normal_accuracy, Fx::zero(), Fx::zero());
    let offset_y = Vec3::new(Fx::zero(), normal_accuracy, Fx::zero());
    let offset_z = Vec3::new(Fx::zero(), Fx::zero(), normal_accuracy);

    let half = Fx::from_bits(524288);
    let light_dir = Vec3::new(half, Fx::from_int(1).neg(), half).normalize();
    let light_color = Vec3::one();
    let light_intensity = Fx::one();

    let bg_light_color = Vec3::one();
    // one tenth, rounded down to the grid
    let bg_light_intensity = Fx::from_bits(104857);

    let shadow_dist_min = Fx::zero();
    let shadow_dist_max = max_distance;
    let shadow_fuzziness = Fx::from_int(5);

    // one twentieth and three tenths, rounded down to the grid
    let ao_step_size = Fx::from_bits(52428);
    let ao_intensity = Fx::from_bits(314572);
    let ao_iterations: u32 = 3;

    RayMarcher {
        max_iterations,
        max_distance,
        accuracy,

        debug,

        obj_color,

        normal_accuracy,
        offset_x,
        offset_y,
        offset_z,

        scene,

        light_dir,
        light_color,
        light_intensity,

        bg_light_color,
        bg_light_intensity,

        shadow_dist_min,
        shadow_dist_max,
        shadow_fuzziness,

        ao_step_size,
        ao_intensity,
        ao_iterations,
    }
}

impl RayMarcher {
    fn distance_field(&self, p: &Vec3) -> (d: Fx)
        ensures
            d@ == sdf_spec(self.scene, *p),
    {
        self.scene.get_distance(p)
    }

    /// Walks the ray through the field and reports how the march ended.
    pub fn march(&self, ray: &Ray) -> (o: MarchOutcome)
        ensures
            o == march_from(*self, *ray, 0, 0),
            o matches MarchOutcome::Hit { t, .. } ==> sdf_spec(self.scene, ray.at_spec(t@))
                < self.accuracy@ && t@ <= self.max_distance@,
            o matches MarchOutcome::MissFar { t, .. } ==> t@ > self.max_distance@,
    {
        let mut t = Fx::zero();
        let mut i: u32 = 0;
        let mut outcome = MarchOutcome::MissExhausted;
        while i < self.max_iterations
            invariant_except_break
                i <= self.max_iterations,
                outcome == MarchOutcome::MissExhausted,
                march_from(*self, *ray, t@, i as nat) == march_from(*self, *ray, 0, 0),
            ensures
                outcome == march_from(*self, *ray, 0, 0),
            decreases self.max_iterations - i,
        {
            if t.bits > self.max_distance.bits {
                outcome = MarchOutcome::MissFar { t, iterations: i };
                break;
            }
            let p = ray.at(t);
            let d = self.distance_field(&p);
            if d.bits < self.accuracy.bits {
                outcome = MarchOutcome::Hit { t, iterations: i };
                break;
            }
            t = t.add(d);
            i = i + 1;
        }
        proof {
            lemma_march_from_props(*self, *ray, 0, 0);
        }
        outcome
    }

    /// One ray's color.
    pub fn ray_marching(&self, ray: Ray) -> (c: Vec4)
        ensures
            c == ray_marching_spec(*self, ray),
            !self.debug ==> unit_range(c.x@) && unit_range(c.y@) && unit_range(c.z@),
    {
        match self.march(&ray) {
            MarchOutcome::Hit { t, iterations } => {
                if self.debug {
                    self.debug_color(iterations)
                } else {
                    let p = ray.at(t);
                    self.shading(&p)
                }
            },
            MarchOutcome::MissFar { iterations, .. } => {
                if self.debug {
                    self.debug_color(iterations)
                } else {
                    Vec4::zero()
                }
            },
            MarchOutcome::MissExhausted => {
                if self.debug {
                    Vec4::one()
                } else {
                    Vec4::zero()
                }
            },
        }
    }

    fn debug_color(&self, i: u32) -> (c: Vec4)
        ensures
            c == debug_color_spec(*self, i),
    {
        Vec4::one().scale(Fx::from_int(i as i64).div(Fx::from_int(self.max_iterations as i64)))
    }

    pub fn get_normal(&self, p: &Vec3) -> (n: Vec3)
        ensures
            n == get_normal_spec(*self, *p),
    {
        Vec3::new(
            self.distance_field(&p.add(&self.offset_x)).sub(
                self.distance_field(&p.sub(&self.offset_x)),
            ),
            self.distance_field(&p.add(&self.offset_y)).sub(
                self.distance_field(&p.sub(&self.offset_y)),
            ),
            self.distance_field(&p.add(&self.offset_z)).sub(
                self.distance_field(&p.sub(&self.offset_z)),
            ),
        ).normalize()
    }

    /// The composite is clamped into the unit interval, so the color is
    /// always ready for lossless 8-bit quantization.
    pub fn shading(&self, p: &Vec3) -> (c: Vec4)
        ensures
            c == shading_spec(*self, *p),
            unit_range(c.x@),
            unit_range(c.y@),
            unit_range(c.z@),
            c.w@ == FX_SCALE as int,
    {
        let n = self.get_normal(p);
        let shadow = self.shadow(p, &n);
        let ambient_occlusion = self.ambient_occlusion(p, &n);

        let dotc = Vec3::dot(&self.light_dir.neg(), &n).clamp(Fx::zero(), Fx::one());
        let sun_light = self.obj_color.mul(
            &self.light_color.scale(dotc).scale(self.light_intensity).scale(shadow),
        );
        let bg_light = self.obj_color.mul(&self.bg_light_color.scale(self.bg_light_intensity))
            .scale(ambient_occlusion);

        let light = sun_light.add(&bg_light).clamp(Fx::zero(), Fx::one());
        Vec4::from_vec3(&light, Fx::one())
    }

    pub fn shadow(&self, p: &Vec3, n: &Vec3) -> (s: Fx)
        ensures
            s@ == shadow_spec(*self, *p, *n),
            0 <= s@ <= FX_SCALE as int,
    {
        let sro = p.add(&n.scale(self.accuracy));
        let sr = Ray::new(&sro, &self.light_dir.neg());

        let mut t = self.shadow_dist_min;
        let mut result = Fx::one();
        let mut i: u32 = 0;
        let ghost target = shadow_loop_spec(
            *self,
            sr,
            self.shadow_dist_min@,
            FX_SCALE as int,
            self.max_iterations as nat,
        );
        proof {
            lemma_shadow_loop_range(
                *self,
                sr,
                self.shadow_dist_min@,
                FX_SCALE as int,
                self.max_iterations as nat,
            );
        }
        while t.bits < self.shadow_dist_max.bits && i < self.max_iterations
            invariant_except_break
                i <= self.max_iterations,
                shadow_loop_spec(
                    *self,
                    sr,
                    t@,
                    result@,
                    (self.max_iterations - i) as nat,
                ) == target,
            ensures
                fx_clamp_spec(result@, 0, FX_SCALE as int) == target,
            decreases self.max_iterations - i,
        {
            let sp = sr.at(t);
            let d = self.distance_field(&sp);

            if d.bits < self.accuracy.bits {
                proof {
                    assert(shadow_loop_spec(
                        *self,
                        sr,
                        t@,
                        result@,
                        (self.max_iterations - i) as nat,
                    ) == 0);
                }
                result = Fx::zero();
                break;
            }

            result = result.min(self.shadow_fuzziness.mul(d).div(t));
            t = t.add(d);
            i = i + 1;
        }
        result.clamp(Fx::zero(), Fx::one())
    }

    pub fn ambient_occlusion(&self, p: &Vec3, n: &Vec3) -> (r: Fx)
        ensures
            r@ == ambient_occlusion_spec(*self, *p, *n),
            0 <= r@ <= FX_SCALE as int,
    {
        let mut ao = Fx::zero();
        let mut i: u32 = 0;
        let ghost target = ao_loop_spec(*self, *p, *n, 0, 0);
        while i < self.ao_iterations
            invariant
                i <= self.ao_iterations,
                ao_loop_spec(*self, *p, *n, ao@, i as nat) == target,
            decreases self.ao_iterations - i,
        {
            let dist = self.ao_step_size.mul(Fx::from_int((i + 1) as i64));
            let point = p.add(&n.scale(dist));

            ao = ao.add(dist.sub(self.distance_field(&point)).div(dist).max(Fx::zero()));
            i = i + 1;
        }
        Fx::one().sub(ao.mul(self.ao_intensity)).clamp(Fx::zero(), Fx::one())
    }
}

} // verus!
