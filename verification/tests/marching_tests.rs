//! Sphere tracing and shading on concrete scenes: hit and miss
//! classification, the two termination conditions in isolation, normal
//! estimation, shadow factors, and the end-to-end single-sphere render.

use ray_marcher::camera::{calc_pixel, create_camera};
use ray_marcher::distance_fields::{DistanceField, DistanceFunction, Plane, Sphere};
use ray_marcher::fx::{Fx, FX_SCALE};
use ray_marcher::ray::Ray;
use ray_marcher::ray_marching::{create_ray_marcher, MarchOutcome, RayMarcher};
use ray_marcher::vec3::Vec3;

fn v3(x: i64, y: i64, z: i64) -> Vec3 {
    Vec3::new(Fx::from_int(x), Fx::from_int(y), Fx::from_int(z))
}

fn sphere_scene(cx: i64, cy: i64, cz: i64, r_num: i64, r_den: i64) -> DistanceField {
    DistanceField::Sphere(Sphere { pos: v3(cx, cy, cz), size: Fx::from_ratio(r_num, r_den) })
}

#[test]
fn march_straight_at_sphere_hits_quickly() {
    // aimed at the center from 3 units out, radius 1: the first step
    // lands exactly on the surface, the second sees distance 0
    let rm = create_ray_marcher(sphere_scene(0, 0, 0, 1, 1));
    let ray = Ray::new(&v3(0, 0, 3), &v3(0, 0, -1));
    match rm.march(&ray) {
        MarchOutcome::Hit { t, iterations } => {
            assert_eq!(t.bits, 2 * FX_SCALE);
            assert_eq!(iterations, 1);
            let hit_point = ray.at(t);
            assert!(rm.scene.get_distance(&hit_point).bits < rm.accuracy.bits);
        },
        other => panic!("expected a hit, got {:?}", other),
    }
}

#[test]
fn march_away_from_scene_misses_on_distance() {
    // the scene is behind the ray: the first step is enormous, so `t`
    // passes the distance budget long before the iteration budget
    let rm = create_ray_marcher(sphere_scene(0, 0, -100, 1, 1));
    let ray = Ray::new(&v3(0, 0, 0), &v3(0, 0, 1));
    match rm.march(&ray) {
        MarchOutcome::MissFar { t, iterations } => {
            assert!(t.bits > rm.max_distance.bits);
            assert!(iterations < rm.max_iterations);
        },
        other => panic!("expected a distance miss, got {:?}", other),
    }
}

#[test]
fn march_stalled_on_surface_misses_on_iterations() {
    // with a zero hit epsilon a ray starting on the surface sees
    // distance 0 forever: only the iteration backstop ends it
    let mut rm = create_ray_marcher(sphere_scene(0, 0, 0, 1, 1));
    rm.accuracy = Fx::zero();
    rm.max_iterations = 50;
    let ray = Ray::new(&v3(0, 0, 1), &v3(0, 0, 1));
    assert_eq!(rm.march(&ray), MarchOutcome::MissExhausted);
}

#[test]
fn normal_on_axis_plane_is_exact() {
    let rm = create_ray_marcher(DistanceField::Plane(Plane {
        normal: v3(0, 1, 0),
        h: Fx::from_int(-1),
    }));
    let n = rm.get_normal(&Vec3::new(Fx::from_int(3), Fx::from_int(5), Fx::from_int(-2)));
    assert_eq!((n.x.bits, n.y.bits, n.z.bits), (0, FX_SCALE, 0));
}

#[test]
fn normal_on_tilted_plane_is_close() {
    // a 3-4-0 normal; wider sampling offsets keep the finite
    // differences well above the rounding floor
    let tilted = Vec3::new(Fx::from_int(3), Fx::from_int(4), Fx::zero()).normalize();
    assert_eq!((tilted.x.bits, tilted.y.bits), (629145, 838860));
    let mut rm = create_ray_marcher(DistanceField::Plane(Plane { normal: tilted, h: Fx::zero() }));
    let eps = Fx::from_bits(16384);
    rm.offset_x = Vec3::new(eps, Fx::zero(), Fx::zero());
    rm.offset_y = Vec3::new(Fx::zero(), eps, Fx::zero());
    rm.offset_z = Vec3::new(Fx::zero(), Fx::zero(), eps);
    let n = rm.get_normal(&Vec3::new(Fx::from_int(3), Fx::from_int(5), Fx::from_int(-2)));
    assert_eq!((n.x.bits, n.y.bits, n.z.bits), (629478, 839315, 0));
    assert!((n.x.bits - tilted.x.bits).abs() < 1000);
    assert!((n.y.bits - tilted.y.bits).abs() < 1000);
}

#[test]
fn shadow_factor_is_one_in_the_open() {
    // well above an isolated sphere, light from above: the shadow ray
    // leaves the scene cleanly and nothing shrinks the factor
    let rm = create_ray_marcher(sphere_scene(0, 0, 0, 1, 2));
    let p = v3(0, 2, 0);
    let n = v3(0, 1, 0);
    assert_eq!(rm.shadow(&p, &n).bits, FX_SCALE);
}

#[test]
fn shadow_factor_is_zero_behind_occluder() {
    // bottom of the same sphere: the ray toward the light passes
    // through the body and sees a sub-epsilon distance at once
    let rm = create_ray_marcher(sphere_scene(0, 0, 0, 1, 2));
    let p = Vec3::new(Fx::zero(), Fx::from_ratio(-1, 2), Fx::zero());
    let n = v3(0, -1, 0);
    assert_eq!(rm.shadow(&p, &n).bits, 0);
}

#[test]
fn ambient_occlusion_open_surface_near_one() {
    let rm = create_ray_marcher(sphere_scene(0, 0, 0, 1, 2));
    let p = Vec3::new(Fx::zero(), Fx::from_ratio(1, 2), Fx::zero());
    let n = v3(0, 1, 0);
    let ao = rm.ambient_occlusion(&p, &n).bits;
    assert!(0 <= ao && ao <= FX_SCALE);
    assert!(ao > FX_SCALE - 1024);
}

#[test]
fn end_to_end_single_sphere() {
    // scene: a sphere of radius one half, two units down the -z axis;
    // the axial ray hits at t = 1.5 on the grid, at (0, 0, -1.5), with
    // the exact +z normal
    let rm = create_ray_marcher(sphere_scene(0, 0, -2, 1, 2));
    let ray = Ray::new(&v3(0, 0, 0), &v3(0, 0, -1));
    match rm.march(&ray) {
        MarchOutcome::Hit { t, iterations } => {
            assert_eq!(t.bits, 3 * FX_SCALE / 2);
            assert_eq!(iterations, 1);
            let hit_point = ray.at(t);
            assert_eq!((hit_point.x.bits, hit_point.y.bits, hit_point.z.bits), (
                0,
                0,
                -3 * FX_SCALE / 2,
            ));
            assert!(rm.scene.get_distance(&hit_point).bits < rm.accuracy.bits);
            let n = rm.get_normal(&hit_point);
            assert_eq!((n.x.bits, n.y.bits, n.z.bits), (0, 0, FX_SCALE));
        },
        other => panic!("expected a hit, got {:?}", other),
    }
}

#[test]
fn ray_marching_color_is_black_on_miss() {
    let rm = create_ray_marcher(sphere_scene(0, 0, -100, 1, 1));
    let c = rm.ray_marching(Ray::new(&v3(0, 0, 0), &v3(0, 0, 1)));
    assert_eq!((c.x.bits, c.y.bits, c.z.bits, c.w.bits), (0, 0, 0, 0));
}

#[test]
fn ray_marching_color_in_unit_range_on_hit() {
    let rm = create_ray_marcher(sphere_scene(0, 0, -2, 1, 2));
    let c = rm.ray_marching(Ray::new(&v3(0, 0, 0), &v3(0, 0, -1)));
    // the shading composite is clamped, so every channel stays inside
    // the unit interval whatever the light profile
    for ch in [c.x.bits, c.y.bits, c.z.bits] {
        assert!(0 <= ch && ch <= FX_SCALE);
    }
    assert_eq!(c.w.bits, FX_SCALE);
}

#[test]
fn overbright_profile_clamps_to_one() {
    // doubled direct light on a fully lit point: the raw composite
    // exceeds one and the clamp brings every channel to exactly one
    let mut rm = create_ray_marcher(sphere_scene(0, 0, 0, 1, 2));
    rm.light_intensity = Fx::from_int(2);
    let c = rm.shading(&v3(0, 2, 0));
    assert_eq!((c.x.bits, c.y.bits, c.z.bits, c.w.bits), (
        FX_SCALE,
        FX_SCALE,
        FX_SCALE,
        FX_SCALE,
    ));
}

#[test]
fn center_pixel_sees_the_sphere_corner_does_not() {
    let rm = create_ray_marcher(sphere_scene(0, 0, -2, 1, 2));
    let cam = create_camera(
        &v3(0, 0, 0),
        &v3(0, 0, -1),
        Fx::from_int(2),
        Fx::from_int(1),
        Fx::from_int(1),
    );
    let center = calc_pixel(&rm, &cam, 1, 1, 3, 3);
    let corner = calc_pixel(&rm, &cam, 0, 0, 3, 3);
    assert!(center.0 > 0 || center.1 > 0 || center.2 > 0);
    assert_eq!(corner, (0, 0, 0));
}

#[test]
fn unit_profile_color_stays_in_unit_range() {
    // intensities that sum to at most one keep every channel inside
    // the unit interval on hits and misses alike
    let mut rm = create_ray_marcher(sphere_scene(0, 0, -2, 1, 2));
    rm.light_intensity = Fx::from_bits(943718);
    rm.bg_light_intensity = Fx::from_bits(104857);
    for dir in [v3(0, 0, -1), v3(0, 1, -1), v3(1, 0, 0)] {
        let c = rm.ray_marching(Ray::new(&v3(0, 0, 0), &dir));
        for ch in [c.x.bits, c.y.bits, c.z.bits] {
            assert!(0 <= ch && ch <= FX_SCALE);
        }
    }
}

#[test]
fn marcher_defaults_match_profile() {
    let rm: RayMarcher = create_ray_marcher(sphere_scene(0, 0, 0, 1, 1));
    assert_eq!(rm.max_iterations, 4000);
    assert_eq!(rm.max_distance.bits, 7 * FX_SCALE);
    assert_eq!(rm.accuracy.bits, 10);
    assert!(!rm.debug);
    assert_eq!(
        (rm.light_dir.x.bits, rm.light_dir.y.bits, rm.light_dir.z.bits),
        (428079, -856158, 428079),
    );
    assert_eq!(rm.bg_light_intensity.bits, 104857);
    assert_eq!(rm.ao_iterations, 3);
}
