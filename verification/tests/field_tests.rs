//! Distance-field evaluations on concrete scenes: the primitive
//! formulas, the CSG identities on sample points, the fractal edge
//! cases, and evaluation purity.

use ray_marcher::distance_fields::{
    Cuboid, DistanceField, DistanceFunction, Intersection, Julia, Plane, Sphere, Subtraction,
    Torus, Union,
};
use ray_marcher::fx::{Fx, FX_SCALE};
use ray_marcher::vec3::Vec3;
use ray_marcher::vec4::Vec4;

fn v3(x: i64, y: i64, z: i64) -> Vec3 {
    Vec3::new(Fx::from_int(x), Fx::from_int(y), Fx::from_int(z))
}

fn unit_sphere_at_origin() -> Sphere {
    Sphere { pos: v3(0, 0, 0), size: Fx::from_int(1) }
}

#[test]
fn sphere_distance_outside_inside_center() {
    let s = DistanceField::Sphere(unit_sphere_at_origin());
    // 3 units out on an axis: distance 2
    assert_eq!(s.get_distance(&v3(3, 0, 0)).bits, 2 * FX_SCALE);
    // at the center: minus the radius
    assert_eq!(s.get_distance(&v3(0, 0, 0)).bits, -FX_SCALE);
    // on the surface: zero
    assert_eq!(s.get_distance(&v3(0, 1, 0)).bits, 0);
    // at distance d from the center along any ray: d - r
    assert_eq!(s.get_distance(&v3(0, 0, -5)).bits, 4 * FX_SCALE);
}

#[test]
fn plane_distance_is_signed_offset() {
    let p = DistanceField::Plane(Plane { normal: v3(0, 1, 0), h: Fx::from_int(-1) });
    assert_eq!(p.get_distance(&v3(7, 3, -2)).bits, 2 * FX_SCALE);
    assert_eq!(p.get_distance(&v3(0, 0, 0)).bits, -FX_SCALE);
    assert_eq!(p.get_distance(&v3(100, 1, 100)).bits, 0);
}

#[test]
fn cuboid_distance_faces_and_interior() {
    let c = DistanceField::Cuboid(Cuboid { pos: v3(0, 0, 0), size: v3(1, 1, 1) });
    // straight out from a face
    assert_eq!(c.get_distance(&v3(3, 0, 0)).bits, 2 * FX_SCALE);
    // at the center: one unit inside the nearest face
    assert_eq!(c.get_distance(&v3(0, 0, 0)).bits, -FX_SCALE);
    // at a corner: zero
    assert_eq!(c.get_distance(&v3(1, 1, 1)).bits, 0);
}

#[test]
fn torus_distance_on_ring() {
    let t = DistanceField::Torus(Torus {
        pos: v3(0, 0, 0),
        outer_size: Fx::from_int(2),
        inner_size: Fx::from_ratio(1, 2),
    });
    // on the ring circle itself: minus the inner radius
    assert_eq!(t.get_distance(&v3(2, 0, 0)).bits, -524288);
    // half a unit above the ring: on the surface
    let above = Vec3::new(Fx::from_int(2), Fx::from_ratio(1, 2), Fx::zero());
    assert_eq!(t.get_distance(&above).bits, 0);
}

#[test]
fn union_is_min_of_children() {
    let a = DistanceField::Sphere(unit_sphere_at_origin());
    let b = DistanceField::Sphere(Sphere { pos: v3(4, 0, 0), size: Fx::from_int(1) });
    let u = DistanceField::Union(Box::new(Union {
        a: DistanceField::Sphere(unit_sphere_at_origin()),
        b: DistanceField::Sphere(Sphere { pos: v3(4, 0, 0), size: Fx::from_int(1) }),
    }));
    for p in [v3(0, 0, 0), v3(2, 0, 0), v3(4, 0, 0), v3(-3, 5, 1)] {
        let da = a.get_distance(&p).bits;
        let db = b.get_distance(&p).bits;
        assert_eq!(u.get_distance(&p).bits, da.min(db));
    }
}

#[test]
fn subtraction_is_max_of_negated_first() {
    let a = DistanceField::Sphere(unit_sphere_at_origin());
    let b = DistanceField::Sphere(Sphere { pos: v3(1, 0, 0), size: Fx::from_int(1) });
    let s = DistanceField::Subtraction(Box::new(Subtraction {
        a: DistanceField::Sphere(unit_sphere_at_origin()),
        b: DistanceField::Sphere(Sphere { pos: v3(1, 0, 0), size: Fx::from_int(1) }),
    }));
    for p in [v3(0, 0, 0), v3(1, 0, 0), v3(2, 0, 0), v3(0, 3, 0)] {
        let da = a.get_distance(&p).bits;
        let db = b.get_distance(&p).bits;
        assert_eq!(s.get_distance(&p).bits, (-da).max(db));
    }
}

#[test]
fn intersection_is_max_of_children() {
    let a = DistanceField::Sphere(unit_sphere_at_origin());
    let b = DistanceField::Sphere(Sphere { pos: v3(1, 0, 0), size: Fx::from_int(1) });
    let i = DistanceField::Intersection(Box::new(Intersection {
        a: DistanceField::Sphere(unit_sphere_at_origin()),
        b: DistanceField::Sphere(Sphere { pos: v3(1, 0, 0), size: Fx::from_int(1) }),
    }));
    for p in [v3(0, 0, 0), v3(1, 0, 0), v3(-1, 0, 0), v3(0, 0, 2)] {
        let da = a.get_distance(&p).bits;
        let db = b.get_distance(&p).bits;
        assert_eq!(i.get_distance(&p).bits, da.max(db));
    }
}

fn plain_julia(iterations: u32) -> Julia {
    Julia {
        pos: v3(0, 0, -1),
        iterations,
        traps: false,
        c: Vec4::new(
            Fx::from_ratio(-151, 100),
            Fx::from_ratio(59, 10),
            Fx::from_int(4),
            Fx::from_int(-2),
        ),
        cut: false,
        cut_y: Fx::zero(),
        trap_x: Fx::from_ratio(45, 100),
        trap_z: Fx::from_ratio(55, 100),
        trap_r: Fx::from_ratio(1, 10),
    }
}

#[test]
fn julia_zero_iterations_is_finite() {
    // no iterations: immediate escape with a zero magnitude, and the
    // estimate degenerates to exactly zero
    let j = DistanceField::Julia(plain_julia(0));
    assert_eq!(j.get_distance(&v3(5, 7, -3)).bits, 0);
}

#[test]
fn julia_ground_clip_takes_over_above_plane() {
    let mut shape = plain_julia(0);
    shape.cut = true;
    let j = DistanceField::Julia(shape);
    // the plain estimate is 0 here, so the clip term p.y wins above 0
    assert_eq!(j.get_distance(&v3(0, 5, 0)).bits, 5 * FX_SCALE);
    assert_eq!(j.get_distance(&v3(0, -5, 0)).bits, 0);
}

#[test]
fn julia_far_point_escapes_with_positive_distance() {
    let j = DistanceField::Julia(plain_julia(2000));
    // far from the set the estimate is positive and finite
    let d = j.get_distance(&v3(5, 5, 5)).bits;
    assert!(d > 0);
    assert!(d < i64::MAX);
}

#[test]
fn julia_distant_trap_does_not_shrink_estimate() {
    let plain = DistanceField::Julia(plain_julia(2000));
    let mut shape = plain_julia(2000);
    shape.traps = true;
    let trapped = DistanceField::Julia(shape);
    // the orbit escapes at once, far from the trap circle, so the trap
    // term leaves the estimate alone
    let p = v3(5, 5, 5);
    assert_eq!(trapped.get_distance(&p).bits, plain.get_distance(&p).bits);
}

#[test]
fn sphere_field_varies_within_distance_plus_slack() {
    // the grid Lipschitz bound on sample point pairs: the field value
    // moves by at most the fixed-point distance plus the rounding slack
    let s = DistanceField::Sphere(Sphere { pos: v3(1, -2, 3), size: Fx::from_ratio(3, 2) });
    let pairs = [
        (v3(0, 0, 0), v3(4, 1, -2)),
        (v3(1, -2, 3), v3(1, -2, 4)),
        (v3(-5, 7, 2), v3(6, -3, 1)),
    ];
    for (a, b) in pairs {
        let da = s.get_distance(&a).bits;
        let db = s.get_distance(&b).bits;
        let dist = a.sub(&b).length().bits;
        assert!((da - db).abs() <= dist + ray_marcher::vec3::FX_LENGTH_SLACK);
    }
}

#[test]
fn evaluation_is_pure() {
    let j = DistanceField::Julia(plain_julia(50));
    let p = Vec3::new(Fx::from_ratio(1, 3), Fx::from_ratio(-2, 7), Fx::from_ratio(5, 11));
    let first = j.get_distance(&p).bits;
    let second = j.get_distance(&p).bits;
    assert_eq!(first, second);
    let s = DistanceField::Sphere(unit_sphere_at_origin());
    assert_eq!(s.get_distance(&p).bits, s.get_distance(&p).bits);
}
