//! The pinhole camera: a viewport basis built once from an origin and a
//! look-at point, and the per-pixel mapping from raster coordinates to
//! a world-space ray and on to a quantized color.

use crate::fx::{fx_div_spec, fx_mul_spec, sat64, Fx};
use crate::ray::Ray;
use crate::ray_marching::{ray_marching_spec, RayMarcher};
use crate::vec3::Vec3;
use crate::vec4::px_spec;
use vstd::prelude::*;

verus! {

/// A viewport in world space: the eye, the direction to the lower-left
/// corner, and the two vectors that span the image plane.
#[derive(Clone, Copy, PartialEq, Eq, Structural, Debug)]
pub struct Camera {
    pub origin: Vec3,
    pub ll_corner: Vec3,
    pub horizontal: Vec3,
    pub vertical: Vec3,
}

/// The viewport basis: look from `origin` toward `looking_at`, span a
/// plane of the given height and aspect ratio at the focal distance,
/// and aim `ll_corner` at its lower-left corner.
pub open spec fn create_camera_spec(
    origin: Vec3,
    looking_at: Vec3,
    viewport_height: int,
    aspect_ratio: int,
    focal_length: int,
) -> Camera {
    let up = Vec3 { x: (Fx { bits: 0 }), y: (Fx { bits: 1048576 }), z: (Fx { bits: 0 }) };
    let half = 524288int;
    let viewport_width = fx_mul_spec(aspect_ratio, viewport_height);
    let view_direction = looking_at.sub_spec(origin).normalize_spec();
    let horizontal = Vec3::cross_spec(view_direction, up).normalize_spec().scale_spec(
        viewport_width,
    );
    let vertical = Vec3::cross_spec(view_direction, horizontal).normalize_spec().neg_spec()
        .scale_spec(viewport_height);
    let ll_view_corner = horizontal.neg_spec().scale_spec(half).sub_spec(
        vertical.scale_spec(half),
    );
    let ll_corner = ll_view_corner.add_spec(view_direction.scale_spec(focal_length));
    Camera { origin, ll_corner, horizontal, vertical }
}

pub fn create_camera(
    origin: &Vec3,
    looking_at: &Vec3,
    viewport_height: Fx,
    aspect_ratio: Fx,
    focal_length: Fx,
) -> (cam: Camera)
    ensures
        cam == create_camera_spec(
            *origin,
            *looking_at,
            viewport_height@,
            aspect_ratio@,
            focal_length@,
        ),
{
    let up = Vec3::new(Fx::zero(), Fx::one(), Fx::zero());
    let half = Fx::from_bits(524288);
    let viewport_width = aspect_ratio.mul(viewport_height);
    let view_direction = looking_at.sub(origin).normalize();
    let horizontal = Vec3::cross(&view_direction, &up).normalize().scale(viewport_width);
    let vertical = Vec3::cross(&view_direction, &horizontal).normalize().neg().scale(
        viewport_height,
    );
    let ll_view_corner = horizontal.neg().scale(half).sub(&vertical.scale(half));
    let ll_corner = ll_view_corner.add(&view_direction.scale(focal_length));
    Camera { origin: *origin, ll_corner, horizontal, vertical }
}

/// One pixel's color: raster coordinates to viewport fractions, the
/// fractions to a point on the image plane, a ray through that point,
/// and the marched color quantized to 8-bit channels.
pub open spec fn calc_pixel_spec(
    rm: RayMarcher,
    cam: Camera,
    i: u32,
    j: u32,
    width: u32,
    height: u32,
) -> (int, int, int) {
    let u = fx_div_spec(sat64(i * 1048576), sat64((width - 1) * 1048576));
    let v = fx_div_spec(sat64(j * 1048576), sat64((height - 1) * 1048576));
    let pixel_pos = cam.ll_corner.add_spec(cam.horizontal.scale_spec(u)).add_spec(
        cam.vertical.scale_spec(v),
    );
    let r = Ray { orig: cam.origin, dir: pixel_pos.normalize_spec() };
    let c = ray_marching_spec(rm, r);
    (px_spec(c.x@), px_spec(c.y@), px_spec(c.z@))
}

pub fn calc_pixel(rm: &RayMarcher, cam: &Camera, i: u32, j: u32, width: u32, height: u32) -> (r: (
    u8,
    u8,
    u8,
))
    requires
        width >= 1,
        height >= 1,
    ensures
        (r.0 as int, r.1 as int, r.2 as int) == calc_pixel_spec(*rm, *cam, i, j, width, height),
{
    let u = Fx::from_int(i as i64).div(Fx::from_int((width - 1) as i64));
    let v = Fx::from_int(j as i64).div(Fx::from_int((height - 1) as i64));

    let pixel_pos = cam.ll_corner.add(&cam.horizontal.scale(u)).add(&cam.vertical.scale(v));

    let r = Ray::new(&cam.origin, &pixel_pos);
    let pixel_color = rm.ray_marching(r);

    pixel_color.to_pixel_data()
}

} // verus!
