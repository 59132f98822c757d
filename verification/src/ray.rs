//! Rays: an origin and a direction that is normalized on construction.

use crate::fx::{fx_of, Fx};
use crate::vec3::Vec3;
use vstd::prelude::*;

verus! {

#[derive(Clone, Copy, PartialEq, Eq, Structural, Debug)]
pub struct Ray {
    pub orig: Vec3,
    pub dir: Vec3,
}

impl Ray {
    /// The point at parametric distance `t` along the ray.
    pub open spec fn at_spec(self, t: int) -> Vec3 {
        self.orig.add_spec(self.dir.scale_spec(t))
    }

    pub fn new(orig: &Vec3, dir: &Vec3) -> (r: Ray)
        ensures
            r.orig == *orig,
            r.dir == dir.normalize_spec(),
    {
        Ray { orig: *orig, dir: dir.normalize() }
    }

    pub fn at(&self, t: Fx) -> (p: Vec3)
        ensures
            p == self.at_spec(t@),
    {
        self.orig.add(&self.dir.scale(t))
    }
}

} // verus!
