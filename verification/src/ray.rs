//! Rays: a parametric line `origin + t * direction` with the time at which
//! it was cast.

use crate::scalar::Scalar;
use crate::vec3::Vec3;
use vstd::prelude::*;

verus! {

#[derive(Clone, Copy, Debug)]
pub struct Ray {
    pub origin: Vec3,
    pub direction: Vec3,
    pub time: Scalar,
}

impl Ray {
    pub open spec fn spec_new(origin: Vec3, direction: Vec3, time: Scalar) -> Ray {
        Ray { origin, direction, time }
    }

    #[verifier::when_used_as_spec(spec_new)]
    pub fn new(origin: Vec3, direction: Vec3, time: Scalar) -> (r: Ray)
        ensures
            r == Ray::spec_new(origin, direction, time),
    {
        Ray { origin, direction, time }
    }

    pub open spec fn spec_at(&self, t: Scalar) -> Vec3 {
        self.origin.plus(self.direction.scale(t))
    }

    /// The point of the ray at parameter `t`.
    #[verifier::when_used_as_spec(spec_at)]
    pub fn at(&self, t: Scalar) -> (p: Vec3)
        ensures
            p == self.spec_at(t),
    {
        self.origin.plus(self.direction.scale(t))
    }
}

} // verus!
