//! The rectangle of the image plane that a camera looks through.

use crate::scalar::Scalar;
use crate::vec3::Vec3;
use vstd::prelude::*;

verus! {

#[derive(Clone, Copy, Debug)]
pub struct Viewport {
    pub width: u32,
    pub height: u32,
    pub focal_length: Scalar,
    pub origin: Vec3,
    pub horizontal: Vec3,
    pub vertical: Vec3,
    pub lower_left_corner: Vec3,
}

impl Viewport {
    pub open spec fn spec_new(
        width: u32,
        height: u32,
        focal_length: Scalar,
        origin: Vec3,
        horizontal: Vec3,
        vertical: Vec3,
        lower_left_corner: Vec3,
    ) -> Viewport {
        Viewport { width, height, focal_length, origin, horizontal, vertical, lower_left_corner }
    }

    #[verifier::when_used_as_spec(spec_new)]
    pub fn new(
        width: u32,
        height: u32,
        focal_length: Scalar,
        origin: Vec3,
        horizontal: Vec3,
        vertical: Vec3,
        lower_left_corner: Vec3,
    ) -> (r: Viewport)
        ensures
            r == Viewport::spec_new(
                width,
                height,
                focal_length,
                origin,
                horizontal,
                vertical,
                lower_left_corner,
            ),
    {
        Viewport { width, height, focal_length, origin, horizontal, vertical, lower_left_corner }
    }
}

} // verus!
