//! The camera: from a point of the image to a ray into the scene.

use crate::random::{is_unit, random_double};
use crate::ray::Ray;
use crate::scalar::Scalar;
use crate::vec3::Vec3;
use vstd::prelude::*;

verus! {

#[derive(Clone, Copy, Debug)]
pub struct Camera {
    pub origin: Vec3,
    pub lower_left_corner: Vec3,
    pub horizontal: Vec3,
    pub vertical: Vec3,
    pub u: Vec3,
    pub v: Vec3,
    pub w: Vec3,
    pub lens_radius: Scalar,
    pub time0: Scalar,
    pub time1: Scalar,
}

impl Camera {
    pub open spec fn spec_new(
        look_from: Vec3,
        look_at: Vec3,
        view_up: Vec3,
        vertical_fov: Scalar,
        aspect_ratio: Scalar,
        aperture: Scalar,
        focus_distance: Scalar,
        time0: Scalar,
        time1: Scalar,
    ) -> Camera {
        let theta = vertical_fov.to_radians();
        let h = theta.over(Scalar::from_int(2)).tan();
        let viewport_height = Scalar::from_int(2).times(h);
        let viewport_width = aspect_ratio.times(viewport_height);
        let w = look_from.minus(look_at).unit_vector();
        let u = view_up.cross(w).unit_vector();
        let v = w.cross(u);
        let horizontal = u.scale(viewport_width).scale(focus_distance);
        let vertical = v.scale(viewport_height).scale(focus_distance);
        Camera {
            origin: look_from,
            lower_left_corner: look_from.minus(horizontal.shrink(Scalar::from_int(2))).minus(
                vertical.shrink(Scalar::from_int(2)),
            ).minus(w.scale(focus_distance)),
            horizontal,
            vertical,
            u,
            v,
            w,
            lens_radius: aperture.over(Scalar::from_int(2)),
            time0,
            time1,
        }
    }

    /// A camera at `look_from` that looks at `look_at` with `view_up`
    /// upward. The vertical field of view is in degrees; the viewport lies
    /// at the focus distance, and the lens has the diameter `aperture`. The
    /// shutter is open from `time0` to `time1`.
    #[verifier::when_used_as_spec(spec_new)]
    pub fn new(
        look_from: Vec3,
        look_at: Vec3,
        view_up: Vec3,
        vertical_fov: Scalar,
        aspect_ratio: Scalar,
        aperture: Scalar,
        focus_distance: Scalar,
        time0: Scalar,
        time1: Scalar,
    ) -> (r: Camera)
        ensures
            r == Camera::spec_new(
                look_from,
                look_at,
                view_up,
                vertical_fov,
                aspect_ratio,
                aperture,
                focus_distance,
                time0,
                time1,
            ),
    {
        let theta: Scalar = vertical_fov.to_radians();
        let h: Scalar = theta.over(Scalar::from_int(2)).tan();
        let viewport_height: Scalar = Scalar::from_int(2).times(h);
        let viewport_width: Scalar = aspect_ratio.times(viewport_height);
        let w: Vec3 = look_from.minus(look_at).unit_vector();
        let u: Vec3 = view_up.cross(w).unit_vector();
        let v: Vec3 = w.cross(u);
        let origin: Vec3 = look_from;
        let horizontal: Vec3 = u.scale(viewport_width).scale(focus_distance);
        let vertical: Vec3 = v.scale(viewport_height).scale(focus_distance);
        let lower_left_corner: Vec3 = origin.minus(horizontal.shrink(Scalar::from_int(2))).minus(
            vertical.shrink(Scalar::from_int(2)),
        ).minus(w.scale(focus_distance));
        Camera {
            origin,
            lower_left_corner,
            horizontal,
            vertical,
            u,
            v,
            w,
            lens_radius: aperture.over(Scalar::from_int(2)),
            time0,
            time1,
        }
    }

    /// The ray through the viewport at `(s, t)` from the point of the lens
    /// that `lens`, a point of the unit disk, selects, cast at the time
    /// of the shutter interval that `moment`, a number of `[0, 1)`,
    /// selects.
    pub open spec fn ray_spec(&self, s: Scalar, t: Scalar, lens: Vec3, moment: Scalar) -> Ray {
        let rd = lens.scale(self.lens_radius);
        let offset = self.u.scale(rd.x).plus(self.v.scale(rd.y));
        Ray::new(
            self.origin.plus(offset),
            self.lower_left_corner.plus(self.horizontal.scale(s)).plus(
                self.vertical.scale(t),
            ).minus(self.origin).minus(offset),
            self.time0.plus(self.time1.minus(self.time0).times(moment)),
        )
    }

    /// `get_ray` for given random draws.
    pub fn get_ray_with(&self, s: Scalar, t: Scalar, lens: Vec3, moment: Scalar) -> (r: Ray)
        ensures
            r == self.ray_spec(s, t, lens, moment),
    {
        let rd: Vec3 = lens.scale(self.lens_radius);
        let offset: Vec3 = self.u.scale(rd.x).plus(self.v.scale(rd.y));
        Ray::new(
            self.origin.plus(offset),
            self.lower_left_corner.plus(self.horizontal.scale(s)).plus(
                self.vertical.scale(t),
            ).minus(self.origin).minus(offset),
            self.time0.plus(self.time1.minus(self.time0).times(moment)),
        )
    }

    /// A ray through the viewport at `(s, t)`, from a random point of the
    /// lens and at a random time while the shutter is open.
    pub fn get_ray(&self, s: Scalar, t: Scalar) -> (r: Ray)
        ensures
            exists|lens: Vec3, moment: Scalar|
                Vec3::in_unit_disk(lens) && is_unit(moment) && r == #[trigger] self.ray_spec(
                    s,
                    t,
                    lens,
                    moment,
                ),
    {
        let lens: Vec3 = Vec3::random_in_unit_disk();
        let moment: Scalar = random_double();
        let r = self.get_ray_with(s, t, lens, moment);
        assert(Vec3::in_unit_disk(lens) && is_unit(moment) && r == self.ray_spec(
            s,
            t,
            lens,
            moment,
        ));
        r
    }
}

} // verus!
