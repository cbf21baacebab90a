//! A shape turned about the y axis.

use crate::aabb::AABB;
use crate::hittable::{HitRecord, Hittable};
use crate::ray::Ray;
use crate::scalar::Scalar;
use crate::sphere::in_span;
use crate::vec3::Vec3;
use std::sync::Arc;
use vstd::prelude::*;

verus! {

pub struct RotateY {
    pub to_rotate: Arc<Hittable>,
    pub bbox: Option<AABB>,
    pub sin_theta: Scalar,
    pub cos_theta: Scalar,
}

/// `v` turned about the y axis by the angle of the given sine and cosine.
pub open spec fn turn_spec(v: Vec3, sin_theta: Scalar, cos_theta: Scalar) -> Vec3 {
    Vec3::new(
        cos_theta.times(v.x).plus(sin_theta.times(v.z)),
        v.y,
        sin_theta.neg().times(v.x).plus(cos_theta.times(v.z)),
    )
}

pub fn turn(v: Vec3, sin_theta: Scalar, cos_theta: Scalar) -> (r: Vec3)
    ensures
        r == turn_spec(v, sin_theta, cos_theta),
{
    Vec3::new(
        cos_theta.times(v.x).plus(sin_theta.times(v.z)),
        v.y,
        sin_theta.neg().times(v.x).plus(cos_theta.times(v.z)),
    )
}

/// `v` turned about the y axis the other way.
pub open spec fn turn_back_spec(v: Vec3, sin_theta: Scalar, cos_theta: Scalar) -> Vec3 {
    Vec3::new(
        cos_theta.times(v.x).minus(sin_theta.times(v.z)),
        v.y,
        sin_theta.times(v.x).plus(cos_theta.times(v.z)),
    )
}

pub fn turn_back(v: Vec3, sin_theta: Scalar, cos_theta: Scalar) -> (r: Vec3)
    ensures
        r == turn_back_spec(v, sin_theta, cos_theta),
{
    Vec3::new(
        cos_theta.times(v.x).minus(sin_theta.times(v.z)),
        v.y,
        sin_theta.times(v.x).plus(cos_theta.times(v.z)),
    )
}

/// The box around the first `n` corners of `inner`, each turned about the
/// y axis.
pub open spec fn turned_box(inner: AABB, sin_theta: Scalar, cos_theta: Scalar, n: int) -> AABB
    decreases n,
{
    if n <= 0 {
        AABB::empty()
    } else {
        let tester = turn_spec(inner.corner(n - 1), sin_theta, cos_theta);
        turned_box(inner, sin_theta, cos_theta, n - 1).surrounding_box(AABB::new(tester, tester))
    }
}

impl RotateY {
    pub open spec fn spec_new(to_rotate: Arc<Hittable>, angle: Scalar) -> RotateY {
        let sin_theta = angle.to_radians().sin();
        let cos_theta = angle.to_radians().cos();
        RotateY {
            to_rotate,
            bbox: match to_rotate.bounding_box_spec(Scalar::zero(), Scalar::one()) {
                Some(inner) => Some(turned_box(inner, sin_theta, cos_theta, 8)),
                None => None,
            },
            sin_theta,
            cos_theta,
        }
    }

    /// The shape turned about the y axis by `angle` degrees. Its box is
    /// that around the eight turned corners of the shape's own box over the
    /// times zero to one; a shape without bounds stays without.
    #[verifier::when_used_as_spec(spec_new)]
    pub fn new(to_rotate: Arc<Hittable>, angle: Scalar) -> (r: RotateY)
        ensures
            r == RotateY::spec_new(to_rotate, angle),
    {
        let radians: Scalar = angle.to_radians();
        let sin_theta: Scalar = radians.sin();
        let cos_theta: Scalar = radians.cos();
        let bbox: Option<AABB> = match to_rotate.bounding_box(Scalar::zero(), Scalar::one()) {
            None => None,
            Some(inner) => {
                let mut around: AABB = AABB::empty();
                let mut k: usize = 0;
                while k < 8
                    invariant
                        k <= 8,
                        around == turned_box(inner, sin_theta, cos_theta, k as int),
                    decreases 8 - k,
                {
                    let tester: Vec3 = turn(inner.get_corner(k), sin_theta, cos_theta);
                    around = around.surrounding_box(AABB::new(tester, tester));
                    k = k + 1;
                }
                Some(around)
            },
        };
        RotateY { to_rotate, bbox, sin_theta, cos_theta }
    }

    /// The ray as the shape sees it: origin and direction turned back.
    pub open spec fn into_object(&self, ray: &Ray) -> Ray {
        Ray::new(
            turn_back_spec(ray.origin, self.sin_theta, self.cos_theta),
            turn_back_spec(ray.direction, self.sin_theta, self.cos_theta),
            ray.time,
        )
    }

    /// A hit on the shape, seen from outside: position and normal turned,
    /// and the normal set against the ray that the shape saw.
    pub open spec fn out_of_object(&self, hit: Option<HitRecord>, rotated_ray: &Ray) -> Option<
        HitRecord,
    > {
        match hit {
            Some(record) => Some(
                record.with_position(
                    turn_spec(record.position, self.sin_theta, self.cos_theta),
                ).with_face_normal(
                    rotated_ray,
                    turn_spec(record.normal, self.sin_theta, self.cos_theta),
                ),
            ),
            None => None,
        }
    }

    pub fn hit(&self, ray: &Ray, t_min: Scalar, t_max: Scalar) -> (r: Option<HitRecord>)
        ensures
            exists|inner: Option<HitRecord>|
                self.to_rotate.may_hit(&self.into_object(ray), t_min, t_max, inner) && r
                    == #[trigger] self.out_of_object(inner, &self.into_object(ray)),
            self.to_rotate.deterministic() ==> r == self.out_of_object(
                self.to_rotate.hit_spec(&self.into_object(ray), t_min, t_max),
                &self.into_object(ray),
            ),
            r matches Some(record) ==> in_span(record.t, t_min, t_max),
        decreases self, 0int,
    {
        let rotated_ray: Ray = Ray::new(
            turn_back(ray.origin, self.sin_theta, self.cos_theta),
            turn_back(ray.direction, self.sin_theta, self.cos_theta),
            ray.time,
        );
        let inner: Option<HitRecord> = self.to_rotate.hit(&rotated_ray, t_min, t_max);
        let ghost found = inner;
        let r = match inner {
            Some(record) => {
                let mut record = record;
                let normal: Vec3 = turn(record.normal, self.sin_theta, self.cos_theta);
                record.position = turn(record.position, self.sin_theta, self.cos_theta);
                record.set_face_normal(&rotated_ray, normal);
                Some(record)
            },
            None => None,
        };
        assert(r == self.out_of_object(found, &rotated_ray));
        r
    }

    /// The box worked out when the shape was made.
    pub fn bounding_box(&self, time0: Scalar, time1: Scalar) -> (r: Option<AABB>)
        ensures
            r == self.bbox,
    {
        self.bbox
    }
}

} // verus!
