//! A shape moved by an offset.

use crate::aabb::AABB;
use crate::hittable::{HitRecord, Hittable};
use crate::ray::Ray;
use crate::scalar::Scalar;
use crate::sphere::in_span;
use crate::vec3::Vec3;
use std::sync::Arc;
use vstd::prelude::*;

verus! {

pub struct Translate {
    pub to_translate: Arc<Hittable>,
    pub offset: Vec3,
}

impl Translate {
    pub open spec fn spec_new(to_translate: Arc<Hittable>, offset: Vec3) -> Translate {
        Translate { to_translate, offset }
    }

    #[verifier::when_used_as_spec(spec_new)]
    pub fn new(to_translate: Arc<Hittable>, offset: Vec3) -> (r: Translate)
        ensures
            r == Translate::spec_new(to_translate, offset),
    {
        Translate { to_translate, offset }
    }

    /// The ray as the shape sees it: its origin moved back by the offset.
    pub open spec fn into_object(&self, ray: &Ray) -> Ray {
        Ray::new(ray.origin.minus(self.offset), ray.direction, ray.time)
    }

    /// A hit on the shape, seen from outside: its position moved by the
    /// offset.
    pub open spec fn out_of_object(&self, hit: Option<HitRecord>) -> Option<HitRecord> {
        match hit {
            Some(record) => Some(record.with_position(record.position.plus(self.offset))),
            None => None,
        }
    }

    /// A box around the shape, seen from outside: both corners moved by the
    /// offset.
    pub open spec fn move_box(&self, inner: Option<AABB>) -> Option<AABB> {
        match inner {
            Some(b) => Some(AABB::new(b.min.plus(self.offset), b.max.plus(self.offset))),
            None => None,
        }
    }

    pub fn hit(&self, ray: &Ray, t_min: Scalar, t_max: Scalar) -> (r: Option<HitRecord>)
        ensures
            exists|inner: Option<HitRecord>|
                self.to_translate.may_hit(&self.into_object(ray), t_min, t_max, inner) && r
                    == #[trigger] self.out_of_object(inner),
            self.to_translate.deterministic() ==> r == self.out_of_object(
                self.to_translate.hit_spec(&self.into_object(ray), t_min, t_max),
            ),
            r matches Some(record) ==> in_span(record.t, t_min, t_max),
        decreases self, 0int,
    {
        let moved_r: Ray = Ray::new(ray.origin.minus(self.offset), ray.direction, ray.time);
        let inner: Option<HitRecord> = self.to_translate.hit(&moved_r, t_min, t_max);
        let ghost found = inner;
        let r = match inner {
            Some(rec) => {
                let mut rec = rec;
                rec.position = rec.position.plus(self.offset);
                Some(rec)
            },
            None => None,
        };
        assert(r == self.out_of_object(found));
        r
    }

    pub fn bounding_box(&self, time0: Scalar, time1: Scalar) -> (r: Option<AABB>)
        ensures
            r == self.move_box(self.to_translate.bounding_box_spec(time0, time1)),
        decreases self, 0int,
    {
        match self.to_translate.bounding_box(time0, time1) {
            Some(output_box) => Some(
                AABB::new(output_box.min.plus(self.offset), output_box.max.plus(self.offset)),
            ),
            None => None,
        }
    }
}

} // verus!
