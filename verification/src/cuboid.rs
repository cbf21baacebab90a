//! A box: six rectangles that close an axis-aligned solid.

use crate::aabb::AABB;
use crate::hittable::{HitRecord, Hittable, HittableList};
use crate::materials::Material;
use crate::ray::Ray;
use crate::rectangle::{XYRect, XZRect, YZRect};
use crate::scalar::Scalar;
use crate::sphere::in_span;
use crate::vec3::Vec3;
use std::sync::Arc;
use vstd::prelude::*;

verus! {

pub struct Box {
    pub box_min: Vec3,
    pub box_max: Vec3,
    pub sides: HittableList,
}

impl Box {
    /// The `i`-th side of the box between the corners `p0` and `p1`: the
    /// two faces across z, far one first, then those across y and across
    /// x.
    pub open spec fn side(p0: Vec3, p1: Vec3, material: Arc<Material>, i: int) -> Hittable {
        if i == 0 {
            Hittable::XYRect(XYRect::new(material, p0.x, p1.x, p0.y, p1.y, p1.z))
        } else if i == 1 {
            Hittable::XYRect(XYRect::new(material, p0.x, p1.x, p0.y, p1.y, p0.z))
        } else if i == 2 {
            Hittable::XZRect(XZRect::new(material, p0.x, p1.x, p0.z, p1.z, p1.y))
        } else if i == 3 {
            Hittable::XZRect(XZRect::new(material, p0.x, p1.x, p0.z, p1.z, p0.y))
        } else if i == 4 {
            Hittable::YZRect(YZRect::new(material, p0.y, p1.y, p0.z, p1.z, p1.x))
        } else {
            Hittable::YZRect(YZRect::new(material, p0.y, p1.y, p0.z, p1.z, p0.x))
        }
    }

    /// The solid between the corners `p0` and `p1`, all six sides of one
    /// material.
    pub fn new(p0: Vec3, p1: Vec3, material: Arc<Material>) -> (r: Box)
        ensures
            r.box_min == p0,
            r.box_max == p1,
            r.sides.objects@.len() == 6,
            forall|i: int| 0 <= i < 6 ==> *#[trigger] r.sides.objects@[i] == Box::side(
                p0,
                p1,
                material,
                i,
            ),
            r.deterministic(),
    {
        let mut sides: HittableList = HittableList::new();
        sides.add(
            Arc::new(
                Hittable::XYRect(XYRect::new(material.clone(), p0.x, p1.x, p0.y, p1.y, p1.z)),
            ),
        );
        sides.add(
            Arc::new(
                Hittable::XYRect(XYRect::new(material.clone(), p0.x, p1.x, p0.y, p1.y, p0.z)),
            ),
        );
        sides.add(
            Arc::new(
                Hittable::XZRect(XZRect::new(material.clone(), p0.x, p1.x, p0.z, p1.z, p1.y)),
            ),
        );
        sides.add(
            Arc::new(
                Hittable::XZRect(XZRect::new(material.clone(), p0.x, p1.x, p0.z, p1.z, p0.y)),
            ),
        );
        sides.add(
            Arc::new(
                Hittable::YZRect(YZRect::new(material.clone(), p0.y, p1.y, p0.z, p1.z, p1.x)),
            ),
        );
        sides.add(
            Arc::new(
                Hittable::YZRect(YZRect::new(material.clone(), p0.y, p1.y, p0.z, p1.z, p0.x)),
            ),
        );
        proof {
            reveal_with_fuel(Hittable::all_deterministic, 7);
        }
        Box { box_min: p0, box_max: p1, sides }
    }

    /// Whether a hit on the box is a function of the ray and the interval:
    /// it is where it is so for every side.
    pub open spec fn deterministic(&self) -> bool {
        Hittable::all_deterministic(self.sides.objects@, self.sides.objects@.len() as int)
    }

    /// The nearest hit on any of the six sides.
    pub fn hit(&self, ray: &Ray, t_min: Scalar, t_max: Scalar) -> (r: Option<HitRecord>)
        ensures
            Hittable::may_hit_list(
                self.sides.objects@,
                ray,
                t_min,
                t_max,
                self.sides.objects@.len() as int,
                r,
            ),
            Hittable::all_deterministic(self.sides.objects@, self.sides.objects@.len() as int)
                ==> r == Hittable::list_hit_spec(
                self.sides.objects@,
                ray,
                t_min,
                t_max,
                self.sides.objects@.len() as int,
            ),
            r matches Some(record) ==> in_span(record.t, t_min, t_max),
        decreases self, 0int,
    {
        self.sides.hit(ray, t_min, t_max)
    }

    pub open spec fn bounding_box_spec(&self) -> AABB {
        AABB::new(self.box_min, self.box_max)
    }

    /// The box itself.
    pub fn bounding_box(&self, time0: Scalar, time1: Scalar) -> (r: Option<AABB>)
        ensures
            r == Some(self.bounding_box_spec()),
    {
        Some(AABB::new(self.box_min, self.box_max))
    }
}

} // verus!
