//! Axis-aligned rectangles in the planes `z = k`, `y = k` and `x = k`.

use crate::aabb::AABB;
use crate::hittable::HitRecord;
use crate::materials::Material;
use crate::ray::Ray;
use crate::scalar::Scalar;
use crate::sphere::in_span;
use crate::vec3::Vec3;
use std::sync::Arc;
use vstd::prelude::*;

verus! {

pub struct XYRect {
    pub material: Arc<Material>,
    pub x0: Scalar,
    pub x1: Scalar,
    pub y0: Scalar,
    pub y1: Scalar,
    pub k: Scalar,
}

pub struct XZRect {
    pub material: Arc<Material>,
    pub x0: Scalar,
    pub x1: Scalar,
    pub z0: Scalar,
    pub z1: Scalar,
    pub k: Scalar,
}

pub struct YZRect {
    pub material: Arc<Material>,
    pub y0: Scalar,
    pub y1: Scalar,
    pub z0: Scalar,
    pub z1: Scalar,
    pub k: Scalar,
}

/// Half the thickness that a rectangle's bounding box is given: one
/// ten-thousandth.
pub open spec fn spec_pad() -> Scalar {
    Scalar::from_ratio(1, 10000)
}

#[verifier::when_used_as_spec(spec_pad)]
pub fn pad() -> (r: Scalar)
    ensures
        r == spec_pad(),
{
    Scalar::from_ratio(1, 10000)
}

/// The hit of a ray on the rectangle `[a0, a1] x [b0, b1]` of the plane
/// in which the coordinate of axis `k_axis` is `k`; `a_axis` and `b_axis`
/// are the axes of the plane. The ray meets the plane at
/// `t = (k - origin) / direction` along `k_axis`; it hits where `t` lies in
/// `[t_min, t_max]` and the point met lies in the rectangle. A ray that runs
/// parallel to the plane hits nothing. The surface coordinates are the
/// position within the rectangle, and the normal is the unit vector of
/// `k_axis`, turned against the ray.
#[verifier::opaque]
pub open spec fn plane_hit_spec(
    ray: &Ray,
    t_min: Scalar,
    t_max: Scalar,
    k_axis: usize,
    a_axis: usize,
    b_axis: usize,
    a0: Scalar,
    a1: Scalar,
    b0: Scalar,
    b1: Scalar,
    k: Scalar,
    material: Arc<Material>,
) -> Option<HitRecord> {
    let slope = ray.direction.axis(k_axis);
    let t = k.minus(ray.origin.axis(k_axis)).over(slope);
    let a = ray.origin.axis(a_axis).plus(ray.direction.axis(a_axis).times(t));
    let b = ray.origin.axis(b_axis).plus(ray.direction.axis(b_axis).times(t));
    if slope@ == 0 || !in_span(t, t_min, t_max) {
        None
    } else if a@ < a0@ || a@ > a1@ || b@ < b0@ || b@ > b1@ {
        None
    } else {
        Some(
            HitRecord::new(ray.at(t), material, t).with_uv(
                a.minus(a0).over(a1.minus(a0)),
                b.minus(b0).over(b1.minus(b0)),
            ).with_face_normal(ray, Vec3::unit(k_axis)),
        )
    }
}

/// A rectangle is hit within the interval asked for.
pub proof fn lemma_plane_hit_in_span(
    ray: Ray,
    t_min: Scalar,
    t_max: Scalar,
    k_axis: usize,
    a_axis: usize,
    b_axis: usize,
    a0: Scalar,
    a1: Scalar,
    b0: Scalar,
    b1: Scalar,
    k: Scalar,
    material: Arc<Material>,
)
    ensures
        plane_hit_spec(&ray, t_min, t_max, k_axis, a_axis, b_axis, a0, a1, b0, b1, k, material)
            matches Some(record) ==> in_span(record.t, t_min, t_max),
{
    reveal(plane_hit_spec);
}

fn plane_hit(
    ray: &Ray,
    t_min: Scalar,
    t_max: Scalar,
    k_axis: usize,
    a_axis: usize,
    b_axis: usize,
    a0: Scalar,
    a1: Scalar,
    b0: Scalar,
    b1: Scalar,
    k: Scalar,
    material: &Arc<Material>,
) -> (r: Option<HitRecord>)
    requires
        k_axis < 3,
        a_axis < 3,
        b_axis < 3,
    ensures
        r == plane_hit_spec(
            ray,
            t_min,
            t_max,
            k_axis,
            a_axis,
            b_axis,
            a0,
            a1,
            b0,
            b1,
            k,
            *material,
        ),
        r matches Some(record) ==> in_span(record.t, t_min, t_max),
{
    reveal(plane_hit_spec);
    let slope: Scalar = ray.direction.axis(k_axis);
    if slope.is_zero() {
        return None;
    }
    let t: Scalar = k.minus(ray.origin.axis(k_axis)).over(slope);
    if t.lt(t_min) || t_max.lt(t) {
        return None;
    }
    let a: Scalar = ray.origin.axis(a_axis).plus(ray.direction.axis(a_axis).times(t));
    let b: Scalar = ray.origin.axis(b_axis).plus(ray.direction.axis(b_axis).times(t));
    if a.lt(a0) || a1.lt(a) || b.lt(b0) || b1.lt(b) {
        return None;
    }
    let mut record: HitRecord = HitRecord::new(ray.at(t), material.clone(), t);
    record.u = a.minus(a0).over(a1.minus(a0));
    record.v = b.minus(b0).over(b1.minus(b0));
    record.set_face_normal(ray, Vec3::unit(k_axis));
    Some(record)
}

impl XYRect {
    pub open spec fn spec_new(
        material: Arc<Material>,
        x0: Scalar,
        x1: Scalar,
        y0: Scalar,
        y1: Scalar,
        k: Scalar,
    ) -> XYRect {
        XYRect { material, x0, x1, y0, y1, k }
    }

    /// The rectangle `[x0, x1] x [y0, y1]` in the plane `z = k`.
    #[verifier::when_used_as_spec(spec_new)]
    pub fn new(
        material: Arc<Material>,
        x0: Scalar,
        x1: Scalar,
        y0: Scalar,
        y1: Scalar,
        k: Scalar,
    ) -> (r: XYRect)
        ensures
            r == XYRect::spec_new(material, x0, x1, y0, y1, k),
    {
        XYRect { material, x0, x1, y0, y1, k }
    }

    pub open spec fn hit_spec(&self, ray: &Ray, t_min: Scalar, t_max: Scalar) -> Option<HitRecord> {
        plane_hit_spec(
            ray,
            t_min,
            t_max,
            2,
            0,
            1,
            self.x0,
            self.x1,
            self.y0,
            self.y1,
            self.k,
            self.material,
        )
    }

    pub fn hit(&self, ray: &Ray, t_min: Scalar, t_max: Scalar) -> (r: Option<HitRecord>)
        ensures
            r == self.hit_spec(ray, t_min, t_max),
            r matches Some(record) ==> in_span(record.t, t_min, t_max),
    {
        plane_hit(
            ray,
            t_min,
            t_max,
            2,
            0,
            1,
            self.x0,
            self.x1,
            self.y0,
            self.y1,
            self.k,
            &self.material,
        )
    }

    pub open spec fn bounding_box_spec(&self) -> AABB {
        AABB::new(
            Vec3::new(self.x0, self.y0, self.k.minus(pad())),
            Vec3::new(self.x1, self.y1, self.k.plus(pad())),
        )
    }

    /// The rectangle, thickened by `PAD` on either side of its plane.
    pub fn bounding_box(&self, time0: Scalar, time1: Scalar) -> (r: Option<AABB>)
        ensures
            r == Some(self.bounding_box_spec()),
    {
        Some(
            AABB::new(
                Vec3::new(self.x0, self.y0, self.k.minus(pad())),
                Vec3::new(self.x1, self.y1, self.k.plus(pad())),
            ),
        )
    }
}

impl XZRect {
    pub open spec fn spec_new(
        material: Arc<Material>,
        x0: Scalar,
        x1: Scalar,
        z0: Scalar,
        z1: Scalar,
        k: Scalar,
    ) -> XZRect {
        XZRect { material, x0, x1, z0, z1, k }
    }

    /// The rectangle `[x0, x1] x [z0, z1]` in the plane `y = k`.
    #[verifier::when_used_as_spec(spec_new)]
    pub fn new(
        material: Arc<Material>,
        x0: Scalar,
        x1: Scalar,
        z0: Scalar,
        z1: Scalar,
        k: Scalar,
    ) -> (r: XZRect)
        ensures
            r == XZRect::spec_new(material, x0, x1, z0, z1, k),
    {
        XZRect { material, x0, x1, z0, z1, k }
    }

    pub open spec fn hit_spec(&self, ray: &Ray, t_min: Scalar, t_max: Scalar) -> Option<HitRecord> {
        plane_hit_spec(
            ray,
            t_min,
            t_max,
            1,
            0,
            2,
            self.x0,
            self.x1,
            self.z0,
            self.z1,
            self.k,
            self.material,
        )
    }

    pub fn hit(&self, ray: &Ray, t_min: Scalar, t_max: Scalar) -> (r: Option<HitRecord>)
        ensures
            r == self.hit_spec(ray, t_min, t_max),
            r matches Some(record) ==> in_span(record.t, t_min, t_max),
    {
        plane_hit(
            ray,
            t_min,
            t_max,
            1,
            0,
            2,
            self.x0,
            self.x1,
            self.z0,
            self.z1,
            self.k,
            &self.material,
        )
    }

    pub open spec fn bounding_box_spec(&self) -> AABB {
        AABB::new(
            Vec3::new(self.x0, self.k.minus(pad()), self.z0),
            Vec3::new(self.x1, self.k.plus(pad()), self.z1),
        )
    }

    /// The rectangle, thickened by `PAD` on either side of its plane.
    pub fn bounding_box(&self, time0: Scalar, time1: Scalar) -> (r: Option<AABB>)
        ensures
            r == Some(self.bounding_box_spec()),
    {
        Some(
            AABB::new(
                Vec3::new(self.x0, self.k.minus(pad()), self.z0),
                Vec3::new(self.x1, self.k.plus(pad()), self.z1),
            ),
        )
    }
}

impl YZRect {
    pub open spec fn spec_new(
        material: Arc<Material>,
        y0: Scalar,
        y1: Scalar,
        z0: Scalar,
        z1: Scalar,
        k: Scalar,
    ) -> YZRect {
        YZRect { material, y0, y1, z0, z1, k }
    }

    /// The rectangle `[y0, y1] x [z0, z1]` in the plane `x = k`.
    #[verifier::when_used_as_spec(spec_new)]
    pub fn new(
        material: Arc<Material>,
        y0: Scalar,
        y1: Scalar,
        z0: Scalar,
        z1: Scalar,
        k: Scalar,
    ) -> (r: YZRect)
        ensures
            r == YZRect::spec_new(material, y0, y1, z0, z1, k),
    {
        YZRect { material, y0, y1, z0, z1, k }
    }

    pub open spec fn hit_spec(&self, ray: &Ray, t_min: Scalar, t_max: Scalar) -> Option<HitRecord> {
        plane_hit_spec(
            ray,
            t_min,
            t_max,
            0,
            1,
            2,
            self.y0,
            self.y1,
            self.z0,
            self.z1,
            self.k,
            self.material,
        )
    }

    pub fn hit(&self, ray: &Ray, t_min: Scalar, t_max: Scalar) -> (r: Option<HitRecord>)
        ensures
            r == self.hit_spec(ray, t_min, t_max),
            r matches Some(record) ==> in_span(record.t, t_min, t_max),
    {
        plane_hit(
            ray,
            t_min,
            t_max,
            0,
            1,
            2,
            self.y0,
            self.y1,
            self.z0,
            self.z1,
            self.k,
            &self.material,
        )
    }

    pub open spec fn bounding_box_spec(&self) -> AABB {
        AABB::new(
            Vec3::new(self.k.minus(pad()), self.y0, self.z0),
            Vec3::new(self.k.plus(pad()), self.y1, self.z1),
        )
    }

    /// The rectangle, thickened by `PAD` on either side of its plane.
    pub fn bounding_box(&self, time0: Scalar, time1: Scalar) -> (r: Option<AABB>)
        ensures
            r == Some(self.bounding_box_spec()),
    {
        Some(
            AABB::new(
                Vec3::new(self.k.minus(pad()), self.y0, self.z0),
                Vec3::new(self.k.plus(pad()), self.y1, self.z1),
            ),
        )
    }
}

} // verus!
