//! Spheres, at rest and moving.

use crate::aabb::AABB;
use crate::hittable::HitRecord;
use crate::materials::Material;
use crate::ray::Ray;
use crate::scalar::Scalar;
use crate::trig::HALF_PI_RAW;
use crate::vec3::Vec3;
use std::sync::Arc;
use vstd::prelude::*;

verus! {

pub struct Sphere {
    pub center: Vec3,
    pub radius: Scalar,
    pub material: Arc<Material>,
}

pub struct MovingSphere {
    pub center0: Vec3,
    pub center1: Vec3,
    pub time0: Scalar,
    pub time1: Scalar,
    pub radius: Scalar,
    pub material: Arc<Material>,
}

/// Whether `t` lies in `[t_min, t_max]`.
pub open spec fn in_span(t: Scalar, t_min: Scalar, t_max: Scalar) -> bool {
    t_min@ <= t@ <= t_max@
}

/// The parameter at which a ray meets the sphere of the given centre and
/// radius within `[t_min, t_max]`: of the two roots of
/// `a t^2 + 2 half_b t + c = 0` the smaller one where it lies in the
/// interval, else the larger one where that does. A ray without direction
/// and a negative discriminant meet nothing.
pub open spec fn sphere_root(
    center: Vec3,
    radius: Scalar,
    ray: &Ray,
    t_min: Scalar,
    t_max: Scalar,
) -> Option<Scalar> {
    let oc = ray.origin.minus(center);
    let a = ray.direction.length_squared();
    let half_b = oc.dot(ray.direction);
    let c = oc.length_squared().minus(radius.times(radius));
    let discriminant = half_b.times(half_b).minus(a.times(c));
    if a@ == 0 || discriminant@ < 0 {
        None
    } else {
        let discriminant_sqrt = discriminant.sqrt();
        let near = half_b.neg().minus(discriminant_sqrt).over(a);
        let far = half_b.neg().plus(discriminant_sqrt).over(a);
        if in_span(near, t_min, t_max) {
            Some(near)
        } else if in_span(far, t_min, t_max) {
            Some(far)
        } else {
            None
        }
    }
}

fn find_root(center: Vec3, radius: Scalar, ray: &Ray, t_min: Scalar, t_max: Scalar) -> (r: Option<
    Scalar,
>)
    ensures
        r == sphere_root(center, radius, ray, t_min, t_max),
        r matches Some(t) ==> in_span(t, t_min, t_max),
{
    let oc: Vec3 = ray.origin.minus(center);
    let a: Scalar = ray.direction.length_squared();
    let half_b: Scalar = oc.dot(ray.direction);
    let c: Scalar = oc.length_squared().minus(radius.times(radius));
    let discriminant: Scalar = half_b.times(half_b).minus(a.times(c));
    if a.is_zero() || discriminant.is_negative() {
        return None;
    }
    let discriminant_sqrt: Scalar = discriminant.sqrt();
    let mut root: Scalar = half_b.neg().minus(discriminant_sqrt).over(a);
    if root.lt(t_min) || t_max.lt(root) {
        root = half_b.neg().plus(discriminant_sqrt).over(a);
        if root.lt(t_min) || t_max.lt(root) {
            return None;
        }
    }
    Some(root)
}

/// The surface coordinates of a point of the unit sphere: `u` from its
/// angle around the y axis, `v` from its height, both in `[0, 1]`.
pub open spec fn sphere_uv(point: Vec3) -> (Scalar, Scalar) {
    let phi = point.z.atan2(point.x);
    let theta = point.y.asin();
    (
        Scalar::one().minus(phi.plus(Scalar::pi()).over(Scalar::pi().plus(Scalar::pi()))),
        theta.plus(Scalar { raw: HALF_PI_RAW }).over(Scalar::pi()),
    )
}

impl Sphere {
    pub open spec fn spec_new(center: Vec3, radius: Scalar, material: Arc<Material>) -> Sphere {
        Sphere { center, radius, material }
    }

    #[verifier::when_used_as_spec(spec_new)]
    pub fn new(center: Vec3, radius: Scalar, material: Arc<Material>) -> (r: Sphere)
        ensures
            r == Sphere::spec_new(center, radius, material),
    {
        Sphere { center, radius, material }
    }

    pub fn get_sphere_uv(&self, point: Vec3) -> (uv: (Scalar, Scalar))
        ensures
            uv == sphere_uv(point),
    {
        let phi: Scalar = point.z.atan2(point.x);
        let theta: Scalar = point.y.asin();
        (
            Scalar::one().minus(phi.plus(Scalar::pi()).over(Scalar::pi().plus(Scalar::pi()))),
            theta.plus(Scalar { raw: HALF_PI_RAW }).over(Scalar::pi()),
        )
    }

    /// The hit at the root that `sphere_root` finds: the normal is the
    /// radius through the hit point, turned against the ray, and the
    /// surface coordinates are those of the outward normal.
    #[verifier::opaque]
    pub open spec fn hit_spec(&self, ray: &Ray, t_min: Scalar, t_max: Scalar) -> Option<HitRecord> {
        match sphere_root(self.center, self.radius, ray, t_min, t_max) {
            None => None,
            Some(root) => {
                let position = ray.at(root);
                let outward_normal = position.minus(self.center).shrink(self.radius);
                let (u, v) = sphere_uv(outward_normal);
                Some(
                    HitRecord::new(position, self.material, root).with_face_normal(
                        ray,
                        outward_normal,
                    ).with_uv(u, v),
                )
            },
        }
    }

    pub fn hit(&self, ray: &Ray, t_min: Scalar, t_max: Scalar) -> (r: Option<HitRecord>)
        ensures
            r == self.hit_spec(ray, t_min, t_max),
            r matches Some(record) ==> in_span(record.t, t_min, t_max),
    {
        reveal(Sphere::hit_spec);
        match find_root(self.center, self.radius, ray, t_min, t_max) {
            None => None,
            Some(root) => {
                let mut record: HitRecord = HitRecord::new(
                    ray.at(root),
                    self.material.clone(),
                    root,
                );
                let outward_normal: Vec3 = record.position.minus(self.center).shrink(self.radius);
                record.set_face_normal(ray, outward_normal);
                let (u, v) = self.get_sphere_uv(outward_normal);
                record.u = u;
                record.v = v;
                Some(record)
            },
        }
    }

    pub open spec fn bounding_box_spec(&self) -> AABB {
        AABB::new(
            self.center.minus(Vec3::splat(self.radius)),
            self.center.plus(Vec3::splat(self.radius)),
        )
    }

    /// The cube around the sphere; well formed where the radius is not
    /// negative.
    pub fn bounding_box(&self, time0: Scalar, time1: Scalar) -> (r: Option<AABB>)
        ensures
            r == Some(self.bounding_box_spec()),
            self.radius@ >= 0 ==> self.bounding_box_spec().wf(),
    {
        Some(
            AABB::new(
                self.center.minus(Vec3::splat(self.radius)),
                self.center.plus(Vec3::splat(self.radius)),
            ),
        )
    }
}

impl MovingSphere {
    pub open spec fn spec_new(
        center0: Vec3,
        center1: Vec3,
        time0: Scalar,
        time1: Scalar,
        radius: Scalar,
        material: Arc<Material>,
    ) -> MovingSphere {
        MovingSphere { center0, center1, time0, time1, radius, material }
    }

    /// A sphere whose centre is at `center0` at `time0` and at `center1`
    /// at `time1`.
    #[verifier::when_used_as_spec(spec_new)]
    pub fn new(
        center0: Vec3,
        center1: Vec3,
        time0: Scalar,
        time1: Scalar,
        radius: Scalar,
        material: Arc<Material>,
    ) -> (r: MovingSphere)
        ensures
            r == MovingSphere::spec_new(center0, center1, time0, time1, radius, material),
    {
        MovingSphere { center0, center1, time0, time1, radius, material }
    }

    pub open spec fn spec_center(&self, time: Scalar) -> Vec3 {
        self.center0.plus(
            self.center1.minus(self.center0).scale(
                time.minus(self.time0).over(self.time1.minus(self.time0)),
            ),
        )
    }

    /// The centre at `time`, on the line through the two key positions.
    #[verifier::when_used_as_spec(spec_center)]
    pub fn center(&self, time: Scalar) -> (c: Vec3)
        ensures
            c == self.spec_center(time),
    {
        self.center0.plus(
            self.center1.minus(self.center0).scale(
                time.minus(self.time0).over(self.time1.minus(self.time0)),
            ),
        )
    }

    /// As for a sphere at rest, about the centre at the time of the ray;
    /// the surface coordinates stay zero.
    #[verifier::opaque]
    pub open spec fn hit_spec(&self, ray: &Ray, t_min: Scalar, t_max: Scalar) -> Option<HitRecord> {
        match sphere_root(self.center(ray.time), self.radius, ray, t_min, t_max) {
            None => None,
            Some(root) => {
                let position = ray.at(root);
                let outward_normal = position.minus(self.center(ray.time)).shrink(self.radius);
                Some(
                    HitRecord::new(position, self.material, root).with_face_normal(
                        ray,
                        outward_normal,
                    ),
                )
            },
        }
    }

    pub fn hit(&self, ray: &Ray, t_min: Scalar, t_max: Scalar) -> (r: Option<HitRecord>)
        ensures
            r == self.hit_spec(ray, t_min, t_max),
            r matches Some(record) ==> in_span(record.t, t_min, t_max),
    {
        reveal(MovingSphere::hit_spec);
        let center: Vec3 = self.center(ray.time);
        match find_root(center, self.radius, ray, t_min, t_max) {
            None => None,
            Some(root) => {
                let mut record: HitRecord = HitRecord::new(
                    ray.at(root),
                    self.material.clone(),
                    root,
                );
                let outward_normal: Vec3 = record.position.minus(center).shrink(self.radius);
                record.set_face_normal(ray, outward_normal);
                Some(record)
            },
        }
    }

    /// The cube around the sphere when its centre is at `center`.
    pub open spec fn box_at(&self, center: Vec3) -> AABB {
        AABB::new(center.minus(Vec3::splat(self.radius)), center.plus(Vec3::splat(self.radius)))
    }

    pub open spec fn bounding_box_spec(&self, time0: Scalar, time1: Scalar) -> AABB {
        self.box_at(self.center(time0)).surrounding_box(self.box_at(self.center(time1)))
    }

    /// The box around the sphere's boxes at the two ends of the interval;
    /// well formed where the radius is not negative.
    pub fn bounding_box(&self, time0: Scalar, time1: Scalar) -> (r: Option<AABB>)
        ensures
            r == Some(self.bounding_box_spec(time0, time1)),
            self.radius@ >= 0 ==> self.bounding_box_spec(time0, time1).wf(),
    {
        let c0: Vec3 = self.center(time0);
        let c1: Vec3 = self.center(time1);
        let box0: AABB = AABB::new(
            c0.minus(Vec3::splat(self.radius)),
            c0.plus(Vec3::splat(self.radius)),
        );
        let box1: AABB = AABB::new(
            c1.minus(Vec3::splat(self.radius)),
            c1.plus(Vec3::splat(self.radius)),
        );
        Some(box0.surrounding_box(box1))
    }
}

/// A sphere is hit within the interval asked for.
pub proof fn lemma_sphere_hit_in_span(sphere: Sphere, ray: Ray, t_min: Scalar, t_max: Scalar)
    ensures
        sphere.hit_spec(&ray, t_min, t_max) matches Some(record) ==> in_span(
            record.t,
            t_min,
            t_max,
        ),
{
    reveal(Sphere::hit_spec);
}

/// A moving sphere is hit within the interval asked for.
pub proof fn lemma_moving_sphere_hit_in_span(
    sphere: MovingSphere,
    ray: Ray,
    t_min: Scalar,
    t_max: Scalar,
)
    ensures
        sphere.hit_spec(&ray, t_min, t_max) matches Some(record) ==> in_span(
            record.t,
            t_min,
            t_max,
        ),
{
    reveal(MovingSphere::hit_spec);
}

} // verus!
