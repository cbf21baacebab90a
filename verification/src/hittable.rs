//! What a ray can hit: the record of a hit, and the scene geometry as one
//! closed family of shapes.

use crate::aabb::AABB;
use crate::bvh::BVHNode;
use crate::constant_medium::ConstantMedium;
use crate::cuboid::Box;
use crate::materials::Material;
use crate::random::is_unit;
use crate::ray::Ray;
use crate::rectangle::{XYRect, XZRect, YZRect};
use crate::rotate::RotateY;
use crate::scalar::Scalar;
use crate::sphere::{in_span, MovingSphere, Sphere};
use crate::translate::Translate;
use crate::vec3::{lemma_dot_neg, Vec3};
use std::sync::Arc;
use vstd::prelude::*;

verus! {

pub struct HitRecord {
    pub position: Vec3,
    pub normal: Vec3,
    pub material: Arc<Material>,
    pub t: Scalar,
    pub u: Scalar,
    pub v: Scalar,
    pub front_face: bool,
}

impl HitRecord {
    pub open spec fn spec_new(position: Vec3, material: Arc<Material>, t: Scalar) -> HitRecord {
        HitRecord {
            position,
            normal: Vec3::zero(),
            material,
            t,
            u: Scalar::zero(),
            v: Scalar::zero(),
            front_face: false,
        }
    }

    /// A record of a hit at `position` and parameter `t`, with a zero
    /// normal and zero surface coordinates.
    #[verifier::when_used_as_spec(spec_new)]
    pub fn new(position: Vec3, material: Arc<Material>, t: Scalar) -> (r: HitRecord)
        ensures
            r == HitRecord::spec_new(position, material, t),
    {
        HitRecord {
            position,
            normal: Vec3::zero(),
            material,
            t,
            u: Scalar::zero(),
            v: Scalar::zero(),
            front_face: false,
        }
    }

    /// The record with its normal turned against the ray: the ray comes
    /// from the front where it runs against the outward normal, and the
    /// normal kept is the outward one there and its opposite otherwise.
    pub open spec fn with_face_normal(self, ray: &Ray, outward_normal: Vec3) -> HitRecord {
        let front_face = ray.direction.dot(outward_normal)@ < 0;
        HitRecord {
            front_face,
            normal: if front_face {
                outward_normal
            } else {
                outward_normal.neg()
            },
            ..self
        }
    }

    /// The record with surface coordinates `(u, v)`.
    pub open spec fn with_uv(self, u: Scalar, v: Scalar) -> HitRecord {
        HitRecord { u, v, ..self }
    }

    /// The record moved to `position`.
    pub open spec fn with_position(self, position: Vec3) -> HitRecord {
        HitRecord { position, ..self }
    }

    pub fn set_face_normal(&mut self, ray: &Ray, outward_normal: Vec3)
        ensures
            *final(self) == old(self).with_face_normal(ray, outward_normal),
            ray.direction.dot(final(self).normal)@ <= 0,
    {
        proof {
            lemma_dot_neg(ray.direction, outward_normal);
        }
        self.front_face = ray.direction.dot(outward_normal).is_negative();
        self.normal = if self.front_face {
            outward_normal
        } else {
            outward_normal.neg()
        };
    }
}

/// Whatever the ray and the outward normal, the normal that
/// `set_face_normal` keeps never points along the ray.
pub proof fn law_face_normal_opposes_ray(record: HitRecord, ray: Ray, outward_normal: Vec3)
    ensures
        ray.direction.dot(record.with_face_normal(&ray, outward_normal).normal)@ <= 0,
{
    lemma_dot_neg(ray.direction, outward_normal);
}

/// Every shape of a scene.
pub enum Hittable {
    Sphere(Sphere),
    MovingSphere(MovingSphere),
    XYRect(XYRect),
    XZRect(XZRect),
    YZRect(YZRect),
    Box(Box),
    Translate(Translate),
    RotateY(RotateY),
    ConstantMedium(ConstantMedium),
    List(HittableList),
    BVH(BVHNode),
}

/// A flat collection of shapes.
#[derive(Clone)]
pub struct HittableList {
    pub objects: Vec<Arc<Hittable>>,
}

/// Of two outcomes the nearer hit: the first where it is strictly nearer
/// than the second or the second is a miss, else the second.
pub open spec fn closer(a: Option<HitRecord>, b: Option<HitRecord>) -> Option<HitRecord> {
    match (a, b) {
        (Some(x), Some(y)) => if x.t@ < y.t@ {
            a
        } else {
            b
        },
        (Some(_), None) => a,
        (None, _) => b,
    }
}

/// What a scan keeps of the nearest hit found so far and the hit of the
/// next shape: the next one only where it is the first hit or strictly
/// nearer.
pub open spec fn keep_nearer(before: Option<HitRecord>, next: Option<HitRecord>) -> Option<
    HitRecord,
> {
    match (before, next) {
        (None, _) => next,
        (Some(a), Some(b)) => if b.t@ < a.t@ {
            next
        } else {
            before
        },
        (Some(_), None) => before,
    }
}

/// How far a scan still looks: up to the nearest hit found so far, or to
/// `t_max` before any hit.
pub open spec fn bound_after(before: Option<HitRecord>, t_max: Scalar) -> Scalar {
    match before {
        Some(record) => record.t,
        None => t_max,
    }
}

impl Hittable {
    /// Whether a hit on the shape is a function of the ray and the
    /// interval: it is unless the shape holds a medium, which scatters at
    /// a random depth.
    pub open spec fn deterministic(&self) -> bool
        decreases self,
    {
        match self {
            Hittable::ConstantMedium(_) => false,
            Hittable::Box(b) => Hittable::all_deterministic(
                b.sides.objects@,
                b.sides.objects@.len() as int,
            ),
            Hittable::Translate(t) => t.to_translate.deterministic(),
            Hittable::RotateY(r) => r.to_rotate.deterministic(),
            Hittable::List(l) => Hittable::all_deterministic(l.objects@, l.objects@.len() as int),
            Hittable::BVH(n) => n.left.deterministic() && n.right.deterministic(),
            _ => true,
        }
    }

    /// Whether the first `n` of the shapes are all deterministic.
    pub open spec fn all_deterministic(objects: Seq<Arc<Hittable>>, n: int) -> bool
        decreases objects, n,
    {
        if n <= 0 || n > objects.len() {
            true
        } else {
            objects[n - 1].deterministic() && Hittable::all_deterministic(objects, n - 1)
        }
    }

    /// The hit of the ray on a deterministic shape within `[t_min, t_max]`.
    pub open spec fn hit_spec(&self, ray: &Ray, t_min: Scalar, t_max: Scalar) -> Option<HitRecord>
        decreases self,
    {
        match self {
            Hittable::Sphere(s) => s.hit_spec(ray, t_min, t_max),
            Hittable::MovingSphere(s) => s.hit_spec(ray, t_min, t_max),
            Hittable::XYRect(s) => s.hit_spec(ray, t_min, t_max),
            Hittable::XZRect(s) => s.hit_spec(ray, t_min, t_max),
            Hittable::YZRect(s) => s.hit_spec(ray, t_min, t_max),
            Hittable::Box(b) => Hittable::list_hit_spec(
                b.sides.objects@,
                ray,
                t_min,
                t_max,
                b.sides.objects@.len() as int,
            ),
            Hittable::Translate(t) => t.out_of_object(
                t.to_translate.hit_spec(&t.into_object(ray), t_min, t_max),
            ),
            Hittable::RotateY(r) => r.out_of_object(
                r.to_rotate.hit_spec(&r.into_object(ray), t_min, t_max),
                &r.into_object(ray),
            ),
            Hittable::ConstantMedium(_) => None,
            Hittable::List(l) => Hittable::list_hit_spec(
                l.objects@,
                ray,
                t_min,
                t_max,
                l.objects@.len() as int,
            ),
            Hittable::BVH(n) => if n.box_.hit_spec(ray, t_min, t_max) {
                closer(n.left.hit_spec(ray, t_min, t_max), n.right.hit_spec(ray, t_min, t_max))
            } else {
                None
            },
        }
    }

    /// The nearest hit among the first `n` shapes, scanned in order: each
    /// shape is asked for a hit no farther than the nearest found before
    /// it, and replaces that one only where its hit is strictly nearer. Of
    /// several shapes hit at the same parameter the first one is kept.
    pub open spec fn list_hit_spec(
        objects: Seq<Arc<Hittable>>,
        ray: &Ray,
        t_min: Scalar,
        t_max: Scalar,
        n: int,
    ) -> Option<HitRecord>
        decreases objects, n,
    {
        if n <= 0 || n > objects.len() {
            None
        } else {
            let before = Hittable::list_hit_spec(objects, ray, t_min, t_max, n - 1);
            keep_nearer(before, objects[n - 1].hit_spec(ray, t_min, bound_after(before, t_max)))
        }
    }

    /// `out` is a hit that `hit` can return for the ray within
    /// `[t_min, t_max]`. A shape without a medium has one such outcome,
    /// `hit_spec`; a medium has one for each number of `[0, 1)` that it may
    /// draw, and a shape made of other shapes has what it makes of their
    /// outcomes.
    pub open spec fn may_hit(
        &self,
        ray: &Ray,
        t_min: Scalar,
        t_max: Scalar,
        out: Option<HitRecord>,
    ) -> bool
        decreases self,
    {
        match self {
            Hittable::Sphere(s) => out == s.hit_spec(ray, t_min, t_max),
            Hittable::MovingSphere(s) => out == s.hit_spec(ray, t_min, t_max),
            Hittable::XYRect(s) => out == s.hit_spec(ray, t_min, t_max),
            Hittable::XZRect(s) => out == s.hit_spec(ray, t_min, t_max),
            Hittable::YZRect(s) => out == s.hit_spec(ray, t_min, t_max),
            Hittable::Box(b) => Hittable::may_hit_list(
                b.sides.objects@,
                ray,
                t_min,
                t_max,
                b.sides.objects@.len() as int,
                out,
            ),
            Hittable::Translate(t) => exists|inner: Option<HitRecord>|
                t.to_translate.may_hit(&t.into_object(ray), t_min, t_max, inner) && out
                    == #[trigger] t.out_of_object(inner),
            Hittable::RotateY(r) => exists|inner: Option<HitRecord>|
                r.to_rotate.may_hit(&r.into_object(ray), t_min, t_max, inner) && out
                    == #[trigger] r.out_of_object(inner, &r.into_object(ray)),
            Hittable::ConstantMedium(m) => exists|
                first: Option<HitRecord>,
                second: Option<HitRecord>,
                draw: Scalar,
            |
                {
                    &&& m.boundary.may_hit(
                        ray,
                        Scalar::infinity().neg(),
                        Scalar::infinity(),
                        first,
                    )
                    &&& match first {
                        Some(record) => m.boundary.may_hit(
                            ray,
                            record.t.plus(crate::constant_medium::skip()),
                            Scalar::infinity(),
                            second,
                        ),
                        None => second is None,
                    }
                    &&& is_unit(draw)
                    &&& out == #[trigger] m.outcome(ray, t_min, t_max, first, second, draw)
                },
            Hittable::List(l) => Hittable::may_hit_list(
                l.objects@,
                ray,
                t_min,
                t_max,
                l.objects@.len() as int,
                out,
            ),
            Hittable::BVH(n) => if n.box_.hit_spec(ray, t_min, t_max) {
                exists|left: Option<HitRecord>, right: Option<HitRecord>|
                    n.left.may_hit(ray, t_min, t_max, left) && n.right.may_hit(
                        ray,
                        t_min,
                        t_max,
                        right,
                    ) && out == #[trigger] closer(left, right)
            } else {
                out is None
            },
        }
    }

    /// `out` is what a scan of the first `n` shapes can keep: the
    /// outcomes of the shapes, each asked no farther than the nearest hit
    /// before it, put together by `keep_nearer`.
    pub open spec fn may_hit_list(
        objects: Seq<Arc<Hittable>>,
        ray: &Ray,
        t_min: Scalar,
        t_max: Scalar,
        n: int,
        out: Option<HitRecord>,
    ) -> bool
        decreases objects, n,
    {
        if n <= 0 || n > objects.len() {
            out is None
        } else {
            exists|before: Option<HitRecord>, next: Option<HitRecord>|
                Hittable::may_hit_list(objects, ray, t_min, t_max, n - 1, before) && objects[n
                    - 1].may_hit(ray, t_min, bound_after(before, t_max), next) && out
                    == #[trigger] keep_nearer(before, next)
        }
    }

    /// The box around the shape over the time interval, or nothing for a
    /// shape without bounds.
    pub open spec fn bounding_box_spec(&self, time0: Scalar, time1: Scalar) -> Option<AABB>
        decreases self,
    {
        match self {
            Hittable::Sphere(s) => Some(s.bounding_box_spec()),
            Hittable::MovingSphere(s) => Some(s.bounding_box_spec(time0, time1)),
            Hittable::XYRect(s) => Some(s.bounding_box_spec()),
            Hittable::XZRect(s) => Some(s.bounding_box_spec()),
            Hittable::YZRect(s) => Some(s.bounding_box_spec()),
            Hittable::Box(b) => Some(b.bounding_box_spec()),
            Hittable::Translate(t) => t.move_box(t.to_translate.bounding_box_spec(time0, time1)),
            Hittable::RotateY(r) => r.bbox,
            Hittable::ConstantMedium(m) => m.boundary.bounding_box_spec(time0, time1),
            Hittable::List(l) => Hittable::list_box_spec(
                l.objects@,
                time0,
                time1,
                l.objects@.len() as int,
            ),
            Hittable::BVH(n) => Some(n.box_),
        }
    }

    /// The box around the first `n` shapes: nothing for no shape at all or
    /// where one of them has no bounds.
    pub open spec fn list_box_spec(
        objects: Seq<Arc<Hittable>>,
        time0: Scalar,
        time1: Scalar,
        n: int,
    ) -> Option<AABB>
        decreases objects, n,
    {
        if n <= 0 || n > objects.len() {
            None
        } else if n == 1 {
            objects[0].bounding_box_spec(time0, time1)
        } else {
            match (
                Hittable::list_box_spec(objects, time0, time1, n - 1),
                objects[n - 1].bounding_box_spec(time0, time1),
            ) {
                (Some(a), Some(b)) => Some(a.surrounding_box(b)),
                _ => None,
            }
        }
    }

    /// The least coordinate of the shape's box along an axis, the box taken
    /// at time zero.
    pub open spec fn box_floor(&self, axis: usize) -> Scalar {
        self.bounding_box_spec(Scalar::zero(), Scalar::zero())->Some_0.min.axis(axis)
    }

    /// Whether the shape's box begins before that of `b` along the axis.
    pub fn box_compare(&self, b: &Arc<Hittable>, axis: usize) -> (r: bool)
        requires
            axis < 3,
            self.bounding_box_spec(Scalar::zero(), Scalar::zero()) is Some,
            b.bounding_box_spec(Scalar::zero(), Scalar::zero()) is Some,
        ensures
            r == (self.box_floor(axis)@ < b.box_floor(axis)@),
    {
        match (
            self.bounding_box(Scalar::zero(), Scalar::zero()),
            b.bounding_box(Scalar::zero(), Scalar::zero()),
        ) {
            (Some(aabb), Some(babb)) => aabb.min.axis(axis).lt(babb.min.axis(axis)),
            _ => false,
        }
    }

    pub fn box_x_compare(&self, b: &Arc<Hittable>) -> (r: bool)
        requires
            self.bounding_box_spec(Scalar::zero(), Scalar::zero()) is Some,
            b.bounding_box_spec(Scalar::zero(), Scalar::zero()) is Some,
        ensures
            r == (self.box_floor(0)@ < b.box_floor(0)@),
    {
        self.box_compare(b, 0)
    }

    pub fn box_y_compare(&self, b: &Arc<Hittable>) -> (r: bool)
        requires
            self.bounding_box_spec(Scalar::zero(), Scalar::zero()) is Some,
            b.bounding_box_spec(Scalar::zero(), Scalar::zero()) is Some,
        ensures
            r == (self.box_floor(1)@ < b.box_floor(1)@),
    {
        self.box_compare(b, 1)
    }

    pub fn box_z_compare(&self, b: &Arc<Hittable>) -> (r: bool)
        requires
            self.bounding_box_spec(Scalar::zero(), Scalar::zero()) is Some,
            b.bounding_box_spec(Scalar::zero(), Scalar::zero()) is Some,
        ensures
            r == (self.box_floor(2)@ < b.box_floor(2)@),
    {
        self.box_compare(b, 2)
    }

    /// The nearest hit of the ray on the shape within `[t_min, t_max]`.
    pub fn hit(&self, ray: &Ray, t_min: Scalar, t_max: Scalar) -> (r: Option<HitRecord>)
        ensures
            self.may_hit(ray, t_min, t_max, r),
            self.deterministic() ==> r == self.hit_spec(ray, t_min, t_max),
            r matches Some(record) ==> in_span(record.t, t_min, t_max),
        decreases self, 3int,
    {
        match self {
            Hittable::Sphere(s) => s.hit(ray, t_min, t_max),
            Hittable::MovingSphere(s) => s.hit(ray, t_min, t_max),
            Hittable::XYRect(s) => s.hit(ray, t_min, t_max),
            Hittable::XZRect(s) => s.hit(ray, t_min, t_max),
            Hittable::YZRect(s) => s.hit(ray, t_min, t_max),
            Hittable::Box(b) => b.hit(ray, t_min, t_max),
            Hittable::Translate(t) => t.hit(ray, t_min, t_max),
            Hittable::RotateY(r) => r.hit(ray, t_min, t_max),
            Hittable::ConstantMedium(m) => m.hit(ray, t_min, t_max),
            Hittable::List(l) => l.hit(ray, t_min, t_max),
            Hittable::BVH(n) => n.hit(ray, t_min, t_max),
        }
    }

    pub fn bounding_box(&self, time0: Scalar, time1: Scalar) -> (r: Option<AABB>)
        ensures
            r == self.bounding_box_spec(time0, time1),
        decreases self, 3int,
    {
        match self {
            Hittable::Sphere(s) => s.bounding_box(time0, time1),
            Hittable::MovingSphere(s) => s.bounding_box(time0, time1),
            Hittable::XYRect(s) => s.bounding_box(time0, time1),
            Hittable::XZRect(s) => s.bounding_box(time0, time1),
            Hittable::YZRect(s) => s.bounding_box(time0, time1),
            Hittable::Box(b) => b.bounding_box(time0, time1),
            Hittable::Translate(t) => t.bounding_box(time0, time1),
            Hittable::RotateY(r) => r.bounding_box(time0, time1),
            Hittable::ConstantMedium(m) => m.bounding_box(time0, time1),
            Hittable::List(l) => l.bounding_box(time0, time1),
            Hittable::BVH(n) => n.bounding_box(time0, time1),
        }
    }
}

impl HittableList {
    /// A list without shapes.
    pub fn new() -> (r: HittableList)
        ensures
            r.objects@.len() == 0,
    {
        HittableList { objects: Vec::new() }
    }

    pub fn add(&mut self, object: Arc<Hittable>)
        ensures
            final(self).objects@ == old(self).objects@.push(object),
    {
        self.objects.push(object);
    }

    pub fn clear(&mut self)
        ensures
            final(self).objects@.len() == 0,
    {
        self.objects.clear();
    }

    /// The nearest hit on any shape of the list; of several shapes hit at the
    /// same parameter, the first.
    pub fn hit(&self, ray: &Ray, t_min: Scalar, t_max: Scalar) -> (r: Option<HitRecord>)
        ensures
            Hittable::may_hit_list(
                self.objects@,
                ray,
                t_min,
                t_max,
                self.objects@.len() as int,
                r,
            ),
            Hittable::all_deterministic(self.objects@, self.objects@.len() as int) ==> r
                == Hittable::list_hit_spec(
                self.objects@,
                ray,
                t_min,
                t_max,
                self.objects@.len() as int,
            ),
            r matches Some(record) ==> in_span(record.t, t_min, t_max),
        decreases self, 0int,
    {
        let mut hit_anything: Option<HitRecord> = None;
        let mut closest_so_far: Scalar = t_max;
        let mut i: usize = 0;
        while i < self.objects.len()
            invariant
                i <= self.objects@.len(),
                decreases_to!(self => self.objects),
                closest_so_far == bound_after(hit_anything, t_max),
                Hittable::may_hit_list(self.objects@, ray, t_min, t_max, i as int, hit_anything),
                hit_anything matches Some(record) ==> in_span(record.t, t_min, t_max),
                Hittable::all_deterministic(self.objects@, self.objects@.len() as int)
                    ==> hit_anything == Hittable::list_hit_spec(
                    self.objects@,
                    ray,
                    t_min,
                    t_max,
                    i as int,
                ),
            decreases self.objects@.len() - i,
        {
            proof {
                lemma_all_deterministic(self.objects@, self.objects@.len() as int, i as int);
            }
            let ghost before = hit_anything;
            let next: Option<HitRecord> = self.objects[i].hit(ray, t_min, closest_so_far);
            let ghost found = next;
            match next {
                Some(hit_record) => {
                    if hit_anything.is_none() || hit_record.t.lt(closest_so_far) {
                        closest_so_far = hit_record.t;
                        hit_anything = Some(hit_record);
                    }
                },
                None => {},
            }
            assert(hit_anything == keep_nearer(before, found));
            i = i + 1;
        }
        hit_anything
    }

    /// The box around all shapes of the list.
    pub fn bounding_box(&self, time0: Scalar, time1: Scalar) -> (r: Option<AABB>)
        ensures
            r == Hittable::list_box_spec(
                self.objects@,
                time0,
                time1,
                self.objects@.len() as int,
            ),
        decreases self, 0int,
    {
        if self.objects.len() == 0 {
            return None;
        }
        let mut output_box: Option<AABB> = None;
        let mut i: usize = 0;
        while i < self.objects.len()
            invariant
                i <= self.objects@.len(),
                decreases_to!(self => self.objects),
                output_box == Hittable::list_box_spec(self.objects@, time0, time1, i as int),
                i > 0 ==> output_box is Some,
            decreases self.objects@.len() - i,
        {
            match self.objects[i].bounding_box(time0, time1) {
                Some(temp_box) => {
                    output_box = match output_box {
                        Some(output_box) => Some(output_box.surrounding_box(temp_box)),
                        None => Some(temp_box),
                    };
                },
                None => {
                    proof {
                        lemma_list_box_none(
                            self.objects@,
                            time0,
                            time1,
                            i as int + 1,
                            self.objects@.len() as int,
                        );
                    }
                    return None;
                },
            }
            i = i + 1;
        }
        output_box
    }
}

/// Whatever the shape, the ray and the interval: every hit that `hit` can
/// return has its parameter within `[t_min, t_max]`.
pub proof fn law_hits_lie_in_interval(
    shape: Arc<Hittable>,
    ray: Ray,
    t_min: Scalar,
    t_max: Scalar,
    out: Option<HitRecord>,
)
    requires
        shape.may_hit(&ray, t_min, t_max, out),
    ensures
        out matches Some(record) ==> in_span(record.t, t_min, t_max),
    decreases shape, 0int,
{
    match *shape {
        Hittable::Sphere(s) => {
            crate::sphere::lemma_sphere_hit_in_span(s, ray, t_min, t_max);
        },
        Hittable::MovingSphere(s) => {
            crate::sphere::lemma_moving_sphere_hit_in_span(s, ray, t_min, t_max);
        },
        Hittable::XYRect(s) => {
            crate::rectangle::lemma_plane_hit_in_span(
                ray,
                t_min,
                t_max,
                2,
                0,
                1,
                s.x0,
                s.x1,
                s.y0,
                s.y1,
                s.k,
                s.material,
            );
        },
        Hittable::XZRect(s) => {
            crate::rectangle::lemma_plane_hit_in_span(
                ray,
                t_min,
                t_max,
                1,
                0,
                2,
                s.x0,
                s.x1,
                s.z0,
                s.z1,
                s.k,
                s.material,
            );
        },
        Hittable::YZRect(s) => {
            crate::rectangle::lemma_plane_hit_in_span(
                ray,
                t_min,
                t_max,
                0,
                1,
                2,
                s.y0,
                s.y1,
                s.z0,
                s.z1,
                s.k,
                s.material,
            );
        },
        Hittable::Box(b) => {
            lemma_list_hits_lie_in_interval(
                b.sides.objects@,
                ray,
                t_min,
                t_max,
                b.sides.objects@.len() as int,
                out,
            );
        },
        Hittable::List(l) => {
            lemma_list_hits_lie_in_interval(
                l.objects@,
                ray,
                t_min,
                t_max,
                l.objects@.len() as int,
                out,
            );
        },
        Hittable::Translate(t) => {
            let moved = t.into_object(&ray);
            let inner = choose|inner: Option<HitRecord>|
                t.to_translate.may_hit(&moved, t_min, t_max, inner) && out
                    == #[trigger] t.out_of_object(inner);
            law_hits_lie_in_interval(t.to_translate, moved, t_min, t_max, inner);
        },
        Hittable::RotateY(r) => {
            let turned = r.into_object(&ray);
            let inner = choose|inner: Option<HitRecord>|
                r.to_rotate.may_hit(&turned, t_min, t_max, inner) && out
                    == #[trigger] r.out_of_object(inner, &turned);
            law_hits_lie_in_interval(r.to_rotate, turned, t_min, t_max, inner);
        },
        Hittable::ConstantMedium(m) => {
            let (first, second, draw) = choose|
                first: Option<HitRecord>,
                second: Option<HitRecord>,
                draw: Scalar,
            |
                {
                    &&& m.boundary.may_hit(
                        &ray,
                        Scalar::infinity().neg(),
                        Scalar::infinity(),
                        first,
                    )
                    &&& match first {
                        Some(record) => m.boundary.may_hit(
                            &ray,
                            record.t.plus(crate::constant_medium::skip()),
                            Scalar::infinity(),
                            second,
                        ),
                        None => second is None,
                    }
                    &&& is_unit(draw)
                    &&& out == #[trigger] m.outcome(&ray, t_min, t_max, first, second, draw)
                };
            if let (Some(a), Some(b)) = (first, second) {
                crate::constant_medium::lemma_scatter_point_in_span(
                    m.neg_inv_density,
                    ray,
                    t_min,
                    t_max,
                    a.t,
                    b.t,
                    draw,
                );
            }
        },
        Hittable::BVH(n) => {
            if n.box_.hit_spec(&ray, t_min, t_max) {
                let (left, right) = choose|left: Option<HitRecord>, right: Option<HitRecord>|
                    n.left.may_hit(&ray, t_min, t_max, left) && n.right.may_hit(
                        &ray,
                        t_min,
                        t_max,
                        right,
                    ) && out == #[trigger] closer(left, right);
                law_hits_lie_in_interval(n.left, ray, t_min, t_max, left);
                law_hits_lie_in_interval(n.right, ray, t_min, t_max, right);
            }
        },
    }
}

/// Every hit that a scan can keep lies within the interval.
proof fn lemma_list_hits_lie_in_interval(
    objects: Seq<Arc<Hittable>>,
    ray: Ray,
    t_min: Scalar,
    t_max: Scalar,
    n: int,
    out: Option<HitRecord>,
)
    requires
        0 <= n <= objects.len(),
        Hittable::may_hit_list(objects, &ray, t_min, t_max, n, out),
    ensures
        out matches Some(record) ==> in_span(record.t, t_min, t_max),
    decreases objects, n,
{
    if n > 0 {
        let (before, next) = choose|before: Option<HitRecord>, next: Option<HitRecord>|
            Hittable::may_hit_list(objects, &ray, t_min, t_max, n - 1, before) && objects[n
                - 1].may_hit(&ray, t_min, bound_after(before, t_max), next) && out
                == #[trigger] keep_nearer(before, next);
        lemma_list_hits_lie_in_interval(objects, ray, t_min, t_max, n - 1, before);
        law_hits_lie_in_interval(objects[n - 1], ray, t_min, bound_after(before, t_max), next);
    }
}

/// A shape without a medium can be hit in one way only: the outcomes that
/// `may_hit` allows are the one that `hit_spec` gives.
pub proof fn law_deterministic_shape_hits_one_way(
    shape: Arc<Hittable>,
    ray: Ray,
    t_min: Scalar,
    t_max: Scalar,
    out: Option<HitRecord>,
)
    requires
        shape.deterministic(),
    ensures
        shape.may_hit(&ray, t_min, t_max, out) <==> out == shape.hit_spec(&ray, t_min, t_max),
    decreases shape, 0int,
{
    match *shape {
        Hittable::Box(b) => {
            lemma_deterministic_list_hits_one_way(
                b.sides.objects@,
                ray,
                t_min,
                t_max,
                b.sides.objects@.len() as int,
                out,
            );
        },
        Hittable::List(l) => {
            lemma_deterministic_list_hits_one_way(
                l.objects@,
                ray,
                t_min,
                t_max,
                l.objects@.len() as int,
                out,
            );
        },
        Hittable::Translate(t) => {
            let moved = t.into_object(&ray);
            let only = t.to_translate.hit_spec(&moved, t_min, t_max);
            law_deterministic_shape_hits_one_way(t.to_translate, moved, t_min, t_max, only);
            if shape.may_hit(&ray, t_min, t_max, out) {
                let inner = choose|inner: Option<HitRecord>|
                    t.to_translate.may_hit(&moved, t_min, t_max, inner) && out
                        == #[trigger] t.out_of_object(inner);
                law_deterministic_shape_hits_one_way(t.to_translate, moved, t_min, t_max, inner);
            }
            if out == shape.hit_spec(&ray, t_min, t_max) {
                assert(t.to_translate.may_hit(&moved, t_min, t_max, only) && out
                    == t.out_of_object(only));
            }
        },
        Hittable::RotateY(r) => {
            let turned = r.into_object(&ray);
            let only = r.to_rotate.hit_spec(&turned, t_min, t_max);
            law_deterministic_shape_hits_one_way(r.to_rotate, turned, t_min, t_max, only);
            if shape.may_hit(&ray, t_min, t_max, out) {
                let inner = choose|inner: Option<HitRecord>|
                    r.to_rotate.may_hit(&turned, t_min, t_max, inner) && out
                        == #[trigger] r.out_of_object(inner, &turned);
                law_deterministic_shape_hits_one_way(r.to_rotate, turned, t_min, t_max, inner);
            }
            if out == shape.hit_spec(&ray, t_min, t_max) {
                assert(r.to_rotate.may_hit(&turned, t_min, t_max, only) && out == r.out_of_object(
                    only,
                    &turned,
                ));
            }
        },
        Hittable::BVH(n) => {
            let only_left = n.left.hit_spec(&ray, t_min, t_max);
            let only_right = n.right.hit_spec(&ray, t_min, t_max);
            law_deterministic_shape_hits_one_way(n.left, ray, t_min, t_max, only_left);
            law_deterministic_shape_hits_one_way(n.right, ray, t_min, t_max, only_right);
            if n.box_.hit_spec(&ray, t_min, t_max) {
                if shape.may_hit(&ray, t_min, t_max, out) {
                    let (left, right) = choose|left: Option<HitRecord>, right: Option<HitRecord>|
                        n.left.may_hit(&ray, t_min, t_max, left) && n.right.may_hit(
                            &ray,
                            t_min,
                            t_max,
                            right,
                        ) && out == #[trigger] closer(left, right);
                    law_deterministic_shape_hits_one_way(n.left, ray, t_min, t_max, left);
                    law_deterministic_shape_hits_one_way(n.right, ray, t_min, t_max, right);
                }
                if out == shape.hit_spec(&ray, t_min, t_max) {
                    assert(n.left.may_hit(&ray, t_min, t_max, only_left) && n.right.may_hit(
                        &ray,
                        t_min,
                        t_max,
                        only_right,
                    ) && out == closer(only_left, only_right));
                }
            }
        },
        _ => {},
    }
}

/// A scan of shapes without a medium can end in one way only.
proof fn lemma_deterministic_list_hits_one_way(
    objects: Seq<Arc<Hittable>>,
    ray: Ray,
    t_min: Scalar,
    t_max: Scalar,
    n: int,
    out: Option<HitRecord>,
)
    requires
        0 <= n <= objects.len(),
        Hittable::all_deterministic(objects, n),
    ensures
        Hittable::may_hit_list(objects, &ray, t_min, t_max, n, out) <==> out
            == Hittable::list_hit_spec(objects, &ray, t_min, t_max, n),
    decreases objects, n,
{
    if n > 0 {
        let only_before = Hittable::list_hit_spec(objects, &ray, t_min, t_max, n - 1);
        let bound = bound_after(only_before, t_max);
        let only_next = objects[n - 1].hit_spec(&ray, t_min, bound);
        lemma_deterministic_list_hits_one_way(objects, ray, t_min, t_max, n - 1, only_before);
        law_deterministic_shape_hits_one_way(objects[n - 1], ray, t_min, bound, only_next);
        if Hittable::may_hit_list(objects, &ray, t_min, t_max, n, out) {
            let (before, next) = choose|before: Option<HitRecord>, next: Option<HitRecord>|
                Hittable::may_hit_list(objects, &ray, t_min, t_max, n - 1, before) && objects[n
                    - 1].may_hit(&ray, t_min, bound_after(before, t_max), next) && out
                    == #[trigger] keep_nearer(before, next);
            lemma_deterministic_list_hits_one_way(objects, ray, t_min, t_max, n - 1, before);
            law_deterministic_shape_hits_one_way(objects[n - 1], ray, t_min, bound, next);
        }
        if out == Hittable::list_hit_spec(objects, &ray, t_min, t_max, n) {
            assert(Hittable::may_hit_list(objects, &ray, t_min, t_max, n - 1, only_before)
                && objects[n - 1].may_hit(&ray, t_min, bound_after(only_before, t_max), only_next)
                && out == keep_nearer(only_before, only_next));
        }
    }
}

/// Where all of the first `n` shapes are deterministic, so is each of them.
pub proof fn lemma_all_deterministic(objects: Seq<Arc<Hittable>>, n: int, i: int)
    requires
        0 <= i < n <= objects.len(),
    ensures
        Hittable::all_deterministic(objects, n) ==> objects[i].deterministic()
            && Hittable::all_deterministic(objects, i),
    decreases n,
{
    if n - 1 > i {
        lemma_all_deterministic(objects, n - 1, i);
    }
}

/// Once the first `m` shapes have no box, no longer prefix has one.
proof fn lemma_list_box_none(
    objects: Seq<Arc<Hittable>>,
    time0: Scalar,
    time1: Scalar,
    m: int,
    n: int,
)
    requires
        1 <= m <= n <= objects.len(),
        Hittable::list_box_spec(objects, time0, time1, m) is None,
    ensures
        Hittable::list_box_spec(objects, time0, time1, n) is None,
    decreases n,
{
    if n > m {
        lemma_list_box_none(objects, time0, time1, m, n - 1);
    }
}

} // verus!
