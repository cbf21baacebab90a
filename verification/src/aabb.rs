//! Axis-aligned bounding boxes.

use crate::ray::Ray;
use crate::scalar::Scalar;
use crate::vec3::Vec3;
use vstd::prelude::*;

verus! {

#[derive(Clone, Copy, Debug)]
pub struct AABB {
    pub min: Vec3,
    pub max: Vec3,
}

/// A parametric interval, or nothing once it has become empty.
pub type Span = Option<(Scalar, Scalar)>;

/// The part of `[t_min, t_max]` in which a ray stays between the planes
/// `low` and `high` of one axis, or `None` where that part is empty or a
/// single point. A ray that runs parallel to the planes keeps the whole
/// interval when its origin lies between them and loses it otherwise.
pub open spec fn slab_spec(
    low: Scalar,
    high: Scalar,
    origin: Scalar,
    direction: Scalar,
    t_min: Scalar,
    t_max: Scalar,
) -> Span {
    if direction@ == 0 {
        if low@ <= origin@ <= high@ && t_min@ < t_max@ {
            Some((t_min, t_max))
        } else {
            None
        }
    } else {
        let near = low.minus(origin).over(direction);
        let far = high.minus(origin).over(direction);
        let t0 = if direction@ < 0 { far } else { near };
        let t1 = if direction@ < 0 { near } else { far };
        let lower = if t0@ > t_min@ { t0 } else { t_min };
        let upper = if t1@ < t_max@ { t1 } else { t_max };
        if upper@ <= lower@ {
            None
        } else {
            Some((lower, upper))
        }
    }
}

fn slab(
    low: Scalar,
    high: Scalar,
    origin: Scalar,
    direction: Scalar,
    t_min: Scalar,
    t_max: Scalar,
) -> (r: Span)
    ensures
        r == slab_spec(low, high, origin, direction, t_min, t_max),
{
    if direction.is_zero() {
        if low.le(origin) && origin.le(high) && t_min.lt(t_max) {
            Some((t_min, t_max))
        } else {
            None
        }
    } else {
        let near: Scalar = low.minus(origin).over(direction);
        let far: Scalar = high.minus(origin).over(direction);
        let backwards: bool = direction.is_negative();
        let t0: Scalar = if backwards { far } else { near };
        let t1: Scalar = if backwards { near } else { far };
        let lower: Scalar = if t_min.lt(t0) { t0 } else { t_min };
        let upper: Scalar = if t1.lt(t_max) { t1 } else { t_max };
        if upper.le(lower) {
            None
        } else {
            Some((lower, upper))
        }
    }
}

impl AABB {
    pub open spec fn spec_new(min: Vec3, max: Vec3) -> AABB {
        AABB { min, max }
    }

    #[verifier::when_used_as_spec(spec_new)]
    pub fn new(min: Vec3, max: Vec3) -> (r: AABB)
        ensures
            r == AABB::spec_new(min, max),
    {
        AABB { min, max }
    }

    /// The minimum corner is not above the maximum corner on any axis.
    pub open spec fn wf(&self) -> bool {
        &&& self.min.x@ <= self.max.x@
        &&& self.min.y@ <= self.max.y@
        &&& self.min.z@ <= self.max.z@
    }

    /// The point `p` lies in the box, faces included.
    pub open spec fn contains_point(&self, p: Vec3) -> bool {
        &&& self.min.x@ <= p.x@ <= self.max.x@
        &&& self.min.y@ <= p.y@ <= self.max.y@
        &&& self.min.z@ <= p.z@ <= self.max.z@
    }

    /// One of the eight corners: bit 0 of `k` picks the x side, bit 1 the y
    /// side, bit 2 the z side.
    pub open spec fn corner(&self, k: int) -> Vec3 {
        Vec3 {
            x: if k % 2 == 0 { self.min.x } else { self.max.x },
            y: if (k / 2) % 2 == 0 { self.min.y } else { self.max.y },
            z: if (k / 4) % 2 == 0 { self.min.z } else { self.max.z },
        }
    }

    /// The corner numbered `k`, below eight.
    pub fn get_corner(&self, k: usize) -> (p: Vec3)
        requires
            k < 8,
        ensures
            p == self.corner(k as int),
    {
        Vec3::new(
            if k % 2 == 0 { self.min.x } else { self.max.x },
            if (k / 2) % 2 == 0 { self.min.y } else { self.max.y },
            if (k / 4) % 2 == 0 { self.min.z } else { self.max.z },
        )
    }

    pub open spec fn spec_empty() -> AABB {
        AABB {
            min: Vec3::splat(Scalar::infinity()),
            max: Vec3::splat(Scalar::infinity().neg()),
        }
    }

    /// The box that holds no point: its surrounding box with any box is
    /// that box.
    #[verifier::when_used_as_spec(spec_empty)]
    pub fn empty() -> (r: AABB)
        ensures
            r == AABB::spec_empty(),
    {
        AABB {
            min: Vec3::splat(Scalar::infinity()),
            max: Vec3::splat(Scalar::infinity().neg()),
        }
    }

    /// Every corner of `inner` lies in `self`.
    pub open spec fn contains_box(&self, inner: AABB) -> bool {
        forall|k: int| 0 <= k < 8 ==> self.contains_point(#[trigger] inner.corner(k))
    }

    /// The slab test on the three axes in turn, each narrowing the interval
    /// that the one before left.
    pub open spec fn hit_spec(&self, ray: &Ray, t_min: Scalar, t_max: Scalar) -> bool {
        match slab_spec(self.min.x, self.max.x, ray.origin.x, ray.direction.x, t_min, t_max) {
            None => false,
            Some((a, b)) => match slab_spec(
                self.min.y,
                self.max.y,
                ray.origin.y,
                ray.direction.y,
                a,
                b,
            ) {
                None => false,
                Some((c, d)) => slab_spec(
                    self.min.z,
                    self.max.z,
                    ray.origin.z,
                    ray.direction.z,
                    c,
                    d,
                ) is Some,
            },
        }
    }

    /// Whether the ray passes through the box for some parameter strictly
    /// inside `(t_min, t_max)`.
    pub fn hit(&self, ray: &Ray, t_min: Scalar, t_max: Scalar) -> (r: bool)
        ensures
            r == self.hit_spec(ray, t_min, t_max),
    {
        match slab(self.min.x, self.max.x, ray.origin.x, ray.direction.x, t_min, t_max) {
            None => false,
            Some((a, b)) => match slab(
                self.min.y,
                self.max.y,
                ray.origin.y,
                ray.direction.y,
                a,
                b,
            ) {
                None => false,
                Some((c, d)) => slab(
                    self.min.z,
                    self.max.z,
                    ray.origin.z,
                    ray.direction.z,
                    c,
                    d,
                ).is_some(),
            },
        }
    }

    pub open spec fn spec_surrounding_box(&self, second_box: AABB) -> AABB {
        AABB {
            min: Vec3 {
                x: self.min.x.min(second_box.min.x),
                y: self.min.y.min(second_box.min.y),
                z: self.min.z.min(second_box.min.z),
            },
            max: Vec3 {
                x: self.max.x.max(second_box.max.x),
                y: self.max.y.max(second_box.max.y),
                z: self.max.z.max(second_box.max.z),
            },
        }
    }

    /// The smallest box around both boxes: the component-wise minimum of
    /// the minimum corners and maximum of the maximum corners.
    #[verifier::when_used_as_spec(spec_surrounding_box)]
    pub fn surrounding_box(&self, second_box: AABB) -> (r: AABB)
        ensures
            r == self.spec_surrounding_box(second_box),
            self.wf() && second_box.wf() ==> r.wf(),
    {
        let small: Vec3 = Vec3::new(
            self.min.x.min(second_box.min.x),
            self.min.y.min(second_box.min.y),
            self.min.z.min(second_box.min.z),
        );
        let big: Vec3 = Vec3::new(
            self.max.x.max(second_box.max.x),
            self.max.y.max(second_box.max.y),
            self.max.z.max(second_box.max.z),
        );
        AABB::new(small, big)
    }
}

/// The surrounding box of two well-formed boxes contains every corner of
/// both.
pub proof fn law_surrounding_box_contains(a: AABB, b: AABB)
    requires
        a.wf(),
        b.wf(),
    ensures
        a.surrounding_box(b).wf(),
        a.surrounding_box(b).contains_box(a),
        a.surrounding_box(b).contains_box(b),
{
}

/// The surrounding box is the least box around both: any box that contains
/// every corner of both boxes contains every corner of their surrounding
/// box.
pub proof fn law_surrounding_box_minimal(a: AABB, b: AABB, c: AABB)
    requires
        a.wf(),
        b.wf(),
        c.contains_box(a),
        c.contains_box(b),
    ensures
        c.contains_box(a.surrounding_box(b)),
{
    assert(c.contains_point(a.corner(0)));
    assert(c.contains_point(a.corner(7)));
    assert(c.contains_point(b.corner(0)));
    assert(c.contains_point(b.corner(7)));
}

} // verus!
