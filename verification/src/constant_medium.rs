//! A participating medium of constant density inside a boundary shape.

use crate::aabb::AABB;
use crate::hittable::{HitRecord, Hittable};
use crate::materials::{Isotropic, Material};
use crate::random::{is_unit, random_double};
use crate::ray::Ray;
use crate::scalar::{quot, Scalar, ONE_RAW};
use crate::sphere::in_span;
use crate::vec3::Vec3;
use std::sync::Arc;
use vstd::prelude::*;

verus! {

pub struct ConstantMedium {
    pub boundary: Arc<Hittable>,
    pub phase_function: Arc<Material>,
    pub neg_inv_density: Scalar,
}

/// How far past the entry point the search for the exit point starts: one
/// ten-thousandth.
pub open spec fn spec_skip() -> Scalar {
    Scalar::from_ratio(1, 10000)
}

#[verifier::when_used_as_spec(spec_skip)]
pub fn skip() -> (r: Scalar)
    ensures
        r == spec_skip(),
{
    Scalar::from_ratio(1, 10000)
}

/// Where a ray that enters the boundary at `entry` and leaves it at `exit`
/// scatters inside a medium. The stretch inside is clipped to
/// `[t_min, t_max]` and to the part in front of the ray's origin. The free
/// flight is `neg_inv_density * ln(draw)`, at least zero; a flight longer
/// than the clipped stretch leaves the medium without a hit. Lengths are in
/// units of the scene: parameters times the length of the ray's direction.
pub open spec fn scatter_point(
    neg_inv_density: Scalar,
    ray: &Ray,
    t_min: Scalar,
    t_max: Scalar,
    entry: Scalar,
    exit: Scalar,
    draw: Scalar,
) -> Option<Scalar> {
    let first = if entry@ < t_min@ { t_min } else { entry };
    let last = if exit@ > t_max@ { t_max } else { exit };
    let start = if first@ < 0 { Scalar::zero() } else { first };
    let ray_length = ray.direction.length();
    let distance_inside_boundary = last.minus(start).times(ray_length);
    let hit_distance = neg_inv_density.times(draw.ln()).max(Scalar::zero());
    if first@ >= last@ || start@ >= last@ {
        None
    } else if hit_distance@ > distance_inside_boundary@ {
        None
    } else {
        Some(start.plus(hit_distance.over(ray_length)))
    }
}

/// A flight no longer than the stretch inside ends inside the stretch.
proof fn lemma_flight_stays_inside(hd: int, width: int, length: int)
    requires
        0 <= hd,
        0 < width,
        0 <= length,
        hd <= quot(width * length, ONE_RAW as int),
    ensures
        0 <= quot(hd * ONE_RAW, length) <= width,
{
    let one = ONE_RAW as int;
    assert(width * length >= 0) by (nonlinear_arith)
        requires
            width > 0,
            length >= 0,
    ;
    if length == 0 {
        assert(width * length == 0) by (nonlinear_arith)
            requires
                length == 0,
        ;
        assert(hd == 0);
        assert(hd * one == 0);
    } else {
        assert(hd * one <= width * length) by (nonlinear_arith)
            requires
                hd <= (width * length) / one,
                one > 0,
                width * length >= 0,
        ;
        assert(0 <= (hd * one) / length <= width) by (nonlinear_arith)
            requires
                0 <= hd,
                one > 0,
                length > 0,
                hd * one <= width * length,
        ;
        assert(hd * one >= 0) by (nonlinear_arith)
            requires
                hd >= 0,
                one > 0,
        ;
    }
}

/// A ray scatters inside a medium within the interval asked for.
pub proof fn lemma_scatter_point_in_span(
    neg_inv_density: Scalar,
    ray: Ray,
    t_min: Scalar,
    t_max: Scalar,
    entry: Scalar,
    exit: Scalar,
    draw: Scalar,
)
    ensures
        scatter_point(neg_inv_density, &ray, t_min, t_max, entry, exit, draw) matches Some(t)
            ==> in_span(t, t_min, t_max),
{
    let first = if entry@ < t_min@ { t_min } else { entry };
    let last = if exit@ > t_max@ { t_max } else { exit };
    let start = if first@ < 0 { Scalar::zero() } else { first };
    let ray_length = ray.direction.length();
    let hit_distance = neg_inv_density.times(draw.ln()).max(Scalar::zero());
    if scatter_point(neg_inv_density, &ray, t_min, t_max, entry, exit, draw) is Some {
        crate::scalar::lemma_root_nonnegative(ray.direction.length_squared()@ * ONE_RAW);
        lemma_flight_stays_inside(hit_distance@, last@ - start@, ray_length@);
    }
}

fn find_scatter_point(
    neg_inv_density: Scalar,
    ray: &Ray,
    t_min: Scalar,
    t_max: Scalar,
    entry: Scalar,
    exit: Scalar,
    draw: Scalar,
) -> (r: Option<Scalar>)
    ensures
        r == scatter_point(neg_inv_density, ray, t_min, t_max, entry, exit, draw),
        r matches Some(t) ==> in_span(t, t_min, t_max),
{
    let first: Scalar = if entry.lt(t_min) { t_min } else { entry };
    let last: Scalar = if t_max.lt(exit) { t_max } else { exit };
    if last.le(first) {
        return None;
    }
    let start: Scalar = if first.is_negative() { Scalar::zero() } else { first };
    if last.le(start) {
        return None;
    }
    let ray_length: Scalar = ray.direction.length();
    let distance_inside_boundary: Scalar = last.minus(start).times(ray_length);
    let hit_distance: Scalar = neg_inv_density.times(draw.ln()).max(Scalar::zero());
    if distance_inside_boundary.lt(hit_distance) {
        return None;
    }
    proof {
        lemma_scatter_point_in_span(neg_inv_density, *ray, t_min, t_max, entry, exit, draw);
    }
    Some(start.plus(hit_distance.over(ray_length)))
}

impl ConstantMedium {
    pub open spec fn spec_new(
        boundary: Arc<Hittable>,
        phase_function: Arc<Material>,
        density: Scalar,
    ) -> ConstantMedium {
        ConstantMedium {
            boundary,
            phase_function,
            neg_inv_density: Scalar::one().neg().over(density),
        }
    }

    /// A medium of the given density inside `boundary`, scattering by
    /// `phase_function`.
    #[verifier::when_used_as_spec(spec_new)]
    pub fn new(boundary: Arc<Hittable>, phase_function: Arc<Material>, density: Scalar) -> (r:
        ConstantMedium)
        ensures
            r == ConstantMedium::spec_new(boundary, phase_function, density),
    {
        ConstantMedium {
            boundary,
            phase_function,
            neg_inv_density: Scalar::one().neg().over(density),
        }
    }

    /// A medium that scatters evenly in all directions with the given
    /// colour.
    pub fn new_from_color(boundary: Arc<Hittable>, color: Vec3, density: Scalar) -> (r:
        ConstantMedium)
        ensures
            r.boundary == boundary,
            r.neg_inv_density == Scalar::one().neg().over(density),
            *r.phase_function matches Material::Isotropic(m) && *m.albedo
                == crate::texture::Texture::Solid(crate::texture::SolidColor::new(color)),
    {
        ConstantMedium {
            boundary,
            phase_function: Arc::new(Material::Isotropic(Isotropic::new(color))),
            neg_inv_density: Scalar::one().neg().over(density),
        }
    }

    /// The parameters of two hits on the boundary, where both are hits.
    pub open spec fn crossing_of(first: Option<HitRecord>, second: Option<HitRecord>) -> Option<
        (Scalar, Scalar),
    > {
        match (first, second) {
            (Some(a), Some(b)) => Some((a.t, b.t)),
            _ => None,
        }
    }

    /// `first` is an outcome of the boundary for the ray anywhere along its
    /// line, and `second` one for the ray past the first hit; without a
    /// first hit there is no second.
    pub open spec fn may_cross(
        &self,
        ray: &Ray,
        first: Option<HitRecord>,
        second: Option<HitRecord>,
    ) -> bool {
        &&& self.boundary.may_hit(ray, Scalar::infinity().neg(), Scalar::infinity(), first)
        &&& match first {
            Some(record) => self.boundary.may_hit(
                ray,
                record.t.plus(skip()),
                Scalar::infinity(),
                second,
            ),
            None => second is None,
        }
    }

    /// The parameters at which the ray enters and leaves a boundary without
    /// a medium of its own: the boundary's hit anywhere along the line of
    /// the ray, and its next hit past that one.
    pub open spec fn crossing_spec(&self, ray: &Ray) -> Option<(Scalar, Scalar)> {
        let first = self.boundary.hit_spec(ray, Scalar::infinity().neg(), Scalar::infinity());
        ConstantMedium::crossing_of(
            first,
            match first {
                Some(record) => self.boundary.hit_spec(
                    ray,
                    record.t.plus(skip()),
                    Scalar::infinity(),
                ),
                None => None,
            },
        )
    }

    /// Where the ray enters and leaves the boundary, if it crosses it.
    pub fn crossing(&self, ray: &Ray) -> (r: Option<(Scalar, Scalar)>)
        ensures
            exists|first: Option<HitRecord>, second: Option<HitRecord>|
                self.may_cross(ray, first, second) && r == #[trigger] ConstantMedium::crossing_of(
                    first,
                    second,
                ),
            self.boundary.deterministic() ==> r == self.crossing_spec(ray),
        decreases self, 0int,
    {
        let first: Option<HitRecord> = self.boundary.hit(
            ray,
            Scalar::infinity().neg(),
            Scalar::infinity(),
        );
        let ghost f = first;
        match first {
            None => {
                assert(self.may_cross(ray, f, None) && None::<(Scalar, Scalar)>
                    == ConstantMedium::crossing_of(f, None));
                None
            },
            Some(record) => {
                let second: Option<HitRecord> = self.boundary.hit(
                    ray,
                    record.t.plus(skip()),
                    Scalar::infinity(),
                );
                let ghost s = second;
                let r = match second {
                    None => None,
                    Some(record2) => Some((record.t, record2.t)),
                };
                assert(self.may_cross(ray, f, s) && r == ConstantMedium::crossing_of(f, s));
                r
            },
        }
    }

    /// The hit inside the medium where the ray crosses the boundary at
    /// `entry` and `exit`, for the random number `draw`: at the point that
    /// `scatter_point` gives, with a zero normal and the medium's own
    /// material.
    pub open spec fn scatter_in(
        &self,
        ray: &Ray,
        t_min: Scalar,
        t_max: Scalar,
        crossing: Option<(Scalar, Scalar)>,
        draw: Scalar,
    ) -> Option<HitRecord> {
        match crossing {
            None => None,
            Some((entry, exit)) => match scatter_point(
                self.neg_inv_density,
                ray,
                t_min,
                t_max,
                entry,
                exit,
                draw,
            ) {
                None => None,
                Some(t) => Some(
                    HitRecord::new(ray.at(t), self.phase_function, t).with_face_normal(
                        ray,
                        Vec3::zero(),
                    ),
                ),
            },
        }
    }

    /// The hit inside the medium for two outcomes of the boundary and the
    /// random number `draw`.
    pub open spec fn outcome(
        &self,
        ray: &Ray,
        t_min: Scalar,
        t_max: Scalar,
        first: Option<HitRecord>,
        second: Option<HitRecord>,
        draw: Scalar,
    ) -> Option<HitRecord> {
        self.scatter_in(ray, t_min, t_max, ConstantMedium::crossing_of(first, second), draw)
    }

    /// The hit inside a medium whose boundary holds no medium of its own,
    /// for the random number `draw` of `[0, 1)`.
    pub open spec fn hit_given(
        &self,
        ray: &Ray,
        t_min: Scalar,
        t_max: Scalar,
        draw: Scalar,
    ) -> Option<HitRecord> {
        self.scatter_in(ray, t_min, t_max, self.crossing_spec(ray), draw)
    }

    /// `hit` for a given random number `draw`.
    pub fn hit_with(&self, ray: &Ray, t_min: Scalar, t_max: Scalar, draw: Scalar) -> (r: Option<
        HitRecord,
    >)
        ensures
            exists|first: Option<HitRecord>, second: Option<HitRecord>|
                self.may_cross(ray, first, second) && r == #[trigger] self.outcome(
                    ray,
                    t_min,
                    t_max,
                    first,
                    second,
                    draw,
                ),
            self.boundary.deterministic() ==> r == self.hit_given(ray, t_min, t_max, draw),
            r matches Some(record) ==> in_span(record.t, t_min, t_max),
        decreases self, 1int,
    {
        let crossing: Option<(Scalar, Scalar)> = self.crossing(ray);
        let ghost (first, second) = choose|first: Option<HitRecord>, second: Option<HitRecord>|
            self.may_cross(ray, first, second) && crossing == #[trigger] ConstantMedium::crossing_of(
                first,
                second,
            );
        let r = match crossing {
            None => None,
            Some((entry, exit)) => match find_scatter_point(
                self.neg_inv_density,
                ray,
                t_min,
                t_max,
                entry,
                exit,
                draw,
            ) {
                None => None,
                Some(t) => {
                    let mut record: HitRecord = HitRecord::new(
                        ray.at(t),
                        self.phase_function.clone(),
                        t,
                    );
                    let normal: Vec3 = record.normal;
                    record.set_face_normal(ray, normal);
                    Some(record)
                },
            },
        };
        assert(r == self.scatter_in(ray, t_min, t_max, crossing, draw));
        assert(r == self.outcome(ray, t_min, t_max, first, second, draw));
        r
    }

    /// `outcome` is a hit inside the medium for some outcomes of the
    /// boundary and some number of `[0, 1)`.
    pub open spec fn may_scatter_in(
        &self,
        ray: &Ray,
        t_min: Scalar,
        t_max: Scalar,
        out: Option<HitRecord>,
    ) -> bool {
        exists|first: Option<HitRecord>, second: Option<HitRecord>, draw: Scalar|
            self.may_cross(ray, first, second) && is_unit(draw) && out == #[trigger] self.outcome(
                ray,
                t_min,
                t_max,
                first,
                second,
                draw,
            )
    }

    /// `out` is the hit inside a medium whose boundary holds no medium of
    /// its own, for some number of `[0, 1)`.
    pub open spec fn may_hit(
        &self,
        ray: &Ray,
        t_min: Scalar,
        t_max: Scalar,
        out: Option<HitRecord>,
    ) -> bool {
        exists|draw: Scalar|
            is_unit(draw) && out == #[trigger] self.hit_given(ray, t_min, t_max, draw)
    }

    /// Draws a number of `[0, 1)` and scatters the ray inside the medium
    /// at the depth it selects, if that lies within the boundary.
    pub fn hit(&self, ray: &Ray, t_min: Scalar, t_max: Scalar) -> (r: Option<HitRecord>)
        ensures
            self.may_scatter_in(ray, t_min, t_max, r),
            self.boundary.deterministic() ==> self.may_hit(ray, t_min, t_max, r),
            r matches Some(record) ==> in_span(record.t, t_min, t_max),
        decreases self, 2int,
    {
        let draw: Scalar = random_double();
        let r = self.hit_with(ray, t_min, t_max, draw);
        proof {
            let (first, second) = choose|first: Option<HitRecord>, second: Option<HitRecord>|
                self.may_cross(ray, first, second) && r == #[trigger] self.outcome(
                    ray,
                    t_min,
                    t_max,
                    first,
                    second,
                    draw,
                );
            assert(self.may_cross(ray, first, second) && is_unit(draw) && r == self.outcome(
                ray,
                t_min,
                t_max,
                first,
                second,
                draw,
            ));
            assert(self.boundary.deterministic() ==> is_unit(draw) && r == self.hit_given(
                ray,
                t_min,
                t_max,
                draw,
            ));
        }
        r
    }

    /// The box of the boundary.
    pub fn bounding_box(&self, time0: Scalar, time1: Scalar) -> (r: Option<AABB>)
        ensures
            r == self.boundary.bounding_box_spec(time0, time1),
        decreases self, 0int,
    {
        self.boundary.bounding_box(time0, time1)
    }
}

} // verus!
