//! The radiance that arrives along a ray: what the surface hit gives off,
//! plus what reaches it along the scattered ray, attenuated.

use crate::hittable::{HitRecord, Hittable};
use crate::ray::Ray;
use crate::scalar::Scalar;
use crate::vec3::Vec3;
use vstd::prelude::*;

verus! {

/// The least parameter at which a ray is taken to hit: one thousandth,
/// so that a scattered ray does not hit the surface it leaves.
pub open spec fn spec_shadow_bias() -> Scalar {
    Scalar::from_ratio(1, 1000)
}

#[verifier::when_used_as_spec(spec_shadow_bias)]
pub fn shadow_bias() -> (r: Scalar)
    ensures
        r == spec_shadow_bias(),
{
    Scalar::from_ratio(1, 1000)
}

/// `out` is a radiance that `color` can return: black at depth zero;
/// else, for some outcome of the world's hit test, the background where the
/// ray hits nothing and what `may_shade` allows for the hit otherwise.
pub open spec fn may_color(ray: Ray, background: Vec3, world: &Hittable, depth: int, out: Vec3) -> bool
    decreases depth, 1int,
{
    if depth <= 0 {
        out == Vec3::zero()
    } else {
        exists|hit: Option<HitRecord>| #[trigger]
            world.may_hit(&ray, shadow_bias(), Scalar::infinity(), hit) && match hit {
                None => out == background,
                Some(record) => may_shade(ray, record, background, world, depth, out),
            }
    }
}

/// `out` is a radiance that can leave the hit `record` against the ray:
/// what the material emits, alone where it absorbs the ray, and otherwise
/// plus the attenuated radiance of the scattered ray at one depth less, for
/// some outcome of the material's scattering.
pub open spec fn may_shade(
    ray: Ray,
    record: HitRecord,
    background: Vec3,
    world: &Hittable,
    depth: int,
    out: Vec3,
) -> bool
    decreases depth, 0int,
{
    let emitted = record.material.spec_emitted(record.u, record.v, record.position);
    ||| record.material.may_scatter(&ray, &record, None) && out == emitted
    ||| depth > 0 && exists|scattered: Ray, attenuation: Vec3, incoming: Vec3|
        #![trigger record.material.may_scatter(&ray, &record, Some((scattered, attenuation))), attenuation.times(incoming)]
        record.material.may_scatter(&ray, &record, Some((scattered, attenuation))) && may_color(
            scattered,
            background,
            world,
            depth - 1,
            incoming,
        ) && out == emitted.plus(attenuation.times(incoming))
}

impl Ray {
    /// The radiance along the ray, followed through at most `depth`
    /// scatterings in `world`; rays that leave the world see `background`.
    pub fn color(&self, background: Vec3, world: &Hittable, depth: i32) -> (r: Vec3)
        ensures
            may_color(*self, background, world, depth as int, r),
        decreases depth,
    {
        if depth <= 0 {
            return Vec3::zero();
        }
        let hit: Option<HitRecord> = world.hit(self, shadow_bias(), Scalar::infinity());
        let ghost seen = hit;
        let r = match hit {
            Some(record) => {
                let emitted: Vec3 = record.material.emitted(record.u, record.v, record.position);
                match record.material.scatter(self, &record) {
                    Some((scattered, attenuation)) => {
                        let incoming: Vec3 = scattered.color(background, world, depth - 1);
                        let r = emitted.plus(attenuation.times(incoming));
                        assert(may_shade(*self, record, background, world, depth as int, r)) by {
                            assert(record.material.may_scatter(
                                self,
                                &record,
                                Some((scattered, attenuation)),
                            ) && may_color(
                                scattered,
                                background,
                                world,
                                depth as int - 1,
                                incoming,
                            ) && r == emitted.plus(attenuation.times(incoming)));
                        }
                        r
                    },
                    None => emitted,
                }
            },
            None => background,
        };
        assert(world.may_hit(self, shadow_bias(), Scalar::infinity(), seen) && match seen {
            None => r == background,
            Some(record) => may_shade(*self, record, background, world, depth as int, r),
        });
        r
    }
}

} // verus!
