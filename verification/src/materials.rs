//! Materials: how a surface sends on the light that reaches it.

use crate::hittable::HitRecord;
use crate::random::{is_unit, random_double};
use crate::ray::Ray;
use crate::scalar::{Scalar, ONE_RAW};
use crate::texture::{SolidColor, Texture};
use crate::vec3::{lemma_zero_length, Vec3};
use std::sync::Arc;
use vstd::prelude::*;

verus! {

pub struct Lambertian {
    pub texture: Arc<Texture>,
}

pub struct Metal {
    pub albedo: Vec3,
    pub fuzz: Scalar,
}

pub struct Dielectric {
    pub refraction_index: Scalar,
}

pub struct DiffuseLight {
    pub emit: Arc<Texture>,
}

pub struct Isotropic {
    pub albedo: Arc<Texture>,
}

pub enum Material {
    Lambertian(Lambertian),
    Metal(Metal),
    Dielectric(Dielectric),
    DiffuseLight(DiffuseLight),
    Isotropic(Isotropic),
}

/// A scattered ray and the colour by which its light is attenuated, or
/// nothing where the light is absorbed.
pub type Scatter = Option<(Ray, Vec3)>;

impl Lambertian {
    /// A diffuse surface of one colour.
    pub fn new(color: Vec3) -> (r: Lambertian)
        ensures
            *r.texture == Texture::Solid(SolidColor::new(color)),
    {
        Lambertian { texture: Arc::new(Texture::Solid(SolidColor::new(color))) }
    }

    pub fn from_texture(texture: Arc<Texture>) -> (r: Lambertian)
        ensures
            r.texture == texture,
    {
        Lambertian { texture }
    }

    /// Scatters along the normal plus the direction of `sample`, or along
    /// the normal alone where the two cancel; the texture attenuates.
    pub open spec fn scatter_spec(&self, ray: &Ray, hit_record: &HitRecord, sample: Vec3) -> Scatter {
        let direction = hit_record.normal.plus(sample.unit_vector());
        let scattered = Ray::new(
            hit_record.position,
            if direction.near_zero() {
                hit_record.normal
            } else {
                direction
            },
            ray.time,
        );
        Some(
            (scattered, self.texture.value_spec(hit_record.u, hit_record.v, hit_record.position)),
        )
    }

    /// `scatter` for a given point `sample` of the unit sphere.
    pub fn scatter_with(&self, ray: &Ray, hit_record: &HitRecord, sample: Vec3) -> (r: Scatter)
        ensures
            r == self.scatter_spec(ray, hit_record, sample),
    {
        let mut scatter_direction: Vec3 = hit_record.normal.plus(sample.unit_vector());
        if scatter_direction.near_zero() {
            scatter_direction = hit_record.normal;
        }
        let scattered: Ray = Ray::new(hit_record.position, scatter_direction, ray.time);
        Some(
            (scattered, self.texture.value(hit_record.u, hit_record.v, hit_record.position)),
        )
    }
}

impl Lambertian {
    /// `outcome` is what the surface does for some point of the unit
    /// sphere.
    pub open spec fn may_scatter(&self, ray: &Ray, hit_record: &HitRecord, outcome: Scatter) -> bool {
        exists|sample: Vec3|
            Vec3::in_unit_sphere(sample) && outcome == #[trigger] self.scatter_spec(
                ray,
                hit_record,
                sample,
            )
    }

    /// Scatters the ray diffusely, by a point drawn inside the unit sphere.
    /// The ray is never absorbed.
    pub fn scatter(&self, ray: &Ray, hit_record: &HitRecord) -> (r: Scatter)
        ensures
            self.may_scatter(ray, hit_record, r),
            r is Some,
    {
        let sample: Vec3 = Vec3::random_in_unit_sphere();
        let r = self.scatter_with(ray, hit_record, sample);
        assert(Vec3::in_unit_sphere(sample) && r == self.scatter_spec(ray, hit_record, sample));
        r
    }
}

impl Metal {
    /// `outcome` is what the mirror does for some point of the unit sphere.
    pub open spec fn may_scatter(&self, ray: &Ray, hit_record: &HitRecord, outcome: Scatter) -> bool {
        exists|sample: Vec3|
            Vec3::in_unit_sphere(sample) && outcome == #[trigger] self.scatter_spec(
                ray,
                hit_record,
                sample,
            )
    }

    /// Reflects the ray, perturbed by a point drawn inside the unit sphere.
    pub fn scatter(&self, ray: &Ray, hit_record: &HitRecord) -> (r: Scatter)
        ensures
            self.may_scatter(ray, hit_record, r),
    {
        let sample: Vec3 = Vec3::random_in_unit_sphere();
        let r = self.scatter_with(ray, hit_record, sample);
        assert(Vec3::in_unit_sphere(sample) && r == self.scatter_spec(ray, hit_record, sample));
        r
    }

    pub open spec fn spec_new(albedo: Vec3, fuzz: Scalar) -> Metal {
        Metal { albedo, fuzz: if fuzz@ < ONE_RAW { fuzz } else { Scalar::one() } }
    }

    /// A mirror of the given colour; `fuzz` is held to one at most.
    #[verifier::when_used_as_spec(spec_new)]
    pub fn new(albedo: Vec3, fuzz: Scalar) -> (r: Metal)
        ensures
            r == Metal::spec_new(albedo, fuzz),
            r.fuzz@ <= ONE_RAW,
    {
        Metal { albedo, fuzz: if fuzz.lt(Scalar::one()) { fuzz } else { Scalar::one() } }
    }

    /// Reflects the ray about the normal and perturbs it by `fuzz` times
    /// `sample`; a ray that would enter the surface is absorbed.
    pub open spec fn scatter_spec(&self, ray: &Ray, hit_record: &HitRecord, sample: Vec3) -> Scatter {
        let reflected = ray.direction.unit_vector().reflect(hit_record.normal);
        let scattered = Ray::new(
            hit_record.position,
            reflected.plus(sample.scale(self.fuzz)),
            ray.time,
        );
        if scattered.direction.dot(hit_record.normal)@ > 0 {
            Some((scattered, self.albedo))
        } else {
            None
        }
    }

    /// `scatter` for a given point `sample` of the unit sphere.
    pub fn scatter_with(&self, ray: &Ray, hit_record: &HitRecord, sample: Vec3) -> (r: Scatter)
        ensures
            r == self.scatter_spec(ray, hit_record, sample),
    {
        let reflected: Vec3 = ray.direction.unit_vector().reflect(hit_record.normal);
        let scattered: Ray = Ray::new(
            hit_record.position,
            reflected.plus(sample.scale(self.fuzz)),
            ray.time,
        );
        if Scalar::zero().lt(scattered.direction.dot(hit_record.normal)) {
            Some((scattered, self.albedo))
        } else {
            None
        }
    }
}

impl Dielectric {
    pub open spec fn spec_new(refraction_index: Scalar) -> Dielectric {
        Dielectric { refraction_index }
    }

    #[verifier::when_used_as_spec(spec_new)]
    pub fn new(refraction_index: Scalar) -> (r: Dielectric)
        ensures
            r == Dielectric::spec_new(refraction_index),
    {
        Dielectric { refraction_index }
    }

    /// The reflectance at normal incidence: `((1 - n) / (1 + n))^2`.
    pub open spec fn base_reflectance(refraction_index: Scalar) -> Scalar {
        let r0 = Scalar::one().minus(refraction_index).over(Scalar::one().plus(refraction_index));
        r0.times(r0)
    }

    /// The fifth power.
    pub open spec fn fifth(x: Scalar) -> Scalar {
        x.times(x).times(x).times(x).times(x)
    }

    pub open spec fn spec_reflectance(cosine: Scalar, refraction_index: Scalar) -> Scalar {
        let r0 = Dielectric::base_reflectance(refraction_index);
        r0.plus(Scalar::one().minus(r0).times(Dielectric::fifth(Scalar::one().minus(cosine))))
    }

    /// Schlick's approximation of the share of light that is reflected:
    /// `r0 + (1 - r0) (1 - cosine)^5`.
    #[verifier::when_used_as_spec(spec_reflectance)]
    pub fn reflectance(cosine: Scalar, refraction_index: Scalar) -> (r: Scalar)
        ensures
            r == Dielectric::spec_reflectance(cosine, refraction_index),
    {
        let r0: Scalar = Scalar::one().minus(refraction_index).over(
            Scalar::one().plus(refraction_index),
        );
        let r0: Scalar = r0.times(r0);
        let x: Scalar = Scalar::one().minus(cosine);
        r0.plus(Scalar::one().minus(r0).times(x.times(x).times(x).times(x).times(x)))
    }

    /// Reflects where refraction is impossible or where the reflectance
    /// exceeds `coin`, and refracts otherwise; nothing is absorbed.
    pub open spec fn scatter_spec(&self, ray: &Ray, hit_record: &HitRecord, coin: Scalar) -> Scatter {
        let refraction_ratio = if hit_record.front_face {
            Scalar::one().over(self.refraction_index)
        } else {
            self.refraction_index
        };
        let unit_direction = ray.direction.unit_vector();
        let cos_theta = unit_direction.neg().dot(hit_record.normal).min(Scalar::one());
        let sin_theta = Scalar::one().minus(cos_theta.times(cos_theta)).sqrt();
        let cannot_refract = refraction_ratio.times(sin_theta)@ > ONE_RAW;
        let direction = if cannot_refract || Dielectric::reflectance(
            cos_theta,
            self.refraction_index,
        )@ > coin@ {
            unit_direction.reflect(hit_record.normal)
        } else {
            unit_direction.refract(hit_record.normal, refraction_ratio)
        };
        Some((Ray::new(hit_record.position, direction, ray.time), Vec3::splat(Scalar::one())))
    }

    /// `scatter` for a given number `coin` of `[0, 1)`.
    pub fn scatter_with(&self, ray: &Ray, hit_record: &HitRecord, coin: Scalar) -> (r: Scatter)
        ensures
            r == self.scatter_spec(ray, hit_record, coin),
    {
        let refraction_ratio: Scalar = if hit_record.front_face {
            Scalar::one().over(self.refraction_index)
        } else {
            self.refraction_index
        };
        let unit_direction: Vec3 = ray.direction.unit_vector();
        let cos_theta: Scalar = unit_direction.neg().dot(hit_record.normal).min(Scalar::one());
        let sin_theta: Scalar = Scalar::one().minus(cos_theta.times(cos_theta)).sqrt();
        let cannot_refract: bool = Scalar::one().lt(refraction_ratio.times(sin_theta));
        let direction: Vec3 = if cannot_refract || coin.lt(
            Dielectric::reflectance(cos_theta, self.refraction_index),
        ) {
            unit_direction.reflect(hit_record.normal)
        } else {
            unit_direction.refract(hit_record.normal, refraction_ratio)
        };
        let scattered: Ray = Ray::new(hit_record.position, direction, ray.time);
        Some((scattered, Vec3::splat(Scalar::one())))
    }
}

impl Dielectric {
    /// `outcome` is what the glass does for some number of `[0, 1)`.
    pub open spec fn may_scatter(&self, ray: &Ray, hit_record: &HitRecord, outcome: Scatter) -> bool {
        exists|coin: Scalar|
            is_unit(coin) && outcome == #[trigger] self.scatter_spec(ray, hit_record, coin)
    }

    /// Reflects or refracts the ray, by a number drawn from `[0, 1)`. The
    /// ray is never absorbed.
    pub fn scatter(&self, ray: &Ray, hit_record: &HitRecord) -> (r: Scatter)
        ensures
            self.may_scatter(ray, hit_record, r),
            r is Some,
    {
        let coin: Scalar = random_double();
        let r = self.scatter_with(ray, hit_record, coin);
        assert(is_unit(coin) && r == self.scatter_spec(ray, hit_record, coin));
        r
    }
}

impl DiffuseLight {
    /// A light scatters nothing.
    pub fn scatter(&self, ray: &Ray, hit_record: &HitRecord) -> (r: Scatter)
        ensures
            r is None,
    {
        None
    }

    /// The colour of the light's texture.
    pub fn emitted(&self, u: Scalar, v: Scalar, p: Vec3) -> (c: Vec3)
        ensures
            c == self.emit.value_spec(u, v, p),
    {
        self.emit.value(u, v, p)
    }

    /// A light of one colour.
    pub fn new(color: Vec3) -> (r: DiffuseLight)
        ensures
            *r.emit == Texture::Solid(SolidColor::new(color)),
    {
        DiffuseLight { emit: Arc::new(Texture::Solid(SolidColor::new(color))) }
    }

    pub fn from_texture(texture: Arc<Texture>) -> (r: DiffuseLight)
        ensures
            r.emit == texture,
    {
        DiffuseLight { emit: texture }
    }
}

impl Isotropic {
    /// `outcome` is what the medium does for some point of the unit sphere.
    pub open spec fn may_scatter(&self, ray: &Ray, hit_record: &HitRecord, outcome: Scatter) -> bool {
        exists|sample: Vec3|
            Vec3::in_unit_sphere(sample) && outcome == #[trigger] self.scatter_spec(
                ray,
                hit_record,
                sample,
            )
    }

    /// Scatters the ray toward a point drawn inside the unit sphere. The
    /// ray is never absorbed.
    pub fn scatter(&self, ray: &Ray, hit_record: &HitRecord) -> (r: Scatter)
        ensures
            self.may_scatter(ray, hit_record, r),
            r is Some,
    {
        let sample: Vec3 = Vec3::random_in_unit_sphere();
        let r = self.scatter_with(ray, hit_record, sample);
        assert(Vec3::in_unit_sphere(sample) && r == self.scatter_spec(ray, hit_record, sample));
        r
    }

    /// A medium of one colour.
    pub fn new(color: Vec3) -> (r: Isotropic)
        ensures
            *r.albedo == Texture::Solid(SolidColor::new(color)),
    {
        Isotropic { albedo: Arc::new(Texture::Solid(SolidColor::new(color))) }
    }

    pub fn from_texture(texture: Arc<Texture>) -> (r: Isotropic)
        ensures
            r.albedo == texture,
    {
        Isotropic { albedo: texture }
    }

    /// Scatters toward `sample`, whatever the incoming direction; the
    /// texture attenuates.
    pub open spec fn scatter_spec(&self, ray: &Ray, hit_record: &HitRecord, sample: Vec3) -> Scatter {
        Some(
            (
                Ray::new(hit_record.position, sample, ray.time),
                self.albedo.value_spec(hit_record.u, hit_record.v, hit_record.position),
            ),
        )
    }

    /// `scatter` for a given point `sample` of the unit sphere.
    pub fn scatter_with(&self, ray: &Ray, hit_record: &HitRecord, sample: Vec3) -> (r: Scatter)
        ensures
            r == self.scatter_spec(ray, hit_record, sample),
    {
        let scattered: Ray = Ray::new(hit_record.position, sample, ray.time);
        Some((scattered, self.albedo.value(hit_record.u, hit_record.v, hit_record.position)))
    }
}

impl Material {
    /// What the material does with a ray that hit it, given the random
    /// point `sample` of the unit sphere and the random number `coin` of
    /// `[0, 1)` that it may consult.
    pub open spec fn scatter_spec(
        &self,
        ray: &Ray,
        hit_record: &HitRecord,
        sample: Vec3,
        coin: Scalar,
    ) -> Scatter {
        match self {
            Material::Lambertian(m) => m.scatter_spec(ray, hit_record, sample),
            Material::Metal(m) => m.scatter_spec(ray, hit_record, sample),
            Material::Dielectric(m) => m.scatter_spec(ray, hit_record, coin),
            Material::DiffuseLight(_) => None,
            Material::Isotropic(m) => m.scatter_spec(ray, hit_record, sample),
        }
    }

    /// `scatter` for given random draws.
    pub fn scatter_with(
        &self,
        ray: &Ray,
        hit_record: &HitRecord,
        sample: Vec3,
        coin: Scalar,
    ) -> (r: Scatter)
        ensures
            r == self.scatter_spec(ray, hit_record, sample, coin),
    {
        match self {
            Material::Lambertian(m) => m.scatter_with(ray, hit_record, sample),
            Material::Metal(m) => m.scatter_with(ray, hit_record, sample),
            Material::Dielectric(m) => m.scatter_with(ray, hit_record, coin),
            Material::DiffuseLight(_) => None,
            Material::Isotropic(m) => m.scatter_with(ray, hit_record, sample),
        }
    }

    /// `outcome` is what the material does for some random draws.
    #[verifier::opaque]
    pub open spec fn may_scatter(&self, ray: &Ray, hit_record: &HitRecord, outcome: Scatter) -> bool {
        exists|sample: Vec3, coin: Scalar|
            Vec3::in_unit_sphere(sample) && is_unit(coin) && outcome == #[trigger] self.scatter_spec(
                ray,
                hit_record,
                sample,
                coin,
            )
    }

    /// Scatters the ray as the material does, by the random draws it
    /// consults. A light never scatters.
    pub fn scatter(&self, ray: &Ray, hit_record: &HitRecord) -> (r: Scatter)
        ensures
            self.may_scatter(ray, hit_record, r),
            self is DiffuseLight ==> r is None,
    {
        reveal(Material::may_scatter);
        proof {
            lemma_zero_length();
        }
        let ghost still = Vec3::zero();
        let ghost heads = Scalar::zero();
        match self {
            Material::Lambertian(m) => {
                let r = m.scatter(ray, hit_record);
                proof {
                    let sample = choose|sample: Vec3|
                        Vec3::in_unit_sphere(sample) && r == #[trigger] m.scatter_spec(
                            ray,
                            hit_record,
                            sample,
                        );
                    assert(r == self.scatter_spec(ray, hit_record, sample, heads));
                }
                r
            },
            Material::Metal(m) => {
                let r = m.scatter(ray, hit_record);
                proof {
                    let sample = choose|sample: Vec3|
                        Vec3::in_unit_sphere(sample) && r == #[trigger] m.scatter_spec(
                            ray,
                            hit_record,
                            sample,
                        );
                    assert(r == self.scatter_spec(ray, hit_record, sample, heads));
                }
                r
            },
            Material::Dielectric(m) => {
                let r = m.scatter(ray, hit_record);
                proof {
                    let coin = choose|coin: Scalar|
                        is_unit(coin) && r == #[trigger] m.scatter_spec(ray, hit_record, coin);
                    assert(r == self.scatter_spec(ray, hit_record, still, coin));
                }
                r
            },
            Material::DiffuseLight(m) => {
                let r = m.scatter(ray, hit_record);
                assert(r == self.scatter_spec(ray, hit_record, still, heads));
                r
            },
            Material::Isotropic(m) => {
                let r = m.scatter(ray, hit_record);
                proof {
                    let sample = choose|sample: Vec3|
                        Vec3::in_unit_sphere(sample) && r == #[trigger] m.scatter_spec(
                            ray,
                            hit_record,
                            sample,
                        );
                    assert(r == self.scatter_spec(ray, hit_record, sample, heads));
                }
                r
            },
        }
    }

    pub open spec fn spec_emitted(&self, u: Scalar, v: Scalar, p: Vec3) -> Vec3 {
        match self {
            Material::DiffuseLight(m) => m.emit.value_spec(u, v, p),
            _ => Vec3::zero(),
        }
    }

    /// The light that the surface gives off by itself: its texture for a
    /// light, none for any other material.
    pub fn emitted(&self, u: Scalar, v: Scalar, p: Vec3) -> (c: Vec3)
        ensures
            c == self.spec_emitted(u, v, p),
    {
        match self {
            Material::DiffuseLight(m) => m.emitted(u, v, p),
            _ => Vec3::zero(),
        }
    }
}

/// Seen head on, a dielectric reflects its base reflectance, whatever its
/// refraction index.
pub proof fn law_reflectance_head_on(refraction_index: Scalar)
    ensures
        Dielectric::reflectance(Scalar::one(), refraction_index)@ == Dielectric::base_reflectance(
            refraction_index,
        )@,
{
    let r0 = Dielectric::base_reflectance(refraction_index);
    let x = Scalar::one().minus(Scalar::one());
    assert(x@ == 0);
    lemma_times_zero(x, x);
    lemma_times_zero(x.times(x), x);
    lemma_times_zero(x.times(x).times(x), x);
    lemma_times_zero(x.times(x).times(x).times(x), x);
    lemma_times_zero(Scalar::one().minus(r0), Dielectric::fifth(x));
}

/// At grazing incidence the reflectance is one, whatever the refraction
/// index.
pub proof fn law_reflectance_grazing(refraction_index: Scalar)
    ensures
        Dielectric::reflectance(Scalar::zero(), refraction_index)@ == ONE_RAW,
{
    let r0 = Dielectric::base_reflectance(refraction_index);
    let x = Scalar::one().minus(Scalar::zero());
    assert(x@ == ONE_RAW);
    lemma_times_one(x, x);
    lemma_times_one(x.times(x), x);
    lemma_times_one(x.times(x).times(x), x);
    lemma_times_one(x.times(x).times(x).times(x), x);
    lemma_times_one(Scalar::one().minus(r0), Dielectric::fifth(x));
    lemma_square_bounds(Scalar::one().minus(refraction_index).over(Scalar::one().plus(refraction_index)));
}

/// A product with zero is zero.
proof fn lemma_times_zero(a: Scalar, b: Scalar)
    requires
        a@ == 0 || b@ == 0,
    ensures
        a.times(b)@ == 0,
{
    assert(a@ * b@ == 0) by (nonlinear_arith)
        requires
            a@ == 0 || b@ == 0,
    ;
}

/// A product with one is the other factor.
proof fn lemma_times_one(a: Scalar, b: Scalar)
    requires
        b@ == ONE_RAW,
    ensures
        a.times(b)@ == a@,
{
    let n = a@ * b@;
    assert(n == a@ * (ONE_RAW as int));
    if a@ >= 0 {
        assert(n / (ONE_RAW as int) == a@) by (nonlinear_arith)
            requires
                n == a@ * (ONE_RAW as int),
        ;
        assert(n >= 0) by (nonlinear_arith)
            requires
                n == a@ * (ONE_RAW as int),
                a@ >= 0,
        ;
    } else {
        assert((-n) / (ONE_RAW as int) == -a@) by (nonlinear_arith)
            requires
                n == a@ * (ONE_RAW as int),
        ;
        assert(n < 0) by (nonlinear_arith)
            requires
                n == a@ * (ONE_RAW as int),
                a@ < 0,
        ;
    }
}

/// A square is not negative.
proof fn lemma_square_bounds(a: Scalar)
    ensures
        a.times(a)@ >= 0,
{
    assert(a@ * a@ >= 0) by (nonlinear_arith);
    assert((a@ * a@) / (ONE_RAW as int) >= 0) by (nonlinear_arith)
        requires
            a@ * a@ >= 0,
    ;
}

} // verus!
