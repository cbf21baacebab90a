//! Three-component vectors over `Scalar`: points, directions and colours.

use crate::scalar::{lemma_quot_neg, quot, Scalar, ONE_RAW};
use vstd::prelude::*;

verus! {

#[derive(Clone, Copy, Debug)]
pub struct Vec3 {
    pub x: Scalar,
    pub y: Scalar,
    pub z: Scalar,
}

/// The raw value of the dot product of two triples of raw values.
pub open spec fn dot_raw(ax: int, ay: int, az: int, bx: int, by: int, bz: int) -> int {
    quot(ax * bx + ay * by + az * bz, ONE_RAW as int)
}

impl Vec3 {
    pub open spec fn spec_new(x: Scalar, y: Scalar, z: Scalar) -> Vec3 {
        Vec3 { x, y, z }
    }

    #[verifier::when_used_as_spec(spec_new)]
    pub fn new(x: Scalar, y: Scalar, z: Scalar) -> (r: Vec3)
        ensures
            r == Vec3::spec_new(x, y, z),
    {
        Vec3 { x, y, z }
    }

    pub open spec fn spec_zero() -> Vec3 {
        Vec3 { x: Scalar::zero(), y: Scalar::zero(), z: Scalar::zero() }
    }

    #[verifier::when_used_as_spec(spec_zero)]
    pub fn zero() -> (r: Vec3)
        ensures
            r == Vec3::spec_zero(),
    {
        Vec3 { x: Scalar::zero(), y: Scalar::zero(), z: Scalar::zero() }
    }

    pub open spec fn spec_splat(s: Scalar) -> Vec3 {
        Vec3 { x: s, y: s, z: s }
    }

    /// The vector whose three components are all `s`.
    #[verifier::when_used_as_spec(spec_splat)]
    pub fn splat(s: Scalar) -> (r: Vec3)
        ensures
            r == Vec3::spec_splat(s),
    {
        Vec3 { x: s, y: s, z: s }
    }

    pub open spec fn spec_axis(self, axis: usize) -> Scalar {
        if axis == 0 {
            self.x
        } else if axis == 1 {
            self.y
        } else {
            self.z
        }
    }

    /// The component along axis 0 (x), 1 (y) or 2 (z).
    #[verifier::when_used_as_spec(spec_axis)]
    pub fn axis(self, axis: usize) -> (r: Scalar)
        requires
            axis < 3,
        ensures
            r == self.spec_axis(axis),
    {
        if axis == 0 {
            self.x
        } else if axis == 1 {
            self.y
        } else {
            self.z
        }
    }

    pub open spec fn spec_unit(axis: usize) -> Vec3 {
        Vec3 {
            x: if axis == 0 { Scalar::one() } else { Scalar::zero() },
            y: if axis == 1 { Scalar::one() } else { Scalar::zero() },
            z: if axis == 2 { Scalar::one() } else { Scalar::zero() },
        }
    }

    /// The unit vector along axis 0 (x), 1 (y) or 2 (z).
    #[verifier::when_used_as_spec(spec_unit)]
    pub fn unit(axis: usize) -> (r: Vec3)
        requires
            axis < 3,
        ensures
            r == Vec3::spec_unit(axis),
    {
        Vec3 {
            x: if axis == 0 { Scalar::one() } else { Scalar::zero() },
            y: if axis == 1 { Scalar::one() } else { Scalar::zero() },
            z: if axis == 2 { Scalar::one() } else { Scalar::zero() },
        }
    }

    pub open spec fn spec_plus(self, other: Vec3) -> Vec3 {
        Vec3 { x: self.x.plus(other.x), y: self.y.plus(other.y), z: self.z.plus(other.z) }
    }

    #[verifier::when_used_as_spec(spec_plus)]
    pub fn plus(self, other: Vec3) -> (r: Vec3)
        ensures
            r == self.spec_plus(other),
    {
        Vec3 { x: self.x.plus(other.x), y: self.y.plus(other.y), z: self.z.plus(other.z) }
    }

    pub open spec fn spec_minus(self, other: Vec3) -> Vec3 {
        Vec3 { x: self.x.minus(other.x), y: self.y.minus(other.y), z: self.z.minus(other.z) }
    }

    #[verifier::when_used_as_spec(spec_minus)]
    pub fn minus(self, other: Vec3) -> (r: Vec3)
        ensures
            r == self.spec_minus(other),
    {
        Vec3 { x: self.x.minus(other.x), y: self.y.minus(other.y), z: self.z.minus(other.z) }
    }

    pub open spec fn spec_neg(self) -> Vec3 {
        Vec3 { x: self.x.neg(), y: self.y.neg(), z: self.z.neg() }
    }

    #[verifier::when_used_as_spec(spec_neg)]
    pub fn neg(self) -> (r: Vec3)
        ensures
            r == self.spec_neg(),
    {
        Vec3 { x: self.x.neg(), y: self.y.neg(), z: self.z.neg() }
    }

    pub open spec fn spec_scale(self, k: Scalar) -> Vec3 {
        Vec3 { x: self.x.times(k), y: self.y.times(k), z: self.z.times(k) }
    }

    /// Every component multiplied by `k`.
    #[verifier::when_used_as_spec(spec_scale)]
    pub fn scale(self, k: Scalar) -> (r: Vec3)
        ensures
            r == self.spec_scale(k),
    {
        Vec3 { x: self.x.times(k), y: self.y.times(k), z: self.z.times(k) }
    }

    pub open spec fn spec_shrink(self, k: Scalar) -> Vec3 {
        Vec3 { x: self.x.over(k), y: self.y.over(k), z: self.z.over(k) }
    }

    /// Every component divided by `k`.
    #[verifier::when_used_as_spec(spec_shrink)]
    pub fn shrink(self, k: Scalar) -> (r: Vec3)
        ensures
            r == self.spec_shrink(k),
    {
        Vec3 { x: self.x.over(k), y: self.y.over(k), z: self.z.over(k) }
    }

    pub open spec fn spec_times(self, other: Vec3) -> Vec3 {
        Vec3 { x: self.x.times(other.x), y: self.y.times(other.y), z: self.z.times(other.z) }
    }

    /// The component-wise product, as used to attenuate a colour.
    #[verifier::when_used_as_spec(spec_times)]
    pub fn times(self, other: Vec3) -> (r: Vec3)
        ensures
            r == self.spec_times(other),
    {
        Vec3 { x: self.x.times(other.x), y: self.y.times(other.y), z: self.z.times(other.z) }
    }

    pub open spec fn spec_dot(self, other: Vec3) -> Scalar {
        Scalar::of(dot_raw(self.x@, self.y@, self.z@, other.x@, other.y@, other.z@))
    }

    /// The dot product, rounded once.
    #[verifier::when_used_as_spec(spec_dot)]
    pub fn dot(self, other: Vec3) -> (r: Scalar)
        ensures
            r == self.spec_dot(other),
    {
        let ax: i128 = self.x.value() as i128;
        let ay: i128 = self.y.value() as i128;
        let az: i128 = self.z.value() as i128;
        let bx: i128 = other.x.value() as i128;
        let by: i128 = other.y.value() as i128;
        let bz: i128 = other.z.value() as i128;
        proof {
            lemma_product_bound(ax as int, bx as int);
            lemma_product_bound(ay as int, by as int);
            lemma_product_bound(az as int, bz as int);
        }
        let sum: i128 = ax * bx + ay * by + az * bz;
        Scalar::from_wide_quotient(sum, ONE_RAW as i128)
    }

    pub open spec fn spec_cross(self, other: Vec3) -> Vec3 {
        Vec3 {
            x: self.y.times(other.z).minus(self.z.times(other.y)),
            y: self.z.times(other.x).minus(self.x.times(other.z)),
            z: self.x.times(other.y).minus(self.y.times(other.x)),
        }
    }

    #[verifier::when_used_as_spec(spec_cross)]
    pub fn cross(self, other: Vec3) -> (r: Vec3)
        ensures
            r == self.spec_cross(other),
    {
        Vec3 {
            x: self.y.times(other.z).minus(self.z.times(other.y)),
            y: self.z.times(other.x).minus(self.x.times(other.z)),
            z: self.x.times(other.y).minus(self.y.times(other.x)),
        }
    }

    pub open spec fn spec_length_squared(self) -> Scalar {
        self.dot(self)
    }

    #[verifier::when_used_as_spec(spec_length_squared)]
    pub fn length_squared(self) -> (r: Scalar)
        ensures
            r == self.spec_length_squared(),
    {
        self.dot(self)
    }

    pub open spec fn spec_length(self) -> Scalar {
        self.length_squared().sqrt()
    }

    #[verifier::when_used_as_spec(spec_length)]
    pub fn length(self) -> (r: Scalar)
        ensures
            r == self.spec_length(),
    {
        self.length_squared().sqrt()
    }

    pub open spec fn spec_unit_vector(self) -> Vec3 {
        self.shrink(self.length())
    }

    /// The vector divided by its length. A vector of length zero has its
    /// components saturate, as any division by zero does.
    #[verifier::when_used_as_spec(spec_unit_vector)]
    pub fn unit_vector(self) -> (r: Vec3)
        ensures
            r == self.spec_unit_vector(),
    {
        self.shrink(self.length())
    }

    pub open spec fn spec_near_zero(self) -> bool {
        self.x@ == 0 && self.y@ == 0 && self.z@ == 0
    }

    /// Whether the vector is zero at the resolution of `Scalar`.
    #[verifier::when_used_as_spec(spec_near_zero)]
    pub fn near_zero(self) -> (r: bool)
        ensures
            r == self.spec_near_zero(),
    {
        self.x.is_zero() && self.y.is_zero() && self.z.is_zero()
    }

    pub open spec fn spec_reflect(self, normal: Vec3) -> Vec3 {
        self.minus(normal.scale(self.dot(normal).plus(self.dot(normal))))
    }

    /// The mirror image of `self` about the plane with the given normal:
    /// `self - 2 (self . normal) normal`.
    #[verifier::when_used_as_spec(spec_reflect)]
    pub fn reflect(self, normal: Vec3) -> (r: Vec3)
        ensures
            r == self.spec_reflect(normal),
    {
        let d: Scalar = self.dot(normal);
        self.minus(normal.scale(d.plus(d)))
    }

    pub open spec fn spec_refract(self, normal: Vec3, ratio: Scalar) -> Vec3 {
        let cos_theta = self.neg().dot(normal).min(Scalar::one());
        let perpendicular = self.plus(normal.scale(cos_theta)).scale(ratio);
        let parallel = normal.scale(
            Scalar::one().minus(perpendicular.length_squared()).abs().sqrt().neg(),
        );
        perpendicular.plus(parallel)
    }

    /// The direction of `self`, a unit vector, after it crosses a surface
    /// with the given normal and ratio of refraction indices (Snell's law).
    #[verifier::when_used_as_spec(spec_refract)]
    pub fn refract(self, normal: Vec3, ratio: Scalar) -> (r: Vec3)
        ensures
            r == self.spec_refract(normal, ratio),
    {
        let cos_theta: Scalar = self.neg().dot(normal).min(Scalar::one());
        let perpendicular: Vec3 = self.plus(normal.scale(cos_theta)).scale(ratio);
        let parallel: Vec3 = normal.scale(
            Scalar::one().minus(perpendicular.length_squared()).abs().sqrt().neg(),
        );
        perpendicular.plus(parallel)
    }
}

proof fn lemma_product_bound(a: int, b: int)
    by (nonlinear_arith)
    requires
        -0x2000_0000_0000_0000 <= a <= 0x2000_0000_0000_0000,
        -0x2000_0000_0000_0000 <= b <= 0x2000_0000_0000_0000,
    ensures
        -0x400_0000_0000_0000_0000_0000_0000_0000 <= a * b <= 0x400_0000_0000_0000_0000_0000_0000_0000,
{
}

/// The zero vector has length zero.
pub proof fn lemma_zero_length()
    ensures
        Vec3::zero().length_squared()@ == 0,
{
    let z = Vec3::zero();
    assert(z.x@ * z.x@ + z.y@ * z.y@ + z.z@ * z.z@ == 0) by (nonlinear_arith)
        requires
            z.x@ == 0,
            z.y@ == 0,
            z.z@ == 0,
    ;
}

/// Negating one factor negates the dot product exactly: products round
/// toward zero and the limits are symmetric.
pub proof fn lemma_dot_neg(a: Vec3, b: Vec3)
    ensures
        a.dot(b.neg())@ == -(a.dot(b)@),
        a.neg().dot(b)@ == -(a.dot(b)@),
{
    let s = a.x@ * b.x@ + a.y@ * b.y@ + a.z@ * b.z@;
    assert(a.x@ * (-b.x@) + a.y@ * (-b.y@) + a.z@ * (-b.z@) == -s) by (nonlinear_arith)
        requires
            s == a.x@ * b.x@ + a.y@ * b.y@ + a.z@ * b.z@,
    ;
    assert((-a.x@) * b.x@ + (-a.y@) * b.y@ + (-a.z@) * b.z@ == -s) by (nonlinear_arith)
        requires
            s == a.x@ * b.x@ + a.y@ * b.y@ + a.z@ * b.z@,
    ;
    lemma_quot_neg(s, ONE_RAW as int);
    assert(b.neg().x@ == -b.x@);
    assert(a.neg().x@ == -a.x@);
}

} // verus!
