//! Random numbers. All randomness of the library enters through
//! `random_word`; what is made of a drawn word is verified.

use crate::scalar::{Scalar, ONE_RAW};
use crate::vec3::{lemma_zero_length, Vec3};
use vstd::prelude::*;

verus! {

/// Calls `rand::random::<u32>()`, which draws the next word from the
/// thread-local generator. Nothing is claimed of the word drawn. The call
/// fails only where the system gives the generator no entropy to seed
/// itself with.
#[verifier::external_body]
fn random_word() -> (word: u32)
{
    rand::random::<u32>()
}

/// The number in `[0, 1)` that the top 24 bits of `word` spell out.
pub open spec fn unit_spec(word: u32) -> Scalar {
    Scalar::of(word as int / 256)
}

/// Turns a drawn word into a number in `[0, 1)`.
pub fn unit_from_word(word: u32) -> (r: Scalar)
    ensures
        r == unit_spec(word),
        0 <= r@ < ONE_RAW,
{
    let top: u32 = word / 256;
    Scalar::from_raw(top as i64)
}

/// The axis, 0, 1 or 2, that a drawn word selects.
pub fn axis_from_word(word: u32) -> (axis: usize)
    ensures
        axis == word as int % 3,
        axis < 3,
{
    (word % 3) as usize
}

/// `min + (max - min) * unit`: the point of `[min, max)` that a number of
/// `[0, 1)` selects.
pub open spec fn range_spec(min: Scalar, max: Scalar, unit: Scalar) -> Scalar {
    min.plus(max.minus(min).times(unit))
}

pub fn range_from_unit(min: Scalar, max: Scalar, unit: Scalar) -> (r: Scalar)
    ensures
        r == range_spec(min, max, unit),
{
    min.plus(max.minus(min).times(unit))
}

/// `unit` is a number of `[0, 1)`.
pub open spec fn is_unit(unit: Scalar) -> bool {
    0 <= unit@ < ONE_RAW
}

/// A number drawn uniformly from `[0, 1)`.
pub fn random_double() -> (r: Scalar)
    ensures
        is_unit(r),
{
    unit_from_word(random_word())
}

/// A number drawn from `[min, max)`.
pub fn random_double_range(min: Scalar, max: Scalar) -> (r: Scalar)
    ensures
        exists|unit: Scalar| is_unit(unit) && r == range_spec(min, max, unit),
{
    let unit: Scalar = random_double();
    range_from_unit(min, max, unit)
}

/// An axis drawn uniformly from 0, 1 and 2.
pub fn random_axis() -> (axis: usize)
    ensures
        axis < 3,
{
    axis_from_word(random_word())
}

/// An index below `bound`: the whole part of `bound * unit`.
pub open spec fn index_spec(bound: u32, unit: Scalar) -> int {
    if is_unit(unit) {
        (bound as int * unit@) / (ONE_RAW as int)
    } else {
        0
    }
}

pub proof fn lemma_index_below(bound: u32, unit: Scalar)
    requires
        bound > 0,
    ensures
        0 <= index_spec(bound, unit) < bound,
{
    if is_unit(unit) {
        let b = bound as int;
        let u = unit@;
        assert(0 <= b * u && b * u < b * (ONE_RAW as int)) by (nonlinear_arith)
            requires
                b > 0,
                0 <= u < ONE_RAW as int,
        ;
        assert((b * u) / (ONE_RAW as int) < b) by (nonlinear_arith)
            requires
                0 <= b * u < b * (ONE_RAW as int),
        ;
        assert((b * u) / (ONE_RAW as int) >= 0) by (nonlinear_arith)
            requires
                0 <= b * u,
        ;
    }
}

/// The index below `bound` that a number of `[0, 1)` selects; 0 for any
/// other number.
pub fn index_from_unit(bound: u32, unit: Scalar) -> (index: usize)
    requires
        bound > 0,
    ensures
        index == index_spec(bound, unit),
        index < bound,
{
    proof {
        lemma_index_below(bound, unit);
    }
    let u: i64 = unit.value();
    if 0 <= u && u < ONE_RAW {
        let wide: u64 = (bound as u64) * (u as u64);
        (wide / (ONE_RAW as u64)) as usize
    } else {
        0
    }
}

/// An index drawn from `0 .. bound`: the one that a number drawn from
/// `[0, 1)` selects.
pub fn random_index(bound: u32) -> (index: usize)
    requires
        bound > 0,
    ensures
        exists|unit: Scalar| is_unit(unit) && index == #[trigger] index_spec(bound, unit),
        index < bound,
{
    let unit: Scalar = random_double();
    let index: usize = index_from_unit(bound, unit);
    assert(is_unit(unit) && index == index_spec(bound, unit));
    index
}

/// Each component of `v` lies in `[min, max)` as selected by some number
/// of `[0, 1)`.
pub open spec fn in_range_box(v: Vec3, min: Scalar, max: Scalar) -> bool {
    exists|a: Scalar, b: Scalar, c: Scalar|
        #![trigger range_spec(min, max, a), range_spec(min, max, b), range_spec(min, max, c)]
        is_unit(a) && is_unit(b) && is_unit(c) && v == Vec3::new(
            range_spec(min, max, a),
            range_spec(min, max, b),
            range_spec(min, max, c),
        )
}

impl Vec3 {
    /// A vector whose components are drawn from `[0, 1)`.
    pub fn random() -> (r: Vec3)
        ensures
            is_unit(r.x),
            is_unit(r.y),
            is_unit(r.z),
    {
        Vec3::new(random_double(), random_double(), random_double())
    }

    /// A vector whose components are drawn from `[min, max)`.
    pub fn random_range(min: Scalar, max: Scalar) -> (r: Vec3)
        ensures
            in_range_box(r, min, max),
    {
        let a: Scalar = random_double();
        let b: Scalar = random_double();
        let c: Scalar = random_double();
        let r = Vec3::new(
            range_from_unit(min, max, a),
            range_from_unit(min, max, b),
            range_from_unit(min, max, c),
        );
        assert(is_unit(a) && is_unit(b) && is_unit(c) && r == Vec3::new(
            range_spec(min, max, a),
            range_spec(min, max, b),
            range_spec(min, max, c),
        ));
        r
    }

    /// `v` lies strictly inside the unit sphere.
    pub open spec fn in_unit_sphere(v: Vec3) -> bool {
        v.length_squared()@ < ONE_RAW
    }

    /// A point inside the unit sphere: points of the cube `[-1, 1)^3` are
    /// drawn until one falls inside, sixty-four times at most, after which
    /// the centre is returned.
    pub fn random_in_unit_sphere() -> (r: Vec3)
        ensures
            Vec3::in_unit_sphere(r),
    {
        let low: Scalar = Scalar::one().neg();
        let high: Scalar = Scalar::one();
        let mut tries: u32 = 0;
        while tries < 64
            invariant
                tries <= 64,
            decreases 64 - tries,
        {
            let p: Vec3 = Vec3::random_range(low, high);
            if p.length_squared().lt(Scalar::one()) {
                return p;
            }
            tries = tries + 1;
        }
        proof {
            lemma_zero_length();
        }
        Vec3::zero()
    }

    /// A random direction: a point drawn inside the unit sphere, divided by
    /// its length.
    pub fn random_unit_vector() -> (r: Vec3)
        ensures
            exists|p: Vec3| Vec3::in_unit_sphere(p) && r == #[trigger] p.unit_vector(),
    {
        let p: Vec3 = Vec3::random_in_unit_sphere();
        p.unit_vector()
    }

    /// `v` lies strictly inside the unit disk of the plane `z = 0`.
    pub open spec fn in_unit_disk(v: Vec3) -> bool {
        v.z@ == 0 && v.length_squared()@ < ONE_RAW
    }

    /// The point of the square `[-1, 1)^2` of the plane `z = 0` that two
    /// numbers of `[0, 1)` select.
    pub open spec fn square_point(a: Scalar, b: Scalar) -> Vec3 {
        Vec3::new(
            range_spec(Scalar::one().neg(), Scalar::one(), a),
            range_spec(Scalar::one().neg(), Scalar::one(), b),
            Scalar::zero(),
        )
    }

    /// A point inside the unit disk of the plane `z = 0`: points of the
    /// square `[-1, 1)^2` are drawn until one falls inside, sixty-four times
    /// at most, after which the centre is returned.
    pub fn random_in_unit_disk() -> (r: Vec3)
        ensures
            Vec3::in_unit_disk(r),
            r == Vec3::zero() || exists|a: Scalar, b: Scalar|
                is_unit(a) && is_unit(b) && r == #[trigger] Vec3::square_point(a, b),
    {
        let low: Scalar = Scalar::one().neg();
        let high: Scalar = Scalar::one();
        let mut tries: u32 = 0;
        while tries < 64
            invariant
                tries <= 64,
                low == Scalar::one().neg(),
                high == Scalar::one(),
            decreases 64 - tries,
        {
            let x: Scalar = random_double_range(low, high);
            let y: Scalar = random_double_range(low, high);
            let p: Vec3 = Vec3::new(x, y, Scalar::zero());
            proof {
                let a = choose|a: Scalar| is_unit(a) && x == range_spec(low, high, a);
                let b = choose|b: Scalar| is_unit(b) && y == range_spec(low, high, b);
                assert(is_unit(a) && is_unit(b) && p == Vec3::square_point(a, b));
            }
            if p.length_squared().lt(Scalar::one()) {
                return p;
            }
            tries = tries + 1;
        }
        proof {
            lemma_zero_length();
        }
        Vec3::zero()
    }
}

} // verus!
