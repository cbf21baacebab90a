//! Elementary functions on `Scalar`: sine, cosine, tangent, arc tangent,
//! arc sine and the natural logarithm, each a short polynomial evaluated in
//! fixed point after its argument has been brought into a small range.

use crate::scalar::{modulo, Scalar, LIMIT_RAW, ONE_RAW};
use vstd::prelude::*;

verus! {

/// The raw value of pi / 2.
pub const HALF_PI_RAW: i64 = 26353589;

/// The raw value of pi, twice that of pi / 2.
pub const PI_RAW: i64 = 52707178;

/// The raw value of 2 pi.
pub const TWO_PI_RAW: i64 = 105414356;

/// The raw value of the natural logarithm of 2.
pub const LN_2_RAW: i64 = 11629080;

/// The raw coefficients of the arc tangent polynomial, by degree.
pub const ATAN_1_RAW: i64 = 16776834;

pub const ATAN_3_RAW: i64 = -5580496;

pub const ATAN_5_RAW: i64 = 3247120;

pub const ATAN_7_RAW: i64 = -1953419;

pub const ATAN_9_RAW: i64 = 883376;

pub const ATAN_11_RAW: i64 = -196649;

/// The sine of an angle of the first quadrant, by its Taylor polynomial of
/// degree nine, kept within `[0, 1]`.
pub open spec fn sin_quadrant_spec(x: Scalar) -> Scalar {
    let x2 = x.times(x);
    let t4 = Scalar::one().minus(x2.over(Scalar::from_int(72)));
    let t3 = Scalar::one().minus(x2.over(Scalar::from_int(42)).times(t4));
    let t2 = Scalar::one().minus(x2.over(Scalar::from_int(20)).times(t3));
    let t1 = Scalar::one().minus(x2.over(Scalar::from_int(6)).times(t2));
    x.times(t1).clamp(Scalar::zero(), Scalar::one())
}

fn sin_quadrant(x: Scalar) -> (r: Scalar)
    ensures
        r == sin_quadrant_spec(x),
        0 <= r@ <= ONE_RAW,
{
    let x2: Scalar = x.times(x);
    let t4: Scalar = Scalar::one().minus(x2.over(Scalar::from_int(72)));
    let t3: Scalar = Scalar::one().minus(x2.over(Scalar::from_int(42)).times(t4));
    let t2: Scalar = Scalar::one().minus(x2.over(Scalar::from_int(20)).times(t3));
    let t1: Scalar = Scalar::one().minus(x2.over(Scalar::from_int(6)).times(t2));
    x.times(t1).clamp(Scalar::zero(), Scalar::one())
}

/// The arc tangent of a number of `[0, 1]`, by an odd polynomial of degree
/// eleven.
pub open spec fn atan_unit_spec(a: Scalar) -> Scalar {
    let a2 = a.times(a);
    let p5 = Scalar::from_raw(ATAN_11_RAW);
    let p4 = Scalar::from_raw(ATAN_9_RAW).plus(a2.times(p5));
    let p3 = Scalar::from_raw(ATAN_7_RAW).plus(a2.times(p4));
    let p2 = Scalar::from_raw(ATAN_5_RAW).plus(a2.times(p3));
    let p1 = Scalar::from_raw(ATAN_3_RAW).plus(a2.times(p2));
    let p0 = Scalar::from_raw(ATAN_1_RAW).plus(a2.times(p1));
    a.times(p0)
}

fn atan_unit(a: Scalar) -> (r: Scalar)
    ensures
        r == atan_unit_spec(a),
{
    let a2: Scalar = a.times(a);
    let p5: Scalar = Scalar::from_raw(ATAN_11_RAW);
    let p4: Scalar = Scalar::from_raw(ATAN_9_RAW).plus(a2.times(p5));
    let p3: Scalar = Scalar::from_raw(ATAN_7_RAW).plus(a2.times(p4));
    let p2: Scalar = Scalar::from_raw(ATAN_5_RAW).plus(a2.times(p3));
    let p1: Scalar = Scalar::from_raw(ATAN_3_RAW).plus(a2.times(p2));
    let p0: Scalar = Scalar::from_raw(ATAN_1_RAW).plus(a2.times(p1));
    a.times(p0)
}

/// How far `m` is from the range `[ONE_RAW, 2 ONE_RAW)` of a mantissa.
pub open spec fn mantissa_distance(m: int) -> int {
    if m >= 2 * ONE_RAW {
        m
    } else {
        2 * ONE_RAW - m
    }
}

/// Halves or doubles a positive `m` until it lies in
/// `[ONE_RAW, 2 ONE_RAW)`, counting in `e` the halvings less the doublings:
/// the value `m * 2^e` stays the same up to the bits that halving drops.
pub open spec fn normalize(m: int, e: int) -> (int, int)
    decreases mantissa_distance(m),
{
    if m <= 0 {
        (m, e)
    } else if m >= 2 * ONE_RAW {
        normalize(m / 2, e + 1)
    } else if m < ONE_RAW {
        normalize(2 * m, e - 1)
    } else {
        (m, e)
    }
}

/// The logarithm of a mantissa `m` of `[1, 2)`: twice the inverse
/// hyperbolic tangent of `(m - 1) / (m + 1)`, by its series to degree nine.
pub open spec fn ln_mantissa_spec(m: Scalar) -> Scalar {
    let s = m.minus(Scalar::one()).over(m.plus(Scalar::one()));
    let s2 = s.times(s);
    let q4 = Scalar::from_ratio(1, 9);
    let q3 = Scalar::from_ratio(1, 7).plus(s2.times(q4));
    let q2 = Scalar::from_ratio(1, 5).plus(s2.times(q3));
    let q1 = Scalar::from_ratio(1, 3).plus(s2.times(q2));
    let q0 = Scalar::one().plus(s2.times(q1));
    s.times(q0).plus(s.times(q0))
}

fn ln_mantissa(m: Scalar) -> (r: Scalar)
    ensures
        r == ln_mantissa_spec(m),
{
    let s: Scalar = m.minus(Scalar::one()).over(m.plus(Scalar::one()));
    let s2: Scalar = s.times(s);
    let q4: Scalar = Scalar::from_ratio(1, 9);
    let q3: Scalar = Scalar::from_ratio(1, 7).plus(s2.times(q4));
    let q2: Scalar = Scalar::from_ratio(1, 5).plus(s2.times(q3));
    let q1: Scalar = Scalar::from_ratio(1, 3).plus(s2.times(q2));
    let q0: Scalar = Scalar::one().plus(s2.times(q1));
    s.times(q0).plus(s.times(q0))
}

impl Scalar {
    pub open spec fn spec_pi() -> Scalar {
        Scalar { raw: PI_RAW }
    }

    #[verifier::when_used_as_spec(spec_pi)]
    pub fn pi() -> (r: Scalar)
        ensures
            r == Scalar::spec_pi(),
    {
        Scalar { raw: PI_RAW }
    }

    pub open spec fn spec_to_radians(self) -> Scalar {
        self.times(Scalar::pi()).over(Scalar::from_int(180))
    }

    /// An angle given in degrees, in radians.
    #[verifier::when_used_as_spec(spec_to_radians)]
    pub fn to_radians(self) -> (r: Scalar)
        ensures
            r == self.spec_to_radians(),
    {
        self.times(Scalar::pi()).over(Scalar::from_int(180))
    }

    pub open spec fn spec_sin(self) -> Scalar {
        let turn = self@ % (TWO_PI_RAW as int);
        let half = if turn >= PI_RAW { turn - PI_RAW } else { turn };
        let folded = if half > HALF_PI_RAW { PI_RAW - half } else { half };
        let s = sin_quadrant_spec(Scalar::of(folded));
        if turn >= PI_RAW {
            s.neg()
        } else {
            s
        }
    }

    /// The sine: the angle is reduced to one turn, folded into the first
    /// quadrant, and the sign restored. The result lies in `[-1, 1]`, is not
    /// negative in the first half turn and not positive in the second.
    #[verifier::when_used_as_spec(spec_sin)]
    pub fn sin(self) -> (r: Scalar)
        ensures
            r == self.spec_sin(),
            -ONE_RAW <= r@ <= ONE_RAW,
            self@ % (TWO_PI_RAW as int) < PI_RAW ==> r@ >= 0,
            self@ % (TWO_PI_RAW as int) >= PI_RAW ==> r@ <= 0,
    {
        let v: i64 = self.value();
        let turn: i64 = modulo(v, TWO_PI_RAW);
        let half: i64 = if turn >= PI_RAW { turn - PI_RAW } else { turn };
        let folded: i64 = if half > HALF_PI_RAW { PI_RAW - half } else { half };
        let s: Scalar = sin_quadrant(Scalar::from_raw(folded));
        if turn >= PI_RAW {
            s.neg()
        } else {
            s
        }
    }

    pub open spec fn spec_cos(self) -> Scalar {
        self.plus(Scalar { raw: HALF_PI_RAW }).sin()
    }

    /// The cosine: the sine a quarter turn further.
    #[verifier::when_used_as_spec(spec_cos)]
    pub fn cos(self) -> (r: Scalar)
        ensures
            r == self.spec_cos(),
            -ONE_RAW <= r@ <= ONE_RAW,
    {
        self.plus(Scalar { raw: HALF_PI_RAW }).sin()
    }

    pub open spec fn spec_tan(self) -> Scalar {
        self.sin().over(self.cos())
    }

    /// The tangent: sine over cosine.
    #[verifier::when_used_as_spec(spec_tan)]
    pub fn tan(self) -> (r: Scalar)
        ensures
            r == self.spec_tan(),
    {
        self.sin().over(self.cos())
    }

    pub open spec fn spec_atan2(self, x: Scalar) -> Scalar {
        let ax = x.abs();
        let ay = self.abs();
        if ax@ == 0 && ay@ == 0 {
            Scalar::zero()
        } else {
            let steep = ay@ > ax@;
            let a = if steep { ax.over(ay) } else { ay.over(ax) };
            let r0 = atan_unit_spec(a);
            let r1 = if steep { Scalar { raw: HALF_PI_RAW }.minus(r0) } else { r0 };
            let r2 = if x@ < 0 { Scalar::pi().minus(r1) } else { r1 };
            if self@ < 0 {
                r2.neg()
            } else {
                r2
            }
        }
    }

    /// The angle of the point `(x, self)` against the positive x axis, in
    /// `[-pi, pi]`; zero for the origin.
    #[verifier::when_used_as_spec(spec_atan2)]
    pub fn atan2(self, x: Scalar) -> (r: Scalar)
        ensures
            r == self.spec_atan2(x),
    {
        let ax: Scalar = x.abs();
        let ay: Scalar = self.abs();
        if ax.is_zero() && ay.is_zero() {
            Scalar::zero()
        } else {
            let steep: bool = ax.lt(ay);
            let a: Scalar = if steep { ax.over(ay) } else { ay.over(ax) };
            let r0: Scalar = atan_unit(a);
            let r1: Scalar = if steep { Scalar { raw: HALF_PI_RAW }.minus(r0) } else { r0 };
            let r2: Scalar = if x.is_negative() { Scalar::pi().minus(r1) } else { r1 };
            if self.is_negative() {
                r2.neg()
            } else {
                r2
            }
        }
    }

    pub open spec fn spec_asin(self) -> Scalar {
        self.atan2(Scalar::one().minus(self.times(self)).sqrt())
    }

    /// The arc sine, as the angle of the point `(sqrt(1 - y^2), y)`.
    #[verifier::when_used_as_spec(spec_asin)]
    pub fn asin(self) -> (r: Scalar)
        ensures
            r == self.spec_asin(),
    {
        self.atan2(Scalar::one().minus(self.times(self)).sqrt())
    }

    pub open spec fn spec_ln(self) -> Scalar {
        if self@ <= 0 {
            Scalar::of(-LIMIT_RAW)
        } else {
            let (m, e) = normalize(self@, 0);
            Scalar::from_int(e as i64).times(Scalar { raw: LN_2_RAW }).plus(
                ln_mantissa_spec(Scalar::of(m)),
            )
        }
    }

    /// The natural logarithm; minus infinity for zero and below. The number
    /// is split into a mantissa of `[1, 2)` and a power of two.
    #[verifier::when_used_as_spec(spec_ln)]
    pub fn ln(self) -> (r: Scalar)
        ensures
            r == self.spec_ln(),
    {
        let v: i64 = self.value();
        if v <= 0 {
            return Scalar::infinity().neg();
        }
        let mut m: i64 = v;
        let mut e: i64 = 0;
        while m >= 2 * ONE_RAW
            invariant
                0 < m <= v <= LIMIT_RAW,
                0 <= e,
                e + m <= v,
                m >= ONE_RAW || e == 0,
                normalize(m as int, e as int) == normalize(v as int, 0),
            decreases m,
        {
            m = m / 2;
            e = e + 1;
        }
        while m < ONE_RAW
            invariant
                0 < m < 2 * ONE_RAW,
                e <= LIMIT_RAW,
                m >= ONE_RAW || e <= 0,
                e >= 0 || -e <= m,
                normalize(m as int, e as int) == normalize(v as int, 0),
            decreases 2 * ONE_RAW - m,
        {
            m = 2 * m;
            e = e - 1;
        }
        let exponent: Scalar = Scalar::from_int(e);
        exponent.times(Scalar { raw: LN_2_RAW }).plus(ln_mantissa(Scalar::from_raw(m)))
    }
}

} // verus!
