//! Fixed-point real numbers.
//!
//! A `Scalar` stands for the real number `raw / 2^24`. All arithmetic
//! saturates at `±LIMIT_RAW`, which plays the role of `±infinity`: no
//! operation overflows, traps or fails. Products and quotients round toward
//! zero, so every operation commutes with negation.

use vstd::prelude::*;

verus! {

/// The raw value of the number one.
pub const ONE_RAW: i64 = 0x100_0000;

/// The largest magnitude a raw value can take; it stands for infinity.
pub const LIMIT_RAW: i64 = 0x2000_0000_0000_0000;

/// Clamps an integer into `[-LIMIT_RAW, LIMIT_RAW]`.
pub open spec fn sat(x: int) -> int {
    if x > LIMIT_RAW {
        LIMIT_RAW as int
    } else if x < -LIMIT_RAW {
        -LIMIT_RAW
    } else {
        x
    }
}

/// Quotient rounded toward zero. Dividing by zero gives the infinity with
/// the sign of the numerator, and zero for `0 / 0`.
pub open spec fn quot(n: int, d: int) -> int {
    if d > 0 {
        if n >= 0 {
            n / d
        } else {
            -((-n) / d)
        }
    } else if d < 0 {
        if n >= 0 {
            -(n / (-d))
        } else {
            (-n) / (-d)
        }
    } else if n > 0 {
        LIMIT_RAW as int
    } else if n < 0 {
        -LIMIT_RAW
    } else {
        0
    }
}

/// `r` is the integer square root of `n`.
pub open spec fn is_root(n: int, r: int) -> bool {
    0 <= r && r * r <= n < (r + 1) * (r + 1)
}

/// The integer square root of `n`, and zero for a negative `n`.
pub open spec fn root(n: int) -> int {
    if n < 0 {
        0
    } else {
        choose|r: int| is_root(n, r)
    }
}

/// Largest multiple of `ONE_RAW` that is not above `x`.
pub open spec fn floor_raw(x: int) -> int {
    (x / (ONE_RAW as int)) * ONE_RAW
}

/// The remainder of `v` by a positive `m`, in `0 .. m`, also for a negative
/// `v`.
pub fn modulo(v: i64, m: i64) -> (r: i64)
    requires
        m > 0,
    ensures
        r == v as int % (m as int),
        0 <= r < m,
{
    if v >= 0 {
        v % m
    } else {
        let wide: i128 = -(v as i128);
        let back: i128 = wide % (m as i128);
        proof {
            let q = (-(v as int)) / (m as int);
            assert(-(v as int) == (m as int) * q + back) by {
                vstd::arithmetic::div_mod::lemma_fundamental_div_mod(-(v as int), m as int);
            }
            assert((-q) * (m as int) == -((m as int) * q)) by (nonlinear_arith);
            assert((-q - 1) * (m as int) == -((m as int) * q) - m) by (nonlinear_arith);
            if back == 0 {
                vstd::arithmetic::div_mod::lemma_fundamental_div_mod_converse(
                    v as int,
                    m as int,
                    -q,
                    0,
                );
            } else {
                vstd::arithmetic::div_mod::lemma_fundamental_div_mod_converse(
                    v as int,
                    m as int,
                    -q - 1,
                    m - back,
                );
            }
        }
        if back == 0 {
            0
        } else {
            (m as i128 - back) as i64
        }
    }
}

#[derive(Clone, Copy, Debug)]
pub struct Scalar {
    pub raw: i64,
}

impl View for Scalar {
    type V = int;

    /// The raw value the number stands for, always within the limits.
    open spec fn view(&self) -> int {
        sat(self.raw as int)
    }
}

/// Negating the numerator negates the quotient, and so does negating a
/// divisor other than zero.
pub proof fn lemma_quot_neg(n: int, d: int)
    ensures
        quot(-n, d) == -quot(n, d),
        d != 0 ==> quot(n, -d) == -quot(n, d),
{
}

/// A number has one integer square root at most.
pub proof fn lemma_root_unique(n: int, r: int, s: int)
    requires
        is_root(n, r),
        is_root(n, s),
    ensures
        r == s,
{
    if r < s {
        assert((r + 1) * (r + 1) <= s * s) by (nonlinear_arith)
            requires
                0 <= r,
                r + 1 <= s,
        ;
    } else if s < r {
        assert((s + 1) * (s + 1) <= r * r) by (nonlinear_arith)
            requires
                0 <= s,
                s + 1 <= r,
        ;
    }
}

/// The integer square root is never negative.
pub proof fn lemma_root_nonnegative(n: int)
    ensures
        root(n) >= 0,
{
    if n >= 0 {
        lemma_root_exists(n);
    }
}

/// Every natural number has an integer square root.
pub proof fn lemma_root_exists(n: int)
    requires
        n >= 0,
    ensures
        is_root(n, root(n)),
    decreases n,
{
    if n == 0 {
        assert(is_root(0, 0));
    } else {
        lemma_root_exists(n - 1);
        let r = root(n - 1);
        if (r + 1) * (r + 1) <= n {
            assert((r + 1) * (r + 1) == n);
            assert(n < (r + 2) * (r + 2)) by (nonlinear_arith)
                requires
                    (r + 1) * (r + 1) == n,
                    r >= 0,
            ;
            assert(is_root(n, r + 1));
        } else {
            assert(is_root(n, r));
        }
    }
}

/// Whoever exhibits an integer square root has found `root(n)`.
pub proof fn lemma_root_is(n: int, r: int)
    requires
        is_root(n, r),
    ensures
        root(n) == r,
{
    assert(n >= 0) by (nonlinear_arith)
        requires
            r * r <= n,
    ;
    let c = choose|c: int| is_root(n, c);
    lemma_root_unique(n, r, c);
}

impl Scalar {
    /// The number with raw value `sat(x)`.
    pub open spec fn of(x: int) -> Scalar {
        Scalar { raw: sat(x) as i64 }
    }

    pub open spec fn spec_zero() -> Scalar {
        Scalar { raw: 0 }
    }

    #[verifier::when_used_as_spec(spec_zero)]
    pub fn zero() -> (r: Scalar)
        ensures
            r == Scalar::spec_zero(),
    {
        Scalar { raw: 0 }
    }

    pub open spec fn spec_one() -> Scalar {
        Scalar { raw: ONE_RAW }
    }

    #[verifier::when_used_as_spec(spec_one)]
    pub fn one() -> (r: Scalar)
        ensures
            r == Scalar::spec_one(),
    {
        Scalar { raw: ONE_RAW }
    }

    pub open spec fn spec_infinity() -> Scalar {
        Scalar { raw: LIMIT_RAW }
    }

    /// The largest number; it stands for `+infinity`.
    #[verifier::when_used_as_spec(spec_infinity)]
    pub fn infinity() -> (r: Scalar)
        ensures
            r == Scalar::spec_infinity(),
    {
        Scalar { raw: LIMIT_RAW }
    }

    pub open spec fn spec_from_raw(raw: i64) -> Scalar {
        Scalar::of(raw as int)
    }

    /// The number `raw / 2^24`, saturated.
    #[verifier::when_used_as_spec(spec_from_raw)]
    pub fn from_raw(raw: i64) -> (r: Scalar)
        ensures
            r == Scalar::spec_from_raw(raw),
    {
        if raw > LIMIT_RAW {
            Scalar { raw: LIMIT_RAW }
        } else if raw < -LIMIT_RAW {
            Scalar { raw: -LIMIT_RAW }
        } else {
            Scalar { raw }
        }
    }

    pub open spec fn spec_from_int(n: i64) -> Scalar {
        Scalar::of(n as int * ONE_RAW)
    }

    /// The whole number `n`.
    #[verifier::when_used_as_spec(spec_from_int)]
    pub fn from_int(n: i64) -> (r: Scalar)
        ensures
            r == Scalar::spec_from_int(n),
    {
        let wide: i128 = n as i128;
        Scalar::narrow(wide * 0x100_0000)
    }

    pub open spec fn spec_from_ratio(num: i64, den: i64) -> Scalar {
        Scalar::of(quot(num as int * ONE_RAW, den as int))
    }

    /// The fraction `num / den`, rounded toward zero.
    #[verifier::when_used_as_spec(spec_from_ratio)]
    pub fn from_ratio(num: i64, den: i64) -> (r: Scalar)
        ensures
            r == Scalar::spec_from_ratio(num, den),
    {
        let n: i128 = num as i128;
        let d: i128 = den as i128;
        Scalar::narrow(Scalar::divide(n * 0x100_0000, d))
    }

    pub open spec fn spec_value(self) -> i64 {
        sat(self.raw as int) as i64
    }

    /// The raw value, within the limits.
    #[verifier::when_used_as_spec(spec_value)]
    pub fn value(self) -> (v: i64)
        ensures
            v == self@,
            v == self.spec_value(),
    {
        if self.raw > LIMIT_RAW {
            LIMIT_RAW
        } else if self.raw < -LIMIT_RAW {
            -LIMIT_RAW
        } else {
            self.raw
        }
    }

    /// Saturates a wide integer into a number.
    fn narrow(x: i128) -> (r: Scalar)
        ensures
            r == Scalar::of(x as int),
    {
        if x > LIMIT_RAW as i128 {
            Scalar { raw: LIMIT_RAW }
        } else if x < -(LIMIT_RAW as i128) {
            Scalar { raw: -LIMIT_RAW }
        } else {
            Scalar { raw: x as i64 }
        }
    }

    /// Quotient of two wide integers, rounded toward zero.
    fn divide(n: i128, d: i128) -> (q: i128)
        requires
            -0x4000_0000_0000_0000_0000_0000_0000_0000 <= n <= 0x4000_0000_0000_0000_0000_0000_0000_0000,
            -0x4000_0000_0000_0000_0000_0000_0000_0000 <= d <= 0x4000_0000_0000_0000_0000_0000_0000_0000,
        ensures
            q == quot(n as int, d as int),
    {
        if d > 0 {
            if n >= 0 {
                n / d
            } else {
                let m: i128 = (-n) / d;
                -m
            }
        } else if d < 0 {
            if n >= 0 {
                let m: i128 = n / (-d);
                -m
            } else {
                (-n) / (-d)
            }
        } else if n > 0 {
            LIMIT_RAW as i128
        } else if n < 0 {
            -(LIMIT_RAW as i128)
        } else {
            0
        }
    }

    /// The number with raw value `n / d`, rounded toward zero and saturated.
    pub(crate) fn from_wide_quotient(n: i128, d: i128) -> (r: Scalar)
        requires
            -0x4000_0000_0000_0000_0000_0000_0000_0000 <= n <= 0x4000_0000_0000_0000_0000_0000_0000_0000,
            -0x4000_0000_0000_0000_0000_0000_0000_0000 <= d <= 0x4000_0000_0000_0000_0000_0000_0000_0000,
        ensures
            r == Scalar::of(quot(n as int, d as int)),
    {
        Scalar::narrow(Scalar::divide(n, d))
    }

    pub open spec fn spec_plus(self, other: Scalar) -> Scalar {
        Scalar::of(self@ + other@)
    }

    #[verifier::when_used_as_spec(spec_plus)]
    pub fn plus(self, other: Scalar) -> (r: Scalar)
        ensures
            r == self.spec_plus(other),
    {
        Scalar::narrow(self.value() as i128 + other.value() as i128)
    }

    pub open spec fn spec_minus(self, other: Scalar) -> Scalar {
        Scalar::of(self@ - other@)
    }

    #[verifier::when_used_as_spec(spec_minus)]
    pub fn minus(self, other: Scalar) -> (r: Scalar)
        ensures
            r == self.spec_minus(other),
    {
        Scalar::narrow(self.value() as i128 - other.value() as i128)
    }

    pub open spec fn spec_neg(self) -> Scalar {
        Scalar::of(-self@)
    }

    #[verifier::when_used_as_spec(spec_neg)]
    pub fn neg(self) -> (r: Scalar)
        ensures
            r == self.spec_neg(),
    {
        Scalar { raw: -self.value() }
    }

    pub open spec fn spec_times(self, other: Scalar) -> Scalar {
        Scalar::of(quot(self@ * other@, ONE_RAW as int))
    }

    #[verifier::when_used_as_spec(spec_times)]
    pub fn times(self, other: Scalar) -> (r: Scalar)
        ensures
            r == self.spec_times(other),
    {
        let a: i128 = self.value() as i128;
        let b: i128 = other.value() as i128;
        assert(-0x400_0000_0000_0000_0000_0000_0000_0000 <= a * b
            <= 0x400_0000_0000_0000_0000_0000_0000_0000) by (nonlinear_arith)
            requires
                -0x2000_0000_0000_0000 <= a <= 0x2000_0000_0000_0000,
                -0x2000_0000_0000_0000 <= b <= 0x2000_0000_0000_0000,
        ;
        Scalar::narrow(Scalar::divide(a * b, ONE_RAW as i128))
    }

    pub open spec fn spec_over(self, other: Scalar) -> Scalar {
        Scalar::of(quot(self@ * ONE_RAW, other@))
    }

    /// Division; by zero it gives the infinity with the sign of `self`.
    #[verifier::when_used_as_spec(spec_over)]
    pub fn over(self, other: Scalar) -> (r: Scalar)
        ensures
            r == self.spec_over(other),
    {
        let a: i128 = self.value() as i128;
        let b: i128 = other.value() as i128;
        Scalar::narrow(Scalar::divide(a * 0x100_0000, b))
    }

    pub open spec fn spec_lt(self, other: Scalar) -> bool {
        self@ < other@
    }

    #[verifier::when_used_as_spec(spec_lt)]
    pub fn lt(self, other: Scalar) -> (r: bool)
        ensures
            r == self.spec_lt(other),
    {
        self.value() < other.value()
    }

    pub open spec fn spec_le(self, other: Scalar) -> bool {
        self@ <= other@
    }

    #[verifier::when_used_as_spec(spec_le)]
    pub fn le(self, other: Scalar) -> (r: bool)
        ensures
            r == self.spec_le(other),
    {
        self.value() <= other.value()
    }

    pub open spec fn spec_same(self, other: Scalar) -> bool {
        self@ == other@
    }

    /// Whether both stand for the same number.
    #[verifier::when_used_as_spec(spec_same)]
    pub fn same(self, other: Scalar) -> (r: bool)
        ensures
            r == self.spec_same(other),
    {
        self.value() == other.value()
    }

    pub open spec fn spec_is_negative(self) -> bool {
        self@ < 0
    }

    #[verifier::when_used_as_spec(spec_is_negative)]
    pub fn is_negative(self) -> (r: bool)
        ensures
            r == self.spec_is_negative(),
    {
        self.value() < 0
    }

    pub open spec fn spec_is_zero(self) -> bool {
        self@ == 0
    }

    #[verifier::when_used_as_spec(spec_is_zero)]
    pub fn is_zero(self) -> (r: bool)
        ensures
            r == self.spec_is_zero(),
    {
        self.value() == 0
    }

    pub open spec fn spec_min(self, other: Scalar) -> Scalar {
        if other@ < self@ {
            Scalar::of(other@)
        } else {
            Scalar::of(self@)
        }
    }

    #[verifier::when_used_as_spec(spec_min)]
    pub fn min(self, other: Scalar) -> (r: Scalar)
        ensures
            r == self.spec_min(other),
    {
        if other.value() < self.value() {
            Scalar { raw: other.value() }
        } else {
            Scalar { raw: self.value() }
        }
    }

    pub open spec fn spec_max(self, other: Scalar) -> Scalar {
        if other@ > self@ {
            Scalar::of(other@)
        } else {
            Scalar::of(self@)
        }
    }

    #[verifier::when_used_as_spec(spec_max)]
    pub fn max(self, other: Scalar) -> (r: Scalar)
        ensures
            r == self.spec_max(other),
    {
        if other.value() > self.value() {
            Scalar { raw: other.value() }
        } else {
            Scalar { raw: self.value() }
        }
    }

    pub open spec fn spec_abs(self) -> Scalar {
        if self@ < 0 {
            Scalar::of(-self@)
        } else {
            Scalar::of(self@)
        }
    }

    #[verifier::when_used_as_spec(spec_abs)]
    pub fn abs(self) -> (r: Scalar)
        ensures
            r == self.spec_abs(),
    {
        let v: i64 = self.value();
        if v < 0 {
            Scalar { raw: -v }
        } else {
            Scalar { raw: v }
        }
    }

    pub open spec fn spec_clamp(self, low: Scalar, high: Scalar) -> Scalar {
        if self@ < low@ {
            Scalar::of(low@)
        } else if self@ > high@ {
            Scalar::of(high@)
        } else {
            Scalar::of(self@)
        }
    }

    /// `low` where `self` is below it, `high` where `self` is above it,
    /// `self` otherwise.
    #[verifier::when_used_as_spec(spec_clamp)]
    pub fn clamp(self, low: Scalar, high: Scalar) -> (r: Scalar)
        ensures
            r == self.spec_clamp(low, high),
    {
        if self.value() < low.value() {
            Scalar { raw: low.value() }
        } else if self.value() > high.value() {
            Scalar { raw: high.value() }
        } else {
            Scalar { raw: self.value() }
        }
    }

    pub open spec fn spec_floor(self) -> Scalar {
        Scalar::of(floor_raw(self@))
    }

    /// The largest whole number that is not above `self`.
    #[verifier::when_used_as_spec(spec_floor)]
    pub fn floor(self) -> (r: Scalar)
        ensures
            r == self.spec_floor(),
    {
        let whole: i64 = self.whole();
        assert(whole * ONE_RAW == floor_raw(self@));
        Scalar { raw: whole * ONE_RAW }
    }

    pub open spec fn spec_whole(self) -> i64 {
        (self@ / (ONE_RAW as int)) as i64
    }

    /// The largest integer that is not above `self`.
    #[verifier::when_used_as_spec(spec_whole)]
    pub fn whole(self) -> (n: i64)
        ensures
            n == self.spec_whole(),
            n == self@ / (ONE_RAW as int),
            -0x20_0000_0000 <= n <= 0x20_0000_0000,
    {
        let v: i64 = self.value();
        if v >= 0 {
            v / ONE_RAW
        } else {
            let m: i64 = -v;
            let q: i64 = m / ONE_RAW;
            if q * ONE_RAW == m {
                -q
            } else {
                -q - 1
            }
        }
    }

    pub open spec fn spec_sqrt(self) -> Scalar {
        Scalar::of(root(self@ * ONE_RAW))
    }

    /// The square root, rounded down; zero for a negative number.
    #[verifier::when_used_as_spec(spec_sqrt)]
    pub fn sqrt(self) -> (r: Scalar)
        ensures
            r == self.spec_sqrt(),
    {
        let v: i64 = self.value();
        if v <= 0 {
            proof {
                if v == 0 {
                    assert(is_root(0, 0));
                    lemma_root_is(0, 0);
                }
            }
            return Scalar { raw: 0 };
        }
        let n: u128 = (v as u128) * (ONE_RAW as u128);
        let mut r: u128 = 0;
        let mut bit: u128 = 0x1000_0000_0000;
        proof {
            assert(0x2000_0000_0000int * 0x2000_0000_0000int
                == 0x400_0000_0000_0000_0000_0000int) by (nonlinear_arith);
            vstd::arithmetic::power2::lemma2_to64();
            vstd::arithmetic::power2::lemma_pow2_adds(32, 12);
            assert(vstd::arithmetic::power2::pow2(44) == 0x1000_0000_0000int);
        }
        while bit > 0
            invariant
                n == v as int * ONE_RAW,
                0 < v <= LIMIT_RAW,
                r * r <= n,
                n < (r + bit + bit) * (r + bit + bit) || (bit == 0 && n < (r + 1) * (r + 1)),
                r + bit + bit <= 0x2000_0000_0000,
                bit == 0 || is_power(bit as int),
            decreases bit,
        {
            let trial: u128 = r + bit;
            assert(trial * trial <= 0x2000_0000_0000u128 * 0x2000_0000_0000u128) by (nonlinear_arith)
                requires
                    trial <= 0x2000_0000_0000u128,
            ;
            proof {
                lemma_power_half(bit as int);
            }
            let half: u128 = bit / 2;
            if trial * trial <= n {
                r = trial;
            }
            bit = half;
        }
        proof {
            lemma_root_is(n as int, r as int);
        }
        Scalar { raw: r as i64 }
    }
}

/// `b` is a power of two between 1 and 2^44.
pub open spec fn is_power(b: int) -> bool {
    exists|k: nat| k <= 44 && #[trigger] vstd::arithmetic::power2::pow2(k) == b
}

proof fn lemma_power_half(b: int)
    requires
        is_power(b),
    ensures
        b == 1 || (b % 2 == 0 && is_power(b / 2)),
        b >= 1,
{
    let k = choose|k: nat| k <= 44 && #[trigger] vstd::arithmetic::power2::pow2(k) == b;
    vstd::arithmetic::power2::lemma_pow2_pos(k);
    if k == 0 {
        vstd::arithmetic::power2::lemma2_to64();
    } else {
        vstd::arithmetic::power2::lemma_pow2_unfold(k);
        assert(vstd::arithmetic::power2::pow2((k - 1) as nat) == b / 2);
    }
}

} // verus!
