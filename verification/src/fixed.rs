//! Decimal fixed-point numbers with nine fractional digits.
//!
//! A [`Fixed`] counts units of 10^-9 in an `i64`, which covers lengths up
//! to about 9.2 * 10^9 with a resolution far below anything a pattern can
//! show. Every operation is total: a result that leaves the range is
//! saturated at the nearest end, products and quotients are rounded to the
//! nearest unit (ties away from zero), and square roots are rounded down.

use vstd::prelude::*;

verus! {

/// Number of raw units in one whole unit.
pub const SCALE: i64 = 1_000_000_000;

/// Number of raw units in one hundredth.
pub const HUNDREDTH: i64 = 10_000_000;

/// The integer `v` brought into the range of `i64`.
pub open spec fn clamp(v: int) -> int {
    if v < i64::MIN as int {
        i64::MIN as int
    } else if v > i64::MAX as int {
        i64::MAX as int
    } else {
        v
    }
}

/// The quotient `n / d` rounded to the nearest integer, ties away from
/// zero. Meaningful for `d > 0`.
pub open spec fn round_div(n: int, d: int) -> int {
    if n >= 0 {
        (2 * n + d) / (2 * d)
    } else {
        -((2 * (-n) + d) / (2 * d))
    }
}

/// `k` is the square root of `n` rounded down.
pub open spec fn is_floor_sqrt(n: int, k: int) -> bool {
    0 <= k && k * k <= n && n < (k + 1) * (k + 1)
}

/// The square root of `n` rounded down (for `n >= 0`).
pub open spec fn floor_sqrt(n: int) -> int {
    choose|k: int| is_floor_sqrt(n, k)
}

/// At most one integer is the rounded-down square root of `n`.
pub proof fn lemma_floor_sqrt_unique(n: int, j: int, k: int)
    requires
        is_floor_sqrt(n, j),
        is_floor_sqrt(n, k),
    ensures
        j == k,
{
    if j < k {
        assert((j + 1) * (j + 1) <= k * k) by (nonlinear_arith)
            requires
                0 <= j,
                j + 1 <= k,
        ;
    }
    if k < j {
        assert((k + 1) * (k + 1) <= j * j) by (nonlinear_arith)
            requires
                0 <= k,
                k + 1 <= j,
        ;
    }
}

/// Whoever holds a rounded-down square root of `n` holds `floor_sqrt(n)`.
pub proof fn lemma_floor_sqrt_is(n: int, k: int)
    requires
        is_floor_sqrt(n, k),
    ensures
        floor_sqrt(n) == k,
{
    let c = choose|c: int| is_floor_sqrt(n, c);
    lemma_floor_sqrt_unique(n, c, k);
}

/// The product of two 64-bit integers fits in 127 bits.
pub proof fn lemma_product_bound(a: int, b: int)
    requires
        -0x8000_0000_0000_0000 <= a <= 0x8000_0000_0000_0000,
        -0x8000_0000_0000_0000 <= b <= 0x8000_0000_0000_0000,
    ensures
        -0x4000_0000_0000_0000_0000_0000_0000_0000 <= a * b
            <= 0x4000_0000_0000_0000_0000_0000_0000_0000,
{
    let m: int = 0x8000_0000_0000_0000;
    assert((m - a) * (m - b) >= 0) by (nonlinear_arith)
        requires
            a <= m,
            b <= m,
    ;
    assert((m + a) * (m + b) >= 0) by (nonlinear_arith)
        requires
            -m <= a,
            -m <= b,
    ;
    assert((m - a) * (m + b) >= 0) by (nonlinear_arith)
        requires
            a <= m,
            -m <= b,
    ;
    assert((m + a) * (m - b) >= 0) by (nonlinear_arith)
        requires
            -m <= a,
            b <= m,
    ;
    assert((m - a) * (m - b) == m * m - m * b - a * m + a * b) by (nonlinear_arith);
    assert((m + a) * (m + b) == m * m + m * b + a * m + a * b) by (nonlinear_arith);
    assert((m - a) * (m + b) == m * m + m * b - a * m - a * b) by (nonlinear_arith);
    assert((m + a) * (m - b) == m * m - m * b + a * m - a * b) by (nonlinear_arith);
    assert(m * m == 0x4000_0000_0000_0000_0000_0000_0000_0000) by (nonlinear_arith)
        requires
            m == 0x8000_0000_0000_0000,
    ;
}

/// Rounded quotient of a wide numerator by a positive divisor.
pub(crate) fn round_div_wide(n: i128, d: u128) -> (q: i128)
    requires
        0 < d,
        2 * d <= u128::MAX,
        2 * vstd::math::abs(n as int) + d <= u128::MAX,
    ensures
        q == round_div(n as int, d as int),
{
    let m: u128 = if n < 0 {
        (-n) as u128
    } else {
        n as u128
    };
    let twice: u128 = 2 * m + d;
    let q: u128 = twice / (2 * d);
    assert(2 * q <= twice) by (nonlinear_arith)
        requires
            q as int == (twice as int) / (2 * d as int),
            d >= 1,
    ;
    if n < 0 {
        -(q as i128)
    } else {
        q as i128
    }
}

/// Square root of a 128-bit integer, rounded down.
pub(crate) fn isqrt_wide(n: u128) -> (k: u128)
    ensures
        is_floor_sqrt(n as int, k as int),
        k < 0x1_0000_0000_0000_0000,
{
    let mut lo: u128 = 0;
    let mut hi: u128 = 0x1_0000_0000_0000_0000;
    assert(hi * hi > n) by (nonlinear_arith)
        requires
            hi == 0x1_0000_0000_0000_0000,
            n <= u128::MAX,
    ;
    while hi - lo > 1
        invariant
            lo < hi <= 0x1_0000_0000_0000_0000,
            lo * lo <= n,
            n < hi * hi,
        decreases hi - lo,
    {
        let mid: u128 = lo + (hi - lo) / 2;
        assert(mid * mid <= 0xFFFF_FFFF_FFFF_FFFF * 0xFFFF_FFFF_FFFF_FFFF) by (nonlinear_arith)
            requires
                0 <= mid <= 0xFFFF_FFFF_FFFF_FFFF,
        ;
        if mid * mid <= n {
            lo = mid;
        } else {
            hi = mid;
        }
    }
    lo
}

/// The square of a 64-bit magnitude fits in 127 bits.
pub proof fn lemma_square_bound(a: int)
    requires
        0 <= a <= 0x8000_0000_0000_0000,
    ensures
        0 <= a * a <= 0x4000_0000_0000_0000_0000_0000_0000_0000,
{
    lemma_product_bound(a, a);
    assert(0 <= a * a) by (nonlinear_arith);
}

/// The absolute value of a raw count, which always fits unsigned.
pub(crate) fn magnitude(v: Fixed) -> (m: u128)
    ensures
        m == vstd::math::abs(v@),
        m == v@ || m == -v@,
        0 <= m <= 0x8000_0000_0000_0000,
{
    if v.raw < 0 {
        (-(v.raw as i128)) as u128
    } else {
        v.raw as u128
    }
}

/// A length or ratio, counted in units of 10^-9.
#[derive(Clone, Copy, Debug, PartialEq, Eq, Structural)]
pub struct Fixed {
    pub raw: i64,
}

impl View for Fixed {
    type V = int;

    /// The number of raw units.
    open spec fn view(&self) -> int {
        self.raw as int
    }
}

impl Fixed {
    /// The value of `v` raw units, saturated at the ends of the range.
    pub open spec fn of(v: int) -> Fixed {
        Fixed { raw: clamp(v) as i64 }
    }

    /// Zero.
    pub open spec fn spec_zero() -> Fixed {
        Fixed { raw: 0 }
    }

    /// One.
    pub open spec fn spec_one() -> Fixed {
        Fixed { raw: SCALE }
    }

    /// The whole number `n`, saturated.
    pub open spec fn spec_from_int(n: i64) -> Fixed {
        Fixed::of(n * SCALE)
    }

    /// `n` hundredths, saturated.
    pub open spec fn spec_from_hundredths(n: i64) -> Fixed {
        Fixed::of(n * HUNDREDTH)
    }

    /// The sum, saturated.
    pub open spec fn spec_add(self, rhs: Fixed) -> Fixed {
        Fixed::of(self@ + rhs@)
    }

    /// The difference, saturated.
    pub open spec fn spec_sub(self, rhs: Fixed) -> Fixed {
        Fixed::of(self@ - rhs@)
    }

    /// The negation, saturated: the least value has no opposite.
    pub open spec fn spec_neg(self) -> Fixed {
        Fixed::of(-self@)
    }

    /// The absolute value, saturated.
    pub open spec fn spec_abs(self) -> Fixed {
        if self@ < 0 {
            Fixed::of(-self@)
        } else {
            self
        }
    }

    /// The product, rounded to the nearest unit (ties away from zero) and
    /// saturated.
    pub open spec fn spec_mul(self, rhs: Fixed) -> Fixed {
        Fixed::of(round_div(self@ * rhs@, SCALE as int))
    }

    /// Division by zero saturates in the direction of the dividend's sign;
    /// zero by zero is zero.
    pub open spec fn spec_div(self, rhs: Fixed) -> Fixed {
        if rhs@ > 0 {
            Fixed::of(round_div(self@ * SCALE, rhs@))
        } else if rhs@ < 0 {
            Fixed::of(round_div(-(self@ * SCALE), -rhs@))
        } else if self@ > 0 {
            Fixed { raw: i64::MAX }
        } else if self@ < 0 {
            Fixed { raw: i64::MIN }
        } else {
            Fixed { raw: 0 }
        }
    }

    /// The root of a negative value is zero.
    pub open spec fn spec_sqrt(self) -> Fixed {
        if self@ <= 0 {
            Fixed { raw: 0 }
        } else {
            Fixed::of(floor_sqrt(self@ * SCALE))
        }
    }

    /// The fraction `num / den`, rounded to the nearest unit.
    pub open spec fn spec_from_ratio(num: i64, den: i64) -> Fixed {
        Fixed::spec_from_int(num).spec_div(Fixed::spec_from_int(den))
    }

    /// The point halfway between two values, rounded down.
    pub open spec fn spec_midpoint(self, other: Fixed) -> Fixed {
        Fixed { raw: ((self@ + other@) / 2) as i64 }
    }

    /// Whether `self` is less than `rhs`.
    pub open spec fn spec_lt(self, rhs: Fixed) -> bool {
        self@ < rhs@
    }

    /// Whether `self` is at most `rhs`.
    pub open spec fn spec_le(self, rhs: Fixed) -> bool {
        self@ <= rhs@
    }

    /// Whether the value is less than zero.
    pub open spec fn spec_is_negative(self) -> bool {
        self@ < 0
    }

    /// Whether the value is greater than zero.
    pub open spec fn spec_is_positive(self) -> bool {
        self@ > 0
    }

    /// The smaller of two values.
    pub open spec fn spec_min(self, rhs: Fixed) -> Fixed {
        if rhs@ < self@ {
            rhs
        } else {
            self
        }
    }

    /// The larger of two values.
    pub open spec fn spec_max(self, rhs: Fixed) -> Fixed {
        if rhs@ > self@ {
            rhs
        } else {
            self
        }
    }

    /// The value of `v` raw units, saturated at the ends of the range.
    pub fn from_wide(v: i128) -> (r: Fixed)
        ensures
            r == Fixed::of(v as int),
    {
        if v > i64::MAX as i128 {
            Fixed { raw: i64::MAX }
        } else if v < i64::MIN as i128 {
            Fixed { raw: i64::MIN }
        } else {
            Fixed { raw: v as i64 }
        }
    }

    /// The value with the given count of raw units.
    pub fn from_raw(raw: i64) -> (r: Fixed)
        ensures
            r@ == raw,
    {
        Fixed { raw }
    }

    /// The count of raw units.
    pub fn raw(self) -> (r: i64)
        ensures
            r == self@,
    {
        self.raw
    }

    /// Zero.
    #[verifier::when_used_as_spec(spec_zero)]
    pub fn zero() -> (r: Fixed)
        ensures
            r == Fixed::spec_zero(),
    {
        Fixed { raw: 0 }
    }

    /// One.
    #[verifier::when_used_as_spec(spec_one)]
    pub fn one() -> (r: Fixed)
        ensures
            r == Fixed::spec_one(),
    {
        Fixed { raw: SCALE }
    }

    /// The whole number `n`.
    #[verifier::when_used_as_spec(spec_from_int)]
    pub fn from_int(n: i64) -> (r: Fixed)
        ensures
            r == Fixed::spec_from_int(n),
    {
        proof {
            lemma_product_bound(n as int, SCALE as int);
        }
        Fixed::from_wide(n as i128 * SCALE as i128)
    }

    /// `n` hundredths.
    #[verifier::when_used_as_spec(spec_from_hundredths)]
    pub fn from_hundredths(n: i64) -> (r: Fixed)
        ensures
            r == Fixed::spec_from_hundredths(n),
    {
        proof {
            lemma_product_bound(n as int, HUNDREDTH as int);
        }
        Fixed::from_wide(n as i128 * HUNDREDTH as i128)
    }

    /// The fraction `num / den`, rounded to the nearest unit.
    #[verifier::when_used_as_spec(spec_from_ratio)]
    pub fn from_ratio(num: i64, den: i64) -> (r: Fixed)
        ensures
            r == Fixed::spec_from_ratio(num, den),
    {
        Fixed::from_int(num).div(Fixed::from_int(den))
    }

    /// Saturating sum.
    #[verifier::when_used_as_spec(spec_add)]
    pub fn add(self, rhs: Fixed) -> (r: Fixed)
        ensures
            r == self.spec_add(rhs),
    {
        Fixed::from_wide(self.raw as i128 + rhs.raw as i128)
    }

    /// Saturating difference.
    #[verifier::when_used_as_spec(spec_sub)]
    pub fn sub(self, rhs: Fixed) -> (r: Fixed)
        ensures
            r == self.spec_sub(rhs),
    {
        Fixed::from_wide(self.raw as i128 - rhs.raw as i128)
    }

    /// Saturating negation.
    #[verifier::when_used_as_spec(spec_neg)]
    pub fn neg(self) -> (r: Fixed)
        ensures
            r == self.spec_neg(),
    {
        Fixed::from_wide(-(self.raw as i128))
    }

    /// Saturating absolute value.
    #[verifier::when_used_as_spec(spec_abs)]
    pub fn abs(self) -> (r: Fixed)
        ensures
            r == self.spec_abs(),
    {
        if self.raw < 0 {
            Fixed::from_wide(-(self.raw as i128))
        } else {
            self
        }
    }

    /// Product, rounded to the nearest unit and saturated.
    #[verifier::when_used_as_spec(spec_mul)]
    pub fn mul(self, rhs: Fixed) -> (r: Fixed)
        ensures
            r == self.spec_mul(rhs),
    {
        proof {
            lemma_product_bound(self.raw as int, rhs.raw as int);
        }
        let p: i128 = self.raw as i128 * rhs.raw as i128;
        Fixed::from_wide(round_div_wide(p, SCALE as u128))
    }

    /// Quotient, rounded to the nearest unit and saturated.
    #[verifier::when_used_as_spec(spec_div)]
    pub fn div(self, rhs: Fixed) -> (r: Fixed)
        ensures
            r == self.spec_div(rhs),
    {
        proof {
            lemma_product_bound(self.raw as int, SCALE as int);
        }
        let n: i128 = self.raw as i128 * SCALE as i128;
        if rhs.raw > 0 {
            Fixed::from_wide(round_div_wide(n, rhs.raw as u128))
        } else if rhs.raw < 0 {
            let d: u128 = (-(rhs.raw as i128)) as u128;
            Fixed::from_wide(round_div_wide(-n, d))
        } else if self.raw > 0 {
            Fixed { raw: i64::MAX }
        } else if self.raw < 0 {
            Fixed { raw: i64::MIN }
        } else {
            Fixed { raw: 0 }
        }
    }

    /// Square root, rounded down.
    #[verifier::when_used_as_spec(spec_sqrt)]
    pub fn sqrt(self) -> (r: Fixed)
        ensures
            r == self.spec_sqrt(),
    {
        if self.raw <= 0 {
            Fixed { raw: 0 }
        } else {
            proof {
                lemma_product_bound(self.raw as int, SCALE as int);
            }
            let n: u128 = self.raw as u128 * SCALE as u128;
            let k = isqrt_wide(n);
            proof {
                lemma_floor_sqrt_is(n as int, k as int);
            }
            Fixed::from_wide(k as i128)
        }
    }

    /// The point halfway between two values, rounded down.
    #[verifier::when_used_as_spec(spec_midpoint)]
    pub fn midpoint(self, other: Fixed) -> (r: Fixed)
        ensures
            r == self.spec_midpoint(other),
    {
        let s: i128 = self.raw as i128 + other.raw as i128;
        let h: i128 = if s >= 0 {
            s / 2
        } else {
            -((1 - s) / 2)
        };
        Fixed { raw: h as i64 }
    }

    /// Whether `self` is less than `rhs`.
    #[verifier::when_used_as_spec(spec_lt)]
    pub fn lt(self, rhs: Fixed) -> (r: bool)
        ensures
            r == self.spec_lt(rhs),
    {
        self.raw < rhs.raw
    }

    /// Whether `self` is at most `rhs`.
    #[verifier::when_used_as_spec(spec_le)]
    pub fn le(self, rhs: Fixed) -> (r: bool)
        ensures
            r == self.spec_le(rhs),
    {
        self.raw <= rhs.raw
    }

    /// Whether the value is less than zero.
    #[verifier::when_used_as_spec(spec_is_negative)]
    pub fn is_negative(self) -> (r: bool)
        ensures
            r == self.spec_is_negative(),
    {
        self.raw < 0
    }

    /// Whether the value is greater than zero.
    #[verifier::when_used_as_spec(spec_is_positive)]
    pub fn is_positive(self) -> (r: bool)
        ensures
            r == self.spec_is_positive(),
    {
        self.raw > 0
    }

    /// The smaller of two values.
    #[verifier::when_used_as_spec(spec_min)]
    pub fn min(self, rhs: Fixed) -> (r: Fixed)
        ensures
            r == self.spec_min(rhs),
    {
        if rhs.raw < self.raw {
            rhs
        } else {
            self
        }
    }

    /// The larger of two values.
    #[verifier::when_used_as_spec(spec_max)]
    pub fn max(self, rhs: Fixed) -> (r: Fixed)
        ensures
            r == self.spec_max(rhs),
    {
        if rhs.raw > self.raw {
            rhs
        } else {
            self
        }
    }
}

/// Every natural number has a square root rounded down.
pub proof fn lemma_floor_sqrt_exists(n: int)
    requires
        n >= 0,
    ensures
        is_floor_sqrt(n, floor_sqrt(n)),
    decreases n,
{
    if n == 0 {
        assert(is_floor_sqrt(0, 0));
    } else {
        lemma_floor_sqrt_exists(n - 1);
        let k = floor_sqrt(n - 1);
        if (k + 1) * (k + 1) <= n {
            assert((k + 2) * (k + 2) > (k + 1) * (k + 1)) by (nonlinear_arith)
                requires
                    k >= 0,
            ;
            assert(is_floor_sqrt(n, k + 1));
        } else {
            assert(is_floor_sqrt(n, k));
        }
    }
}

/// A rounded quotient is a nearest integer to the exact quotient: it
/// differs from it by half a unit at most.
pub proof fn lemma_round_div_nearest(n: int, d: int)
    requires
        d > 0,
    ensures
        -d <= 2 * (round_div(n, d) * d - n) <= d,
{
    let m = if n >= 0 {
        n
    } else {
        -n
    };
    let q = (2 * m + d) / (2 * d);
    assert(2 * m + d == q * (2 * d) + (2 * m + d) % (2 * d) && 0 <= (2 * m + d) % (2 * d) < 2 * d)
        by (nonlinear_arith)
        requires
            q == (2 * m + d) / (2 * d),
            d > 0,
    ;
    assert(-d <= 2 * (q * d - m) <= d) by (nonlinear_arith)
        requires
            2 * m + d == q * (2 * d) + (2 * m + d) % (2 * d),
            0 <= (2 * m + d) % (2 * d) < 2 * d,
    ;
    if n < 0 {
        assert((-q) * d == -(q * d)) by (nonlinear_arith);
    }
}

/// Rounded quotients by one divisor are in the order of their numerators.
pub proof fn lemma_round_div_monotone(n1: int, n2: int, d: int)
    requires
        d > 0,
        n1 <= n2,
    ensures
        round_div(n1, d) <= round_div(n2, d),
{
    lemma_round_div_sign(n1, d);
    lemma_round_div_sign(n2, d);
    if n1 >= 0 {
        vstd::arithmetic::div_mod::lemma_div_is_ordered(2 * n1 + d, 2 * n2 + d, 2 * d);
    } else if n2 < 0 {
        vstd::arithmetic::div_mod::lemma_div_is_ordered(2 * (-n2) + d, 2 * (-n1) + d, 2 * d);
    }
}

/// Square roots rounded down are in the order of their squares.
pub proof fn lemma_floor_sqrt_monotone(n1: int, n2: int)
    requires
        0 <= n1 <= n2,
    ensures
        floor_sqrt(n1) <= floor_sqrt(n2),
{
    lemma_floor_sqrt_exists(n1);
    lemma_floor_sqrt_exists(n2);
    let k1 = floor_sqrt(n1);
    let k2 = floor_sqrt(n2);
    if k1 > k2 {
        assert((k2 + 1) * (k2 + 1) <= k1 * k1) by (nonlinear_arith)
            requires
                0 <= k2,
                k2 + 1 <= k1,
        ;
    }
}

/// A rounded quotient has the sign of its numerator, or is zero.
pub proof fn lemma_round_div_sign(n: int, d: int)
    requires
        d > 0,
    ensures
        n >= 0 ==> round_div(n, d) >= 0,
        n <= 0 ==> round_div(n, d) <= 0,
{
    if n == 0 {
        assert(d / (2 * d) == 0) by (nonlinear_arith)
            requires
                d > 0,
        ;
    } else if n > 0 {
        assert((2 * n + d) / (2 * d) >= 0) by (nonlinear_arith)
            requires
                n >= 0,
                d > 0,
        ;
    } else {
        assert((2 * (-n) + d) / (2 * d) >= 0) by (nonlinear_arith)
            requires
                n < 0,
                d > 0,
        ;
    }
}

/// Signs under the operations: a product or quotient of two values that
/// are not negative is not negative, of one that is not negative and one
/// that is not positive is not positive; the negation of a value that is
/// not negative is not positive; and no root is negative.
pub proof fn lemma_signs(a: Fixed, b: Fixed)
    ensures
        a@ >= 0 && b@ >= 0 ==> a.mul(b)@ >= 0 && a.div(b)@ >= 0 && a.add(b)@ >= 0,
        a@ <= 0 && b@ >= 0 ==> a.mul(b)@ <= 0 && a.div(b)@ <= 0 && b.mul(a)@ <= 0 && a.sub(b)@ <= 0,
        a@ <= 0 && b@ <= 0 ==> a.add(b)@ <= 0,
        a@ >= 0 ==> a.neg()@ <= 0,
        a@ <= 0 ==> a.neg()@ >= 0,
        a.sqrt()@ >= 0,
        a.abs()@ >= 0,
{
    let s = SCALE as int;
    if a@ >= 0 && b@ >= 0 {
        assert(a@ * b@ >= 0) by (nonlinear_arith)
            requires
                a@ >= 0,
                b@ >= 0,
        ;
    }
    if a@ <= 0 && b@ >= 0 {
        assert(a@ * b@ <= 0 && b@ * a@ <= 0) by (nonlinear_arith)
            requires
                a@ <= 0,
                b@ >= 0,
        ;
    }
    lemma_round_div_sign(a@ * b@, s);
    lemma_round_div_sign(b@ * a@, s);
    if b@ > 0 {
        lemma_round_div_sign(a@ * SCALE, b@);
    }
    if a@ > 0 {
        lemma_product_bound(a@, s);
        lemma_floor_sqrt_exists(a@ * SCALE);
    }
}

/// A product of two values that does not leave the range is within half a
/// unit of the exact product.
#[verifier::rlimit(50)]
pub proof fn lemma_mul_nearest(a: Fixed, b: Fixed, ba: int, bb: int)
    requires
        -ba <= a@ <= ba,
        -bb <= b@ <= bb,
        0 <= ba <= 1_000_000_000_000_000,
        0 <= bb <= 1_000_000_000_000,
    ensures
        -SCALE <= 2 * (a.mul(b)@ * SCALE - a@ * b@) <= SCALE,
        -(ba * bb) <= a@ * b@ <= ba * bb,
{
    let s = SCALE as int;
    let p = a@ * b@;
    lemma_round_div_nearest(p, s);
    let q = round_div(p, s);
    assert(-(ba * bb) <= p <= ba * bb && ba * bb <= 1_000_000_000_000_000_000_000_000_000)
        by (nonlinear_arith)
        requires
            p == a@ * b@,
            -ba <= a@ <= ba,
            -bb <= b@ <= bb,
            0 <= ba <= 1_000_000_000_000_000,
            0 <= bb <= 1_000_000_000_000,
    ;
    assert(-2_000_000_000_000_000_000 <= q <= 2_000_000_000_000_000_000) by (nonlinear_arith)
        requires
            -s <= 2 * (q * s - p) <= s,
            -1_000_000_000_000_000_000_000_000_000 <= p <= 1_000_000_000_000_000_000_000_000_000,
            s == 1_000_000_000,
    ;
}

/// A whole number of up to six times a value is not rounded.
#[verifier::rlimit(50)]
pub proof fn lemma_mul_whole(n: i64, x: Fixed)
    requires
        0 <= n <= 6,
        -1_000_000_000_000_000_000 <= x@ <= 1_000_000_000_000_000_000,
    ensures
        Fixed::from_int(n).mul(x)@ == n * x@,
{
    let s = SCALE as int;
    let a = Fixed::from_int(n)@;
    assert(a == n * s);
    lemma_round_div_nearest(a * x@, s);
    let q = round_div(a * x@, s);
    assert(q == n * x@) by (nonlinear_arith)
        requires
            -s <= 2 * (q * s - a * x@) <= s,
            a == n * s,
            s == 1_000_000_000,
    ;
    assert(-6_000_000_000_000_000_000 <= n * x@ <= 6_000_000_000_000_000_000) by (nonlinear_arith)
        requires
            0 <= n <= 6,
            -1_000_000_000_000_000_000 <= x@ <= 1_000_000_000_000_000_000,
    ;
}

/// A value divided by a whole number from one to six is within half a
/// unit of the exact quotient.
#[verifier::rlimit(50)]
pub proof fn lemma_div_whole(x: Fixed, n: i64)
    requires
        1 <= n <= 6,
        -1_000_000_000_000_000_000 <= x@ <= 1_000_000_000_000_000_000,
    ensures
        -n <= 2 * (n * x.div(Fixed::from_int(n))@ - x@) <= n,
{
    let s = SCALE as int;
    let d = Fixed::from_int(n)@;
    assert(d == n * s);
    lemma_round_div_nearest(x@ * s, d);
    let q = round_div(x@ * s, d);
    assert(-n <= 2 * (n * q - x@) <= n) by (nonlinear_arith)
        requires
            -d <= 2 * (q * d - x@ * s) <= d,
            d == n * s,
            s == 1_000_000_000,
    ;
    assert(-2_000_000_000_000_000_000 <= q <= 2_000_000_000_000_000_000) by (nonlinear_arith)
        requires
            -n <= 2 * (n * q - x@) <= n,
            1 <= n <= 6,
            -1_000_000_000_000_000_000 <= x@ <= 1_000_000_000_000_000_000,
    ;
    assert(x.div(Fixed::from_int(n))@ == q);
}

/// A product is no larger than the product of the bounds of its factors.
#[verifier::rlimit(50)]
pub proof fn lemma_product_size(a: int, b: int, ba: int, bb: int)
    requires
        -ba <= a <= ba,
        -bb <= b <= bb,
    ensures
        -(ba * bb) <= a * b <= ba * bb,
{
    assert(-(ba * bb) <= a * b <= ba * bb) by (nonlinear_arith)
        requires
            -ba <= a <= ba,
            -bb <= b <= bb,
    ;
}

} // verus!
