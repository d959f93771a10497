//! Exact rational arithmetic: the alternate numeric backend of the
//! escape-time kernel. A rational is a numerator/denominator pair of signed
//! 128-bit integers; every operation reduces its result by the greatest
//! common divisor of the two components.

use vstd::arithmetic::power::pow;
use vstd::math::abs;
use vstd::prelude::*;

verus! {

/// Truncating division (rounding toward zero), which is what `/` does on
/// Rust's signed integers.
pub open spec fn trunc_div(a: int, b: int) -> int {
    if a >= 0 {
        a / b
    } else {
        -((-a) / b)
    }
}

/// The remainder of truncating division, which is what `%` does on Rust's
/// signed integers: the remainder's sign follows the dividend.
pub open spec fn trunc_rem(a: int, b: int) -> int {
    if a >= 0 {
        a % b
    } else {
        -((-a) % b)
    }
}

/// The remainder of truncating division is smaller in magnitude than the
/// divisor.
pub proof fn lemma_trunc_rem_bound(a: int, b: int)
    requires
        b != 0,
    ensures
        abs(trunc_rem(a, b)) < abs(b),
{
}

/// The greatest common divisor as Euclid's algorithm computes it on signed
/// integers: repeatedly replace the pair `(a, b)` by `(b, a % b)` until the
/// second component is zero. The result carries whatever sign the algorithm
/// leaves on it.
pub open spec fn spec_gcd(a: int, b: int) -> int
    decreases abs(b),
        via spec_gcd_decreases
{
    if b == 0 {
        a
    } else {
        spec_gcd(b, trunc_rem(a, b))
    }
}

#[via_fn]
proof fn spec_gcd_decreases(a: int, b: int) {
    if b != 0 {
        lemma_trunc_rem_bound(a, b);
    }
}

/// Euclid's algorithm never ends on zero unless both inputs are zero.
pub proof fn lemma_gcd_nonzero(a: int, b: int)
    requires
        !(a == 0 && b == 0),
    ensures
        spec_gcd(a, b) != 0,
    decreases abs(b),
{
    if b != 0 {
        lemma_trunc_rem_bound(a, b);
        lemma_gcd_nonzero(b, trunc_rem(a, b));
    }
}

/// The greatest common divisor of two signed integers, by Euclid's
/// algorithm. The magnitudes must stay clear of the smallest 128-bit value,
/// whose negation does not exist.
pub fn gcd(a: i128, b: i128) -> (r: i128)
    requires
        a != i128::MIN,
        b != i128::MIN,
    ensures
        r == spec_gcd(a as int, b as int),
{
    let mut x = a;
    let mut y = b;
    while y != 0
        invariant
            x != i128::MIN,
            y != i128::MIN,
            spec_gcd(x as int, y as int) == spec_gcd(a as int, b as int),
        decreases abs(y as int),
    {
        proof {
            lemma_trunc_rem_bound(x as int, y as int);
        }
        let remainder = x % y;
        x = y;
        y = remainder;
    }
    x
}

/// A value that stays within the symmetric range of `i128`: its negation
/// exists too.
pub open spec fn in_rng(x: int) -> bool {
    -(i128::MAX as int) <= x <= i128::MAX as int
}

/// A numerator/denominator pair may be reduced when both components are in
/// the symmetric `i128` range and they are not both zero (so their greatest
/// common divisor is nonzero).
pub open spec fn reduce_ok(n: int, d: int) -> bool {
    &&& in_rng(n)
    &&& in_rng(d)
    &&& !(n == 0 && d == 0)
}

/// An exact rational number: `num / denom`. The representation is not kept
/// canonical; operations reduce their result by the greatest common divisor
/// of numerator and denominator, with the signs the division leaves behind.
#[derive(Clone, Copy, PartialEq, Eq, Structural, Debug)]
pub struct RationalNumber {
    pub num: i128,
    pub denom: i128,
}

/// The reduced form of the pair `n / d`: both components divided by their
/// greatest common divisor.
pub open spec fn spec_reduced(n: int, d: int) -> RationalNumber
    recommends
        reduce_ok(n, d),
{
    let g = spec_gcd(n, d);
    RationalNumber { num: trunc_div(n, g) as i128, denom: trunc_div(d, g) as i128 }
}

/// The sum `a + b`, reduced.
pub open spec fn spec_add(a: RationalNumber, b: RationalNumber) -> RationalNumber {
    spec_reduced(
        a.num as int * b.denom as int + a.denom as int * b.num as int,
        a.denom as int * b.denom as int,
    )
}

/// The sum may be computed when all intermediate products, their sum, and
/// the denominator product stay in range, and the result pair is reducible.
pub open spec fn add_ok(a: RationalNumber, b: RationalNumber) -> bool {
    &&& in_rng(a.num as int * b.denom as int)
    &&& in_rng(a.denom as int * b.num as int)
    &&& reduce_ok(
        a.num as int * b.denom as int + a.denom as int * b.num as int,
        a.denom as int * b.denom as int,
    )
}

/// The difference `a - b`, reduced.
pub open spec fn spec_sub(a: RationalNumber, b: RationalNumber) -> RationalNumber {
    spec_reduced(
        a.num as int * b.denom as int - a.denom as int * b.num as int,
        a.denom as int * b.denom as int,
    )
}

/// The difference may be computed under the same conditions as the sum.
pub open spec fn sub_ok(a: RationalNumber, b: RationalNumber) -> bool {
    &&& in_rng(a.num as int * b.denom as int)
    &&& in_rng(a.denom as int * b.num as int)
    &&& reduce_ok(
        a.num as int * b.denom as int - a.denom as int * b.num as int,
        a.denom as int * b.denom as int,
    )
}

/// The product `a * b`, reduced.
pub open spec fn spec_mul(a: RationalNumber, b: RationalNumber) -> RationalNumber {
    spec_reduced(a.num as int * b.num as int, a.denom as int * b.denom as int)
}

/// The product may be computed when both component products are in range
/// and not both zero.
pub open spec fn mul_ok(a: RationalNumber, b: RationalNumber) -> bool {
    reduce_ok(a.num as int * b.num as int, a.denom as int * b.denom as int)
}

/// The quotient `a / b`: multiplication by the flipped divisor, reduced.
pub open spec fn spec_div(a: RationalNumber, b: RationalNumber) -> RationalNumber {
    spec_reduced(a.num as int * b.denom as int, a.denom as int * b.num as int)
}

/// The quotient may be computed when both cross products are in range and
/// not both zero.
pub open spec fn div_ok(a: RationalNumber, b: RationalNumber) -> bool {
    reduce_ok(a.num as int * b.denom as int, a.denom as int * b.num as int)
}

impl RationalNumber {
    /// Adds two rationals: cross-multiplied sum over the product of the
    /// denominators, reduced by their greatest common divisor.
    pub fn add(&self, rhs: &RationalNumber) -> (r: RationalNumber)
        requires
            add_ok(*self, *rhs),
        ensures
            r == spec_add(*self, *rhs),
    {
        let num = self.num * rhs.denom + self.denom * rhs.num;
        let denom = self.denom * rhs.denom;
        proof {
            lemma_gcd_nonzero(num as int, denom as int);
        }
        let divisor = gcd(num, denom);
        RationalNumber { num: num / divisor, denom: denom / divisor }
    }

    /// Subtracts a rational from this one, reduced.
    pub fn sub(&self, rhs: &RationalNumber) -> (r: RationalNumber)
        requires
            sub_ok(*self, *rhs),
        ensures
            r == spec_sub(*self, *rhs),
    {
        let num = self.num * rhs.denom - self.denom * rhs.num;
        let denom = self.denom * rhs.denom;
        proof {
            lemma_gcd_nonzero(num as int, denom as int);
        }
        let divisor = gcd(num, denom);
        RationalNumber { num: num / divisor, denom: denom / divisor }
    }

    /// Multiplies two rationals componentwise, reduced.
    pub fn mul(&self, rhs: &RationalNumber) -> (r: RationalNumber)
        requires
            mul_ok(*self, *rhs),
        ensures
            r == spec_mul(*self, *rhs),
    {
        let num = self.num * rhs.num;
        let denom = self.denom * rhs.denom;
        proof {
            lemma_gcd_nonzero(num as int, denom as int);
        }
        let divisor = gcd(num, denom);
        RationalNumber { num: num / divisor, denom: denom / divisor }
    }

    /// Divides this rational by another: cross-multiplication, reduced.
    pub fn div(&self, rhs: &RationalNumber) -> (r: RationalNumber)
        requires
            div_ok(*self, *rhs),
        ensures
            r == spec_div(*self, *rhs),
    {
        let num = self.num * rhs.denom;
        let denom = self.denom * rhs.num;
        proof {
            lemma_gcd_nonzero(num as int, denom as int);
        }
        let divisor = gcd(num, denom);
        RationalNumber { num: num / divisor, denom: denom / divisor }
    }
}

/// Raising a rational to a power may be done when both components' powers
/// stay in range and are not both zero.
pub open spec fn powi_ok(a: RationalNumber, n: nat) -> bool {
    reduce_ok(pow(a.num as int, n), pow(a.denom as int, n))
}

/// The rational raised to the `n`-th power: both components raised, then
/// reduced.
pub open spec fn spec_powi(a: RationalNumber, n: nat) -> RationalNumber {
    spec_reduced(pow(a.num as int, n), pow(a.denom as int, n))
}

/// The magnitude of a power equals the power of the magnitude.
proof fn lemma_abs_pow(x: int, e: nat)
    ensures
        abs(pow(x, e)) == pow(abs(x) as int, e),
    decreases e,
{
    if e == 0 {
        vstd::arithmetic::power::lemma_pow0(x);
        vstd::arithmetic::power::lemma_pow0(abs(x) as int);
    } else {
        let e1 = (e - 1) as nat;
        lemma_abs_pow(x, e1);
        vstd::arithmetic::power::lemma_pow1(x);
        vstd::arithmetic::power::lemma_pow1(abs(x) as int);
        vstd::arithmetic::power::lemma_pow_adds(x, e1, 1);
        vstd::arithmetic::power::lemma_pow_adds(abs(x) as int, e1, 1);
        assert(pow(x, e) == pow(x, e1) * x);
        assert(pow(abs(x) as int, e) == pow(abs(x) as int, e1) * (abs(x) as int));
        lemma_abs_mul(pow(x, e1), x);
    }
}

/// Magnitudes multiply.
proof fn lemma_abs_mul(u: int, v: int)
    ensures
        abs(u * v) == abs(u) * abs(v),
{
    assert(abs(u * v) == abs(u) * abs(v)) by (nonlinear_arith);
}

/// Any earlier partial power is bounded by one or by the full power.
proof fn lemma_pow_partial_bound(x: int, i: nat, n: nat)
    requires
        i <= n,
    ensures
        abs(pow(x, i)) <= 1 || abs(pow(x, i)) <= abs(pow(x, n)),
{
    lemma_abs_pow(x, i);
    lemma_abs_pow(x, n);
    let m = abs(x);
    if m == 0 {
        if i != 0 {
            vstd::arithmetic::power::lemma0_pow(i);
        } else {
            vstd::arithmetic::power::lemma_pow0(0);
        }
    } else {
        vstd::arithmetic::power::lemma_pow_increases(m, i, n);
    }
}

impl RationalNumber {
    /// Raises the rational to the `n`-th power by repeated multiplication
    /// of both components, then reduces once.
    pub fn powi(&self, n: u32) -> (r: RationalNumber)
        requires
            powi_ok(*self, n as nat),
        ensures
            r == spec_powi(*self, n as nat),
    {
        let mut num_powi: i128 = 1;
        let mut denom_powi: i128 = 1;
        let mut i: u32 = 0;
        proof {
            vstd::arithmetic::power::lemma_pow0(self.num as int);
            vstd::arithmetic::power::lemma_pow0(self.denom as int);
        }
        while i < n
            invariant
                0 <= i <= n,
                powi_ok(*self, n as nat),
                num_powi as int == pow(self.num as int, i as nat),
                denom_powi as int == pow(self.denom as int, i as nat),
            decreases n - i,
        {
            proof {
                lemma_pow_partial_bound(self.num as int, (i + 1) as nat, n as nat);
                lemma_pow_partial_bound(self.denom as int, (i + 1) as nat, n as nat);
                vstd::arithmetic::power::lemma_pow1(self.num as int);
                vstd::arithmetic::power::lemma_pow1(self.denom as int);
                vstd::arithmetic::power::lemma_pow_adds(self.num as int, i as nat, 1);
                vstd::arithmetic::power::lemma_pow_adds(self.denom as int, i as nat, 1);
                assert(pow(self.num as int, (i + 1) as nat) == pow(self.num as int, i as nat)
                    * self.num as int);
                assert(pow(self.denom as int, (i + 1) as nat) == pow(self.denom as int, i as nat)
                    * self.denom as int);
            }
            num_powi = self.num * num_powi;
            denom_powi = self.denom * denom_powi;
            i = i + 1;
        }
        proof {
            lemma_gcd_nonzero(num_powi as int, denom_powi as int);
        }
        let divisor = gcd(num_powi, denom_powi);
        RationalNumber { num: num_powi / divisor, denom: denom_powi / divisor }
    }
}

/// Whether two rationals denote the same value: their reduced forms have
/// identical components.
pub open spec fn spec_eq(a: RationalNumber, b: RationalNumber) -> bool {
    spec_reduced(a.num as int, a.denom as int) == spec_reduced(b.num as int, b.denom as int)
}

/// A rational may take part in comparisons when its own pair is reducible.
pub open spec fn eq_ok(a: RationalNumber) -> bool {
    reduce_ok(a.num as int, a.denom as int)
}

/// The quantity rationals are ordered by: the sum of the squares of the
/// reduced components.
pub open spec fn spec_norm(a: RationalNumber) -> int {
    let r = spec_reduced(a.num as int, a.denom as int);
    r.num as int * r.num as int + r.denom as int * r.denom as int
}

/// A rational may be ordered when it is reducible and the squares of its
/// reduced components, and their sum, stay in range.
pub open spec fn cmp_ok(a: RationalNumber) -> bool {
    let r = spec_reduced(a.num as int, a.denom as int);
    &&& eq_ok(a)
    &&& in_rng(r.num as int * r.num as int)
    &&& in_rng(r.denom as int * r.denom as int)
    &&& in_rng(spec_norm(a))
}

/// How this ordering ranks `a` against `b`: by comparing `b`'s norm with
/// `a`'s, so a rational ranks greater exactly when the other one's reduced
/// components are larger in square sum.
pub open spec fn spec_compare(a: RationalNumber, b: RationalNumber) -> core::cmp::Ordering {
    if spec_norm(b) < spec_norm(a) {
        core::cmp::Ordering::Less
    } else if spec_norm(b) == spec_norm(a) {
        core::cmp::Ordering::Equal
    } else {
        core::cmp::Ordering::Greater
    }
}

impl RationalNumber {
    /// Whether this rational denotes the same value as another: both are
    /// reduced and the reduced components compared.
    pub fn equals(&self, other: &RationalNumber) -> (r: bool)
        requires
            eq_ok(*self),
            eq_ok(*other),
        ensures
            r == spec_eq(*self, *other),
    {
        proof {
            lemma_gcd_nonzero(self.num as int, self.denom as int);
            lemma_gcd_nonzero(other.num as int, other.denom as int);
        }
        let divisor = gcd(self.num, self.denom);
        let a = self.num / divisor;
        let b = self.denom / divisor;

        let divisor = gcd(other.num, other.denom);
        let x = other.num / divisor;
        let y = other.denom / divisor;

        (a == x) && (b == y)
    }

    /// Ranks this rational against another by the square sums of the
    /// reduced components.
    pub fn compare(&self, other: &RationalNumber) -> (r: core::cmp::Ordering)
        requires
            cmp_ok(*self),
            cmp_ok(*other),
        ensures
            r == spec_compare(*self, *other),
    {
        proof {
            lemma_gcd_nonzero(self.num as int, self.denom as int);
            lemma_gcd_nonzero(other.num as int, other.denom as int);
        }
        let divisor = gcd(self.num, self.denom);
        let a = self.num / divisor;
        let b = self.denom / divisor;

        let divisor = gcd(other.num, other.denom);
        let x = other.num / divisor;
        let y = other.denom / divisor;

        let self_norm = a * a + b * b;
        let other_norm = x * x + y * y;

        if other_norm < self_norm {
            core::cmp::Ordering::Less
        } else if other_norm == self_norm {
            core::cmp::Ordering::Equal
        } else {
            core::cmp::Ordering::Greater
        }
    }
}

impl Default for RationalNumber {
    /// The rational zero, as `0 / 1`.
    fn default() -> (r: Self)
        ensures
            r == (RationalNumber { num: 0, denom: 1 }),
    {
        RationalNumber { num: 0, denom: 1 }
    }
}

} // verus!
