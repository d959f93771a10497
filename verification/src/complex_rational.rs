//! Complex numbers over exact rationals, for the escape-time iteration's
//! alternate numeric backend.

use vstd::prelude::*;

use crate::rational::{
    add_ok, mul_ok, powi_ok, spec_add, spec_mul, spec_powi, spec_sub, sub_ok, RationalNumber,
};

verus! {

/// A complex number `a + b*i` with exact rational parts.
#[derive(Clone, Copy, PartialEq, Eq, Structural, Debug)]
pub struct ComplexRationalNumber {
    pub a: RationalNumber,
    pub b: RationalNumber,
}

/// The rational two, used to double the cross term when squaring.
pub open spec fn spec_two() -> RationalNumber {
    RationalNumber { num: 2, denom: 1 }
}

/// The square of a complex number: `(a^2 - b^2) + (2*a*b)*i`.
pub open spec fn spec_complex_pow2(z: ComplexRationalNumber) -> ComplexRationalNumber {
    ComplexRationalNumber {
        a: spec_sub(spec_powi(z.a, 2), spec_powi(z.b, 2)),
        b: spec_mul(spec_mul(z.a, z.b), spec_two()),
    }
}

/// The square may be computed when each intermediate rational operation may.
pub open spec fn complex_pow2_ok(z: ComplexRationalNumber) -> bool {
    &&& powi_ok(z.a, 2)
    &&& powi_ok(z.b, 2)
    &&& sub_ok(spec_powi(z.a, 2), spec_powi(z.b, 2))
    &&& mul_ok(z.a, z.b)
    &&& mul_ok(spec_mul(z.a, z.b), spec_two())
}

/// The squared magnitude of a complex number: `a^2 + b^2`.
pub open spec fn spec_complex_length_squared(z: ComplexRationalNumber) -> RationalNumber {
    spec_add(spec_powi(z.a, 2), spec_powi(z.b, 2))
}

/// The squared magnitude may be computed when each intermediate rational
/// operation may.
pub open spec fn complex_length_squared_ok(z: ComplexRationalNumber) -> bool {
    &&& powi_ok(z.a, 2)
    &&& powi_ok(z.b, 2)
    &&& add_ok(spec_powi(z.a, 2), spec_powi(z.b, 2))
}

impl ComplexRationalNumber {
    /// Squares the complex number: `z^2 = (a^2 - b^2) + 2*a*b*i`.
    pub fn pow2(&self) -> (r: ComplexRationalNumber)
        requires
            complex_pow2_ok(*self),
        ensures
            r == spec_complex_pow2(*self),
    {
        let two = RationalNumber { num: 2, denom: 1 };
        ComplexRationalNumber {
            a: self.a.powi(2).sub(&self.b.powi(2)),
            b: self.a.mul(&self.b).mul(&two),
        }
    }

    /// The squared magnitude `a^2 + b^2`, which the escape test compares
    /// against the escape radius.
    pub fn length_squared(&self) -> (r: RationalNumber)
        requires
            complex_length_squared_ok(*self),
        ensures
            r == spec_complex_length_squared(*self),
    {
        self.a.powi(2).add(&self.b.powi(2))
    }

    /// Adds two complex numbers componentwise.
    pub fn add(&self, rhs: &ComplexRationalNumber) -> (r: ComplexRationalNumber)
        requires
            add_ok(self.a, rhs.a),
            add_ok(self.b, rhs.b),
        ensures
            r.a == spec_add(self.a, rhs.a),
            r.b == spec_add(self.b, rhs.b),
    {
        ComplexRationalNumber { a: self.a.add(&rhs.a), b: self.b.add(&rhs.b) }
    }
}

impl Default for ComplexRationalNumber {
    /// The complex zero.
    fn default() -> (r: Self)
        ensures
            r.a == (RationalNumber { num: 0, denom: 1 }),
            r.b == (RationalNumber { num: 0, denom: 1 }),
    {
        ComplexRationalNumber { a: RationalNumber::default(), b: RationalNumber::default() }
    }
}

} // verus!
