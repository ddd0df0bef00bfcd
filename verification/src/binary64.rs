//! IEEE 754 binary64 numbers as bit patterns: what a pattern denotes, and the
//! order of the numbers decided on the patterns.
//!
//! A pattern has a sign bit, eleven bits of exponent and 52 bits of fraction. An
//! exponent of all ones marks an infinity (fraction zero) or a NaN. Every other
//! pattern is finite and denotes `significand * 2^scale` units of `2^-1074`,
//! the smallest positive number of the format.

use vstd::arithmetic::div_mod::lemma_fundamental_div_mod_converse;
use vstd::arithmetic::mul::{lemma_mul_inequality, lemma_mul_strict_inequality};
use vstd::arithmetic::power2::{
    lemma2_to64, lemma2_to64_rest, lemma_pow2_pos, lemma_pow2_strictly_increases,
    lemma_pow2_unfold, pow2,
};
use vstd::prelude::*;

verus! {

/// The sign bit of a pattern.
pub const SIGN_BIT: u64 = 0x8000_0000_0000_0000;

/// The pattern of positive infinity. A pattern whose magnitude is larger is a NaN.
pub const INFINITY_BITS: u64 = 0x7FF0_0000_0000_0000;

/// Two to the 52: the bit that a normal number has in front of its fraction.
pub const HIDDEN_BIT: u64 = 0x0010_0000_0000_0000;

/// The values of finite numbers are counted in units of two to the minus this.
pub open spec fn unit_exponent() -> nat {
    1074
}

/// An IEEE 754 binary64 number, held as its 64 bits.
///
/// `==` on this type compares patterns, not numbers: the two zeros differ, and a
/// NaN equals itself. Use [`Binary64::lt`] for the numeric order.
#[derive(Clone, Copy, Debug, PartialEq, Eq, Structural)]
pub struct Binary64 {
    pub bits: u64,
}

impl Binary64 {
    /// The sign bit is set.
    pub open spec fn sign(self) -> bool {
        self.bits >= SIGN_BIT
    }

    /// The pattern without its sign bit: exponent and fraction.
    pub open spec fn magnitude(self) -> int {
        if self.bits >= SIGN_BIT {
            self.bits - SIGN_BIT
        } else {
            self.bits as int
        }
    }

    /// The eleven bits of the exponent.
    pub open spec fn exponent_field(self) -> int {
        self.magnitude() / (HIDDEN_BIT as int)
    }

    /// The 52 bits of the fraction.
    pub open spec fn fraction_field(self) -> int {
        self.magnitude() % (HIDDEN_BIT as int)
    }

    /// Not a number: the exponent is all ones and the fraction is not zero.
    pub open spec fn spec_is_nan(self) -> bool {
        self.magnitude() > INFINITY_BITS
    }

    /// An infinity: the exponent is all ones and the fraction is zero.
    pub open spec fn spec_is_infinite(self) -> bool {
        self.magnitude() == INFINITY_BITS
    }

    /// Neither a NaN nor an infinity.
    pub open spec fn spec_is_finite(self) -> bool {
        self.magnitude() < INFINITY_BITS
    }

    /// The significand of a finite number as an integer: the fraction, with
    /// the hidden bit in front of it unless the number is subnormal.
    pub open spec fn significand(self) -> int {
        if self.exponent_field() == 0 {
            self.fraction_field()
        } else {
            HIDDEN_BIT + self.fraction_field()
        }
    }

    /// The power of two by which the significand of a finite number counts
    /// units: 0 for the subnormal numbers and for the smallest normal ones.
    pub open spec fn scale(self) -> nat {
        if self.exponent_field() <= 1 {
            0
        } else {
            (self.exponent_field() - 1) as nat
        }
    }

    /// The absolute value of a finite number, in units of `2^-1074`.
    pub open spec fn units(self) -> int {
        self.significand() * pow2(self.scale())
    }

    /// The value of a finite number, in units of `2^-1074`.
    pub open spec fn value(self) -> int {
        if self.sign() {
            -self.units()
        } else {
            self.units()
        }
    }

    /// The number is finite and is the integer `n`.
    pub open spec fn denotes(self, n: int) -> bool {
        self.spec_is_finite() && self.value() == n * pow2(unit_exponent())
    }

    /// The IEEE 754 comparison `self < other`. A NaN is below nothing and
    /// nothing is below it; negative infinity is below all other numbers and
    /// all other numbers are below positive infinity; finite numbers compare
    /// by their values, so that the two zeros are equal.
    pub open spec fn spec_lt(self, other: Binary64) -> bool {
        if self.spec_is_nan() || other.spec_is_nan() {
            false
        } else if self.spec_is_infinite() {
            self.sign() && !(other.spec_is_infinite() && other.sign())
        } else if other.spec_is_infinite() {
            !other.sign()
        } else {
            self.value() < other.value()
        }
    }

    /// The comparison `self < n` with an integer `n`, by the same rules.
    pub open spec fn is_below(self, n: int) -> bool {
        if self.spec_is_nan() {
            false
        } else if self.spec_is_infinite() {
            self.sign()
        } else {
            self.value() < n * pow2(unit_exponent())
        }
    }

    /// The magnitude with the sign applied: the integer by which [`Self::lt`]
    /// compares two patterns that are no NaN.
    pub open spec fn rank(self) -> int {
        if self.sign() {
            -self.magnitude()
        } else {
            self.magnitude()
        }
    }

    /// Among finite numbers a larger magnitude denotes a larger absolute value.
    pub proof fn lemma_units_increase(self, other: Binary64)
        requires
            self.magnitude() < other.magnitude(),
            other.spec_is_finite(),
        ensures
            self.units() < other.units(),
    {
        let e = self.exponent_field();
        let f = self.fraction_field();
        let oe = other.exponent_field();
        let of = other.fraction_field();
        let m = self.significand();
        let om = other.significand();
        let s = self.scale();
        let os = other.scale();
        lemma_pow2_pos(s);
        lemma_pow2_pos(os);
        assert(e <= oe);
        if e == oe {
            assert(m < om);
            lemma_mul_strict_inequality(m, om, pow2(s) as int);
        } else if e == 0 {
            lemma2_to64();
            assert(m * pow2(s) == m) by (nonlinear_arith)
                requires
                    pow2(s) == 1,
            ;
            lemma_mul_inequality(1, pow2(os) as int, om);
            assert(1 * om == om);
            assert(pow2(os) * om == om * pow2(os)) by (nonlinear_arith);
        } else {
            // m * 2^s < 2^53 * 2^s == 2^52 * 2^(s+1) <= 2^52 * 2^os <= om * 2^os
            lemma_mul_strict_inequality(m, 2 * HIDDEN_BIT, pow2(s) as int);
            lemma_pow2_unfold(s + 1);
            assert((2 * HIDDEN_BIT) * pow2(s) == HIDDEN_BIT * pow2(s + 1)) by (nonlinear_arith)
                requires
                    pow2(s + 1) == 2 * pow2(s),
            ;
            assert(s + 1 <= os);
            if s + 1 < os {
                lemma_pow2_strictly_increases(s + 1, os);
            }
            lemma_mul_inequality(pow2(s + 1) as int, pow2(os) as int, HIDDEN_BIT as int);
            assert(pow2(s + 1) * HIDDEN_BIT == HIDDEN_BIT * pow2(s + 1)) by (nonlinear_arith);
            assert(pow2(os) * HIDDEN_BIT == HIDDEN_BIT * pow2(os)) by (nonlinear_arith);
            lemma_mul_inequality(HIDDEN_BIT as int, om, pow2(os) as int);
        }
    }

    /// The rank orders the finite numbers as their values do, and two finite
    /// numbers have one value exactly when they have one rank.
    pub proof fn lemma_rank_orders_values(self, other: Binary64)
        requires
            self.spec_is_finite(),
            other.spec_is_finite(),
        ensures
            self.rank() < other.rank() <==> self.value() < other.value(),
            self.rank() == other.rank() <==> self.value() == other.value(),
    {
        let zero = Binary64 { bits: 0 };
        assert(zero.units() == 0) by {
            assert(zero.significand() == 0);
            assert(0 * pow2(zero.scale()) == 0);
        }
        if self.magnitude() > 0 {
            zero.lemma_units_increase(self);
        } else {
            assert(self.significand() == 0);
            assert(0 * pow2(self.scale()) == 0);
        }
        if other.magnitude() > 0 {
            zero.lemma_units_increase(other);
        } else {
            assert(other.significand() == 0);
            assert(0 * pow2(other.scale()) == 0);
        }
        if self.magnitude() < other.magnitude() {
            self.lemma_units_increase(other);
        } else if other.magnitude() < self.magnitude() {
            other.lemma_units_increase(self);
        } else {
            assert(self.significand() == other.significand());
            assert(self.scale() == other.scale());
        }
    }

    /// Where neither is a NaN, `self < other` is decided by the ranks.
    pub proof fn lemma_lt_by_rank(self, other: Binary64)
        requires
            !self.spec_is_nan(),
            !other.spec_is_nan(),
        ensures
            self.spec_lt(other) <==> self.rank() < other.rank(),
    {
        if self.spec_is_finite() && other.spec_is_finite() {
            self.lemma_rank_orders_values(other);
        }
    }

    /// The order is strict: nothing is below itself, and of two numbers at
    /// most one is below the other.
    pub proof fn lemma_lt_is_strict(self, other: Binary64)
        ensures
            !self.spec_lt(self),
            !(self.spec_lt(other) && other.spec_lt(self)),
    {
        if !self.spec_is_nan() {
            self.lemma_lt_by_rank(self);
            if !other.spec_is_nan() {
                self.lemma_lt_by_rank(other);
                other.lemma_lt_by_rank(self);
            }
        }
    }

    /// The order is transitive.
    pub proof fn lemma_lt_is_transitive(self, middle: Binary64, other: Binary64)
        requires
            self.spec_lt(middle),
            middle.spec_lt(other),
        ensures
            self.spec_lt(other),
    {
        self.lemma_lt_by_rank(middle);
        middle.lemma_lt_by_rank(other);
        self.lemma_lt_by_rank(other);
    }

    /// To be below a number that is an integer is to be below that integer.
    pub proof fn lemma_lt_of_integer(self, other: Binary64, n: int)
        requires
            other.denotes(n),
        ensures
            self.spec_lt(other) <==> self.is_below(n),
    {
    }

    /// The number `n`, for an `n` of no more than 53 bits: these are numbers
    /// of the format.
    fn from_magnitude(n: u64) -> (r: Binary64)
        requires
            n < 2 * HIDDEN_BIT,
        ensures
            !r.sign(),
            r.spec_is_finite(),
            r.units() == n * pow2(unit_exponent()),
    {
        if n == 0 {
            let zero = Binary64 { bits: 0 };
            proof {
                assert(zero.significand() == 0);
                assert(0 * pow2(zero.scale()) == 0);
                assert(0 * pow2(unit_exponent()) == 0);
            }
            return zero;
        }
        // the value is `significand * 2^(exponent - 1075)`, and the significand
        // is doubled until its bit 52 is set
        let mut significand: u64 = n;
        let mut exponent: u64 = 1075;
        proof {
            lemma2_to64();
        }
        while significand < HIDDEN_BIT
            invariant
                0 < significand < 2 * HIDDEN_BIT,
                1023 <= exponent <= 1075,
                significand * pow2((exponent - 1) as nat) == n * pow2(unit_exponent()),
                significand >= pow2((1075 - exponent) as nat),
            decreases exponent,
        {
            proof {
                lemma2_to64_rest();
                if 1075 - exponent > 52 {
                    lemma_pow2_strictly_increases(52, (1075 - exponent) as nat);
                }
                assert(exponent > 1023);
                lemma_pow2_unfold((exponent - 1) as nat);
                lemma_pow2_unfold((1076 - exponent) as nat);
                assert((2 * significand) * pow2((exponent - 2) as nat) == significand * pow2(
                    (exponent - 1) as nat,
                )) by (nonlinear_arith)
                    requires
                        pow2((exponent - 1) as nat) == 2 * pow2((exponent - 2) as nat),
                ;
            }
            significand = significand * 2;
            exponent = exponent - 1;
        }
        let r = Binary64 { bits: exponent * HIDDEN_BIT + (significand - HIDDEN_BIT) };
        proof {
            lemma_fundamental_div_mod_converse(
                r.bits as int,
                HIDDEN_BIT as int,
                exponent as int,
                significand - HIDDEN_BIT,
            );
            assert(r.exponent_field() == exponent);
            assert(r.significand() == significand);
            assert(r.scale() == exponent - 1);
        }
        r
    }

    /// The number `n`, as `n as f64` gives it: every `i32` is a number of the
    /// format.
    pub fn from_i32(n: i32) -> (r: Binary64)
        ensures
            r.denotes(n as int),
            r.sign() == (n < 0),
    {
        if n >= 0 {
            Self::from_magnitude(n as u64)
        } else {
            let positive = Self::from_magnitude((-(n as i64)) as u64);
            let r = Binary64 { bits: positive.bits + SIGN_BIT };
            proof {
                assert(r.magnitude() == positive.magnitude());
                assert(r.units() == positive.units());
                assert(-((-n) * pow2(unit_exponent())) == n * pow2(unit_exponent()))
                    by (nonlinear_arith);
            }
            r
        }
    }

    pub fn from_bits(bits: u64) -> (r: Binary64)
        ensures
            r.bits == bits,
    {
        Binary64 { bits }
    }

    pub fn to_bits(self) -> (bits: u64)
        ensures
            bits == self.bits,
    {
        self.bits
    }

    #[verifier::when_used_as_spec(spec_is_nan)]
    pub fn is_nan(self) -> (r: bool)
        ensures
            r == self.spec_is_nan(),
    {
        if self.bits >= SIGN_BIT {
            self.bits - SIGN_BIT > INFINITY_BITS
        } else {
            self.bits > INFINITY_BITS
        }
    }

    #[verifier::when_used_as_spec(spec_is_finite)]
    pub fn is_finite(self) -> (r: bool)
        ensures
            r == self.spec_is_finite(),
    {
        if self.bits >= SIGN_BIT {
            self.bits - SIGN_BIT < INFINITY_BITS
        } else {
            self.bits < INFINITY_BITS
        }
    }

    /// `self < other` as numbers.
    #[verifier::when_used_as_spec(spec_lt)]
    pub fn lt(self, other: Binary64) -> (r: bool)
        ensures
            r == self.spec_lt(other),
    {
        if self.is_nan() || other.is_nan() {
            return false;
        }
        proof {
            self.lemma_lt_by_rank(other);
        }
        let negative: bool = self.bits >= SIGN_BIT;
        let other_negative: bool = other.bits >= SIGN_BIT;
        let magnitude: u64 = if negative {
            self.bits - SIGN_BIT
        } else {
            self.bits
        };
        let other_magnitude: u64 = if other_negative {
            other.bits - SIGN_BIT
        } else {
            other.bits
        };
        if negative {
            if other_negative {
                magnitude > other_magnitude
            } else {
                magnitude != 0 || other_magnitude != 0
            }
        } else {
            !other_negative && magnitude < other_magnitude
        }
    }
}

} // verus!
