//! IEEE 754 binary32 numbers, held as bit patterns and computed with in
//! integer arithmetic.
//!
//! The datasheet formulas of the radio are stated over real numbers, and the
//! driver interface exchanges single-precision values. This module gives such
//! a value an exact mathematical meaning: every finite binary32 number is a
//! whole multiple of 2^-149, so its value is described by an integer count of
//! such steps, its [`Binary32::ticks`].
use vstd::prelude::*;
use vstd::arithmetic::power2::*;

verus! {

/// An IEEE 754 binary32 number, identified by its bit pattern.
#[derive(Clone, Copy, Debug)]
pub struct Binary32 {
    pub bits: u32,
}

/// The number of ticks in the value `1.0`: 2^149.
pub open spec fn one_in_ticks() -> nat {
    pow2(149)
}

/// The tick count that stands for positive infinity: 2^277, one step above
/// the reach of the largest finite binary32 number.
pub open spec fn infinity_in_ticks() -> nat {
    pow2(277)
}

impl Binary32 {
    /// The sign bit is set.
    pub open spec fn negative(self) -> bool {
        self.bits >= 0x8000_0000
    }

    /// The eight bits of the biased exponent.
    pub open spec fn exponent_field(self) -> nat {
        ((self.bits as nat) / 0x80_0000) % 256
    }

    /// The twenty-three bits of the fraction.
    pub open spec fn fraction_field(self) -> nat {
        (self.bits as nat) % 0x80_0000
    }

    /// The pattern is not a number.
    pub open spec fn nan(self) -> bool {
        self.exponent_field() == 255 && self.fraction_field() != 0
    }

    /// The pattern is a zero, a subnormal or a normal number.
    pub open spec fn finite(self) -> bool {
        self.exponent_field() < 255
    }

    /// The pattern is a finite number with a full significand of twenty-four
    /// bits.
    pub open spec fn normal(self) -> bool {
        1 <= self.exponent_field() < 255
    }

    /// The pattern is a number (finite or infinite) that is not negative.
    pub open spec fn positive_number(self) -> bool {
        !self.negative() && !self.nan()
    }

    /// The pattern is a normal number or positive infinity, and not negative.
    pub open spec fn regular(self) -> bool {
        self.positive_number() && self.exponent_field() >= 1
    }

    /// The integer significand: the fraction, with the hidden bit for normal
    /// numbers.
    pub open spec fn significand(self) -> nat {
        if self.exponent_field() == 0 {
            self.fraction_field()
        } else {
            0x80_0000 + self.fraction_field()
        }
    }

    /// The binary exponent of the lowest significand bit, counted from 2^-149.
    pub open spec fn shift(self) -> nat {
        if self.exponent_field() == 0 {
            0
        } else {
            (self.exponent_field() - 1) as nat
        }
    }

    /// The absolute value in units of 2^-149. An infinity counts as 2^277.
    pub open spec fn magnitude(self) -> nat {
        self.significand() * pow2(self.shift())
    }

    /// The value in units of 2^-149. Meaningful for every pattern but a NaN.
    pub open spec fn ticks(self) -> int {
        if self.negative() {
            -(self.magnitude() as int)
        } else {
            self.magnitude() as int
        }
    }

    /// IEEE `<=`: false when either side is a NaN.
    pub open spec fn le_spec(self, other: Binary32) -> bool {
        !self.nan() && !other.nan() && self.ticks() <= other.ticks()
    }

    /// IEEE `<`: false when either side is a NaN.
    pub open spec fn lt_spec(self, other: Binary32) -> bool {
        !self.nan() && !other.nan() && self.ticks() < other.ticks()
    }

    /// IEEE `==`: false when either side is a NaN, true for the two zeros.
    pub open spec fn eq_spec(self, other: Binary32) -> bool {
        !self.nan() && !other.nan() && self.ticks() == other.ticks()
    }

    /// The number lies between the numbers with the bit patterns `low` and
    /// `high`, both included.
    pub open spec fn within(self, low: u32, high: u32) -> bool {
        (Binary32 { bits: low }).le_spec(self) && self.le_spec(Binary32 { bits: high })
    }

    /// The number lies between the numbers with the bit patterns `low` and
    /// `high`, neither included.
    pub open spec fn strictly_within(self, low: u32, high: u32) -> bool {
        (Binary32 { bits: low }).lt_spec(self) && self.lt_spec(Binary32 { bits: high })
    }

    /// The number with the given bit pattern.
    pub fn from_bits(bits: u32) -> (r: Binary32)
        ensures
            r.bits == bits,
    {
        Binary32 { bits }
    }

    /// The bit pattern of the number.
    pub fn to_bits(&self) -> (r: u32)
        ensures
            r == self.bits,
    {
        self.bits
    }

    /// The biased exponent and the fraction of the pattern.
    pub(crate) fn fields(&self) -> (r: (u32, u32))
        ensures
            r.0 == self.exponent_field(),
            r.1 == self.fraction_field(),
            r.0 < 256,
            r.1 < 0x80_0000,
    {
        let bits = self.bits;
        let e: u32 = (bits / 0x80_0000) % 256;
        let f: u32 = bits % 0x80_0000;
        (e, f)
    }

    /// Whether the pattern is a NaN.
    pub fn is_nan(&self) -> (r: bool)
        ensures
            r == self.nan(),
    {
        let (e, f) = self.fields();
        e == 255 && f != 0
    }

    /// Whether the pattern is a finite number.
    pub fn is_finite(&self) -> (r: bool)
        ensures
            r == self.finite(),
    {
        let (e, _f) = self.fields();
        e < 255
    }

    /// Whether the sign bit is set.
    pub fn is_sign_negative(&self) -> (r: bool)
        ensures
            r == self.negative(),
    {
        self.bits >= 0x8000_0000
    }

    /// The integer significand and the shift of the pattern.
    pub fn unpack(&self) -> (r: (u32, u32))
        ensures
            r.0 == self.significand(),
            r.1 == self.shift(),
            r.0 < 0x100_0000,
            r.1 < 255,
            self.exponent_field() != 0 ==> r.0 >= 0x80_0000,
    {
        let (e, f) = self.fields();
        if e == 0 {
            (f, 0)
        } else {
            (0x80_0000 + f, e - 1)
        }
    }

    /// The pattern without its sign bit.
    fn abs_bits(&self) -> (r: u32)
        ensures
            r == self.bits % 0x8000_0000,
            r == self.exponent_field() * 0x80_0000 + self.fraction_field(),
    {
        self.bits % 0x8000_0000
    }

    /// IEEE `<=`.
    pub fn le(&self, other: &Binary32) -> (r: bool)
        ensures
            r == self.le_spec(*other),
    {
        if self.is_nan() || other.is_nan() {
            return false;
        }
        let a: u32 = self.abs_bits();
        let b: u32 = other.abs_bits();
        proof {
            lemma_magnitude_order(*self, *other);
            lemma_magnitude_order(*other, *self);
        }
        if self.is_sign_negative() {
            if other.is_sign_negative() {
                a >= b
            } else {
                true
            }
        } else {
            if other.is_sign_negative() {
                a == 0 && b == 0
            } else {
                a <= b
            }
        }
    }

    /// IEEE `<`.
    pub fn lt(&self, other: &Binary32) -> (r: bool)
        ensures
            r == self.lt_spec(*other),
    {
        if self.is_nan() || other.is_nan() {
            return false;
        }
        !other.le(self)
    }

    /// Whether the number lies between the numbers with the bit patterns
    /// `low` and `high`, both included.
    pub fn is_within(&self, low: u32, high: u32) -> (r: bool)
        ensures
            r == self.within(low, high),
    {
        let lo = Binary32 { bits: low };
        let hi = Binary32 { bits: high };
        lo.le(self) && self.le(&hi)
    }

    /// Whether the number lies between the numbers with the bit patterns
    /// `low` and `high`, neither included.
    pub fn is_strictly_within(&self, low: u32, high: u32) -> (r: bool)
        ensures
            r == self.strictly_within(low, high),
    {
        let lo = Binary32 { bits: low };
        let hi = Binary32 { bits: high };
        lo.lt(self) && self.lt(&hi)
    }

    /// IEEE `==`.
    pub fn eq_value(&self, other: &Binary32) -> (r: bool)
        ensures
            r == self.eq_spec(*other),
    {
        self.le(other) && other.le(self)
    }
}

/// The magnitude of a pattern with biased exponent `e` and fraction `f`.
pub open spec fn magnitude_of(e: nat, f: nat) -> nat {
    if e == 0 {
        f * pow2(0)
    } else {
        (0x80_0000 + f) * pow2((e - 1) as nat)
    }
}

proof fn lemma_magnitude_of_order(ea: nat, fa: nat, eb: nat, fb: nat)
    requires
        fa < 0x80_0000,
        fb < 0x80_0000,
        ea * 0x80_0000 + fa < eb * 0x80_0000 + fb,
    ensures
        magnitude_of(ea, fa) < magnitude_of(eb, fb),
{
    lemma2_to64();
    if ea == eb {
        if ea == 0 {
            assert(fa * 1 < fb * 1);
        } else {
            let p = pow2((ea - 1) as nat);
            lemma_pow2_pos((ea - 1) as nat);
            assert((0x80_0000 + fa) * p < (0x80_0000 + fb) * p) by (nonlinear_arith)
                requires
                    fa < fb,
                    p > 0,
            ;
        }
    } else {
        assert(ea < eb);
        let pb = pow2((eb - 1) as nat);
        lemma_pow2_pos((eb - 1) as nat);
        assert((0x80_0000 + fb) * pb >= 0x80_0000 * pb) by (nonlinear_arith)
            requires
                fb >= 0,
                pb > 0,
        ;
        if ea == 0 {
            assert(fa * 1 < 0x80_0000);
            assert(0x80_0000 * pb >= 0x80_0000) by (nonlinear_arith)
                requires
                    pb > 0,
            ;
        } else {
            let pa = pow2((ea - 1) as nat);
            lemma_pow2_pos((ea - 1) as nat);
            assert(pb >= 2 * pa) by {
                lemma_pow2_unfold(ea);
                if eb - 1 > ea {
                    lemma_pow2_strictly_increases(ea, (eb - 1) as nat);
                }
            }
            assert((0x80_0000 + fa) * pa < 0x100_0000 * pa) by (nonlinear_arith)
                requires
                    fa < 0x80_0000,
                    pa > 0,
            ;
            assert(0x80_0000 * pb >= 0x100_0000 * pa) by (nonlinear_arith)
                requires
                    pb >= 2 * pa,
            ;
        }
    }
}

/// The magnitude grows strictly with the pattern below the sign bit.
pub proof fn lemma_magnitude_order(a: Binary32, b: Binary32)
    ensures
        a.bits % 0x8000_0000 < b.bits % 0x8000_0000 ==> a.magnitude() < b.magnitude(),
        a.bits % 0x8000_0000 == b.bits % 0x8000_0000 ==> a.magnitude() == b.magnitude(),
        a.bits % 0x8000_0000 == 0 <==> a.magnitude() == 0,
{
    let ea = a.exponent_field();
    let eb = b.exponent_field();
    let fa = a.fraction_field();
    let fb = b.fraction_field();
    assert(a.magnitude() == magnitude_of(ea, fa));
    assert(b.magnitude() == magnitude_of(eb, fb));
    assert(a.bits % 0x8000_0000 == ea * 0x80_0000 + fa);
    assert(b.bits % 0x8000_0000 == eb * 0x80_0000 + fb);
    if a.bits % 0x8000_0000 < b.bits % 0x8000_0000 {
        lemma_magnitude_of_order(ea, fa, eb, fb);
    }
    if a.bits % 0x8000_0000 == 0 {
        lemma2_to64();
        assert(magnitude_of(0, 0) == 0);
    } else {
        lemma2_to64();
        assert(magnitude_of(0, 0) == 0);
        lemma_magnitude_of_order(0, 0, ea, fa);
    }
}

/// A number between two positive finite numbers has its bit pattern between
/// theirs.
pub proof fn lemma_within_bits(f: Binary32, low: u32, high: u32)
    requires
        0 < low <= high < 0x7f80_0000,
        f.within(low, high) || f.strictly_within(low, high),
    ensures
        low <= f.bits <= high,
        f.strictly_within(low, high) ==> low < f.bits < high,
        f.positive_number(),
        f.finite(),
        f.ticks() == f.magnitude(),
{
    let lo = Binary32 { bits: low };
    let hi = Binary32 { bits: high };
    lemma_magnitude_order(lo, f);
    lemma_magnitude_order(f, lo);
    lemma_magnitude_order(hi, f);
    lemma_magnitude_order(f, hi);
    assert(lo.bits % 0x8000_0000 == low);
    assert(hi.bits % 0x8000_0000 == high);
    assert(lo.magnitude() > 0);
    assert(!f.negative());
    assert(f.bits % 0x8000_0000 == f.bits);
}

/// Two numbers that are not negative and have the same tick count have the
/// same bit pattern.
pub proof fn lemma_ticks_injective(a: Binary32, b: Binary32)
    requires
        a.positive_number(),
        b.positive_number(),
        a.ticks() == b.ticks(),
    ensures
        a.bits == b.bits,
{
    lemma_magnitude_order(a, b);
    lemma_magnitude_order(b, a);
    assert(a.bits % 0x8000_0000 == a.bits);
    assert(b.bits % 0x8000_0000 == b.bits);
}

} // verus!
