//! The frequency deviation of the frequency shift keying modulations.
//!
//! The radio derives the deviation from a mantissa and an exponent of three
//! bits each, so sixty-four deviations exist and the register pair for a
//! deviation is found by trying them in turn.
use vstd::prelude::*;
use vstd::arithmetic::power2::*;

use crate::binary32::{infinity_in_ticks, one_in_ticks, Binary32};
use crate::arith::lemma_infinite_at_infinity;
use crate::nearest::{product_ticks, quotient_ticks};
use crate::config::baud_rate::{
    crystal_hz, kilo_ticks, power_of_two, power_of_two_ticks, round6, thousand,
};
use crate::nearest::{lemma_nearest_exact, lemma_nearest_scale};
use crate::config::deviation_values::lemma_deviations_distinct;
use crate::config::{CommonConfig, CommonFields};
use crate::{CC1101Error, ConfigError};

verus! {

/// The tick count of the deviation in Hz of a mantissa and an exponent: the
/// crystal frequency in Hz over 2^17, times `mantissa + 8`, times
/// 2^exponent. Every step is a binary32 operation.
pub open spec fn deviation_hertz_ticks(mantissa: u8, exponent: u8) -> nat {
    let one = one_in_ticks();
    let unit = quotient_ticks(26_000_000 * one, 0x2_0000 * one);
    let steps = product_ticks(unit, (mantissa + 8) as nat * one);
    product_ticks(steps, power_of_two_ticks(exponent))
}

/// The tick count of the deviation in kHz of a mantissa and an exponent: the
/// deviation in Hz over a thousand, rounded to six decimal places.
pub open spec fn deviation_ticks(mantissa: u8, exponent: u8) -> nat {
    kilo_ticks(deviation_hertz_ticks(mantissa, exponent))
}

/// The deviation in kHz equals that of the mantissa and the exponent.
pub open spec fn deviation_matches(deviation: Binary32, mantissa: u8, exponent: u8) -> bool {
    !deviation.nan() && deviation.ticks() == deviation_ticks(mantissa, exponent)
}

/// No register pair that the search visits before `(mantissa, exponent)`
/// gives the deviation. The search runs through the mantissas 0 to 7 and for
/// each of them through the exponents 0 to 7.
pub open spec fn no_deviation_before(deviation: Binary32, mantissa: u8, exponent: u8) -> bool {
    forall|m: u8, e: u8|
        m < 8 && e < 8 && (m < mantissa || (m == mantissa && e < exponent))
            ==> !#[trigger] deviation_matches(deviation, m, e)
}

/// `(mantissa, exponent)` is the first register pair of the search that gives
/// the deviation.
pub open spec fn deviation_registers(deviation: Binary32, mantissa: u8, exponent: u8) -> bool {
    &&& mantissa < 8
    &&& exponent < 8
    &&& deviation_matches(deviation, mantissa, exponent)
    &&& no_deviation_before(deviation, mantissa, exponent)
}

/// No register pair but `(mantissa, exponent)` gives the deviation.
pub open spec fn only_deviation_registers(
    deviation: Binary32,
    mantissa: u8,
    exponent: u8,
) -> bool {
    forall|m: u8, e: u8|
        m < 8 && e < 8 && #[trigger] deviation_matches(deviation, m, e) ==> m == mantissa && e
            == exponent
}

/// The deviation is one of the sixty-four that the radio offers.
pub open spec fn valid_deviation(deviation: Binary32) -> bool {
    exists|m: u8, e: u8| m < 8 && e < 8 && #[trigger] deviation_matches(deviation, m, e)
}

impl CommonConfig {
    /// Convert a deviation configuration value to kHz
    ///
    /// Uses the formula from section 16.1 of the datasheet
    pub fn config_to_deviation(mantissa: u8, exponent: u8) -> (r: Binary32)
        ensures
            r.positive_number(),
            r.ticks() == deviation_ticks(mantissa, exponent),
    {
        let divisor = Binary32::exact(0x80_0000, 143);
        proof {
            lemma2_to64();
            lemma_pow2_adds(23, 143);
            lemma_pow2_adds(17, 149);
            lemma_infinite_at_infinity(divisor);
            assert(divisor.magnitude() == 0x2_0000 * one_in_ticks());
        }
        let unit = crystal_hz().div(&divisor);
        let count = Binary32::from_u32(mantissa as u32 + 8);
        let steps = unit.mul(&count);
        let scale = power_of_two(exponent);
        let hertz = steps.mul(&scale);
        let kilo = hertz.div(&thousand());
        round6(&kilo)
    }

    /// Convert a deviation in kHz to a configuration value
    pub fn deviation_to_config(deviation: Binary32) -> (r: Result<(u8, u8), CC1101Error>)
        ensures
            match r {
                Ok((mantissa, exponent)) => deviation_registers(deviation, mantissa, exponent)
                    && only_deviation_registers(deviation, mantissa, exponent),
                Err(e) => e == CC1101Error::Config(ConfigError::InvalidDeviation)
                    && !valid_deviation(deviation),
            },
    {
        let mut mantissa: u8 = 0;
        while mantissa < 8
            invariant
                mantissa <= 8,
                no_deviation_before(deviation, mantissa, 0),
            decreases 8 - mantissa,
        {
            let mut exponent: u8 = 0;
            while exponent < 8
                invariant
                    mantissa < 8,
                    exponent <= 8,
                    no_deviation_before(deviation, mantissa, exponent),
                decreases 8 - exponent,
            {
                let candidate = CommonConfig::config_to_deviation(mantissa, exponent);
                if candidate.eq_value(&deviation) {
                    proof {
                        assert forall|m: u8, e: u8|
                            m < 8 && e < 8 && #[trigger] deviation_matches(
                                deviation,
                                m,
                                e,
                            ) implies m == mantissa && e == exponent by {
                            lemma_deviations_distinct(m, e, mantissa, exponent);
                        }
                    }
                    return Ok((mantissa, exponent));
                }
                exponent += 1;
            }
            mantissa += 1;
        }
        Err(CC1101Error::Config(ConfigError::InvalidDeviation))
    }

    /// Set the frequency deviation in kHz
    pub fn set_deviation(&mut self, deviation: Binary32) -> (r: Result<(), CC1101Error>)
        ensures
            old(self)@.well_formed() ==> final(self)@.well_formed(),
            valid_deviation(deviation) ==> r == Ok::<(), CC1101Error>(()) && deviation_registers(
                deviation,
                final(self)@.deviation_mantissa,
                final(self)@.deviation_exponent,
            ) && only_deviation_registers(
                deviation,
                final(self)@.deviation_mantissa,
                final(self)@.deviation_exponent,
            ) && final(self)@ == (CommonFields {
                deviation_mantissa: final(self)@.deviation_mantissa,
                deviation_exponent: final(self)@.deviation_exponent,
                ..old(self)@
            }),
            !valid_deviation(deviation) ==> r == Err::<(), CC1101Error>(
                CC1101Error::Config(ConfigError::InvalidDeviation),
            ) && *final(self) == *old(self),
    {
        match CommonConfig::deviation_to_config(deviation) {
            Ok((mantissa, exponent)) => {
                self.deviation_mantissa = mantissa;
                self.deviation_exponent = exponent;
                Ok(())
            },
            Err(e) => Err(e),
        }
    }

    /// Get the frequency deviation in kHz
    pub fn get_deviation(&self) -> (r: Binary32)
        ensures
            r.positive_number(),
            r.ticks() == deviation_ticks(self@.deviation_mantissa, self@.deviation_exponent),
    {
        CommonConfig::config_to_deviation(self.deviation_mantissa, self.deviation_exponent)
    }
}

/// Each of the sixty-four deviations of the radio is valid, the registers
/// that are found for it are its own, and they give it back exactly.
pub proof fn lemma_deviation_round_trip(
    mantissa: u8,
    exponent: u8,
    deviation: Binary32,
    found_mantissa: u8,
    found_exponent: u8,
    back: Binary32,
)
    requires
        mantissa < 8,
        exponent < 8,
        deviation.positive_number(),
        deviation.ticks() == deviation_ticks(mantissa, exponent),
        deviation_registers(deviation, found_mantissa, found_exponent),
        back.positive_number(),
        back.ticks() == deviation_ticks(found_mantissa, found_exponent),
    ensures
        valid_deviation(deviation),
        found_mantissa == mantissa,
        found_exponent == exponent,
        back.bits == deviation.bits,
{
    assert(deviation_matches(deviation, mantissa, exponent));
    lemma_deviations_distinct(mantissa, exponent, found_mantissa, found_exponent);
    crate::binary32::lemma_ticks_injective(back, deviation);
}

/// A deviation that is valid has registers, and a deviation that has
/// registers is valid: the search fails on exactly the deviations that the
/// radio does not offer.
pub proof fn lemma_deviation_registers_exist(deviation: Binary32)
    ensures
        valid_deviation(deviation) <==> exists|m: u8, e: u8| #[trigger]
            deviation_registers(deviation, m, e),
{
    if valid_deviation(deviation) {
        let (m, e) = choose|m: u8, e: u8|
            m < 8 && e < 8 && #[trigger] deviation_matches(deviation, m, e);
        lemma_first_deviation(deviation, m, e, 0, 0);
    }
    if exists|m: u8, e: u8| #[trigger] deviation_registers(deviation, m, e) {
        let (m, e) = choose|m: u8, e: u8| #[trigger] deviation_registers(deviation, m, e);
        assert(deviation_matches(deviation, m, e));
    }
}

/// If a register pair at or after `(from_m, from_e)` gives the deviation and
/// none before `(from_m, from_e)` does, a first pair exists.
proof fn lemma_first_deviation(deviation: Binary32, m: u8, e: u8, from_m: u8, from_e: u8)
    requires
        m < 8,
        e < 8,
        from_m < 8,
        from_e < 8,
        deviation_matches(deviation, m, e),
        from_m < m || (from_m == m && from_e <= e),
        no_deviation_before(deviation, from_m, from_e),
    ensures
        exists|fm: u8, fe: u8| #[trigger] deviation_registers(deviation, fm, fe),
    decreases (8 - from_m) * 8 - from_e,
{
    if deviation_matches(deviation, from_m, from_e) {
        assert(deviation_registers(deviation, from_m, from_e));
    } else if from_e < 7 {
        lemma_first_deviation(deviation, m, e, from_m, (from_e + 1) as u8);
    } else {
        lemma_first_deviation(deviation, m, e, (from_m + 1) as u8, 0);
    }
}

/// The deviation in Hz of a mantissa and an exponent of three bits each is
/// exact: the crystal frequency over 2^17, which is 203125 over 2^10 Hz,
/// times `mantissa + 8`, times 2^exponent.
pub proof fn lemma_deviation_hertz(mantissa: u8, exponent: u8)
    requires
        mantissa < 8,
        exponent < 8,
    ensures
        deviation_hertz_ticks(mantissa, exponent) == 203125 * (mantissa + 8) * pow2(
            139 + exponent as nat,
        ),
{
    let one = one_in_ticks();
    let inf = infinity_in_ticks();
    let e = exponent as nat;
    let k = (203125 * (mantissa + 8)) as nat;
    lemma2_to64();
    lemma_pow2_pos(149);
    lemma_pow2_pos(139);
    lemma_pow2_pos(139 + e);
    lemma_pow2_adds(7, 149);
    lemma_pow2_adds(17, 139);
    lemma_pow2_adds(10, 139);
    lemma_pow2_adds(24, 139);
    lemma_pow2_adds(24, 149);
    lemma_pow2_adds(24, 139 + e);
    lemma_pow2_adds(139, e);
    lemma_pow2_adds(e, 149);
    lemma_pow2_strictly_increases(163, 277);
    lemma_pow2_strictly_increases(173, 277);
    lemma_pow2_strictly_increases(163 + e, 277);
    lemma_pow2_strictly_increases(149 + e, 277);
    // The crystal frequency over 2^17 is exact.
    let unit = 203125 * pow2(139);
    assert(26_000_000 * one < pow2(24 + 149) * 2 && 26_000_000 * one < inf) by {
        assert(26_000_000 * one < 2 * (pow2(24) * one)) by (nonlinear_arith)
            requires
                26_000_000 < 2 * pow2(24),
                one > 0,
        ;
        lemma_pow2_strictly_increases(174, 277);
        lemma_pow2_unfold(174);
    }
    assert(26_000_000 * one == unit * 0x2_0000) by (nonlinear_arith)
        requires
            unit == 203125 * pow2(139),
            one == 0x400 * pow2(139),
    ;
    assert((26_000_000 * one) * one == (unit * 0x2_0000) * one);
    lemma_nearest_scale(unit * 0x2_0000, 0x2_0000, one);
    lemma_nearest_exact(203125, 139, 0x2_0000);
    assert(unit < pow2(24) * pow2(139)) by (nonlinear_arith)
        requires
            unit == 203125 * pow2(139),
            203125 < pow2(24),
            pow2(139) > 0,
    ;
    assert(quotient_ticks(26_000_000 * one, 0x2_0000 * one) == unit);
    // The product with the count is exact.
    let count = (mantissa + 8) as nat;
    let steps = k * pow2(139);
    assert(count * one < pow2(24) * one) by (nonlinear_arith)
        requires
            count < pow2(24),
            one > 0,
    ;
    assert(unit * (count * one) == steps * one) by (nonlinear_arith)
        requires
            unit == 203125 * pow2(139),
            steps == k * pow2(139),
            k == 203125 * count,
    ;
    lemma_nearest_scale(steps, 1, one);
    assert(1 * one == one);
    lemma_nearest_exact(k, 139, 1);
    assert(k * pow2(139) * 1 == steps) by (nonlinear_arith)
        requires
            steps == k * pow2(139),
    ;
    assert(steps < pow2(24) * pow2(139)) by (nonlinear_arith)
        requires
            steps == k * pow2(139),
            k < pow2(24),
            pow2(139) > 0,
    ;
    assert(product_ticks(unit, count * one) == steps);
    // The product with the power of two is exact.
    let power = pow2(149 + e);
    assert(power_of_two_ticks(exponent) == power);
    let hertz = k * pow2(139 + e);
    assert(steps * power == hertz * one) by (nonlinear_arith)
        requires
            steps == k * pow2(139),
            power == pow2(e) * one,
            hertz == k * pow2(139 + e),
            pow2(139 + e) == pow2(139) * pow2(e),
    ;
    lemma_nearest_scale(hertz, 1, one);
    lemma_nearest_exact(k, 139 + e, 1);
    assert(k * pow2(139 + e) * 1 == hertz) by (nonlinear_arith)
        requires
            hertz == k * pow2(139 + e),
    ;
    assert(hertz < pow2(24) * pow2(139 + e)) by (nonlinear_arith)
        requires
            hertz == k * pow2(139 + e),
            k < pow2(24),
            pow2(139 + e) > 0,
    ;
    assert(product_ticks(steps, power) == hertz);
    assert(203125 * (mantissa + 8) * pow2(139 + e) == hertz) by (nonlinear_arith)
        requires
            hertz == k * pow2(139 + e),
            k == 203125 * (mantissa + 8),
    ;
}

} // verus!
