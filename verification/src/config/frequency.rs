//! The carrier frequency.
//!
//! The radio holds the frequency as a multiple of the crystal frequency over
//! 2^16, about 397 Hz. Three bands are legal.
use vstd::prelude::*;
use vstd::arithmetic::power2::*;
use vstd::arithmetic::div_mod::*;

use crate::binary32::{infinity_in_ticks, lemma_within_bits, one_in_ticks, Binary32};
use crate::arith::{integer_ticks, lemma_infinite_at_infinity};
use crate::nearest::{
    excess_bits, lemma_nearest_exact, lemma_nearest_scale, lemma_nearest_split, nearest,
    product_ticks, saturate,
};
use crate::config::{CommonConfig, CommonFields};
use crate::{CC1101Error, ConfigError};

verus! {

/// The frequency of the crystal oscillator in MHz.
pub const CRYSTAL_MHZ: u32 = 26;

/// The lowest frequency of the band around 315 MHz: 299.99976 MHz.
pub const BAND_315_LOW: u32 = 0x4395_fff8;

/// The highest frequency of the band around 315 MHz: 347.99994 MHz.
pub const BAND_315_HIGH: u32 = 0x43ad_fffe;

/// The lowest frequency of the band around 433 MHz: 386.99994 MHz.
pub const BAND_433_LOW: u32 = 0x43c1_7ffe;

/// The highest frequency of the band around 433 MHz: 463.9998 MHz.
pub const BAND_433_HIGH: u32 = 0x43e7_fff9;

/// The lowest frequency of the band around 868 MHz: 778.9999 MHz.
pub const BAND_868_LOW: u32 = 0x4442_bffe;

/// The highest frequency of the band around 868 MHz: 928 MHz.
pub const BAND_868_HIGH: u32 = 0x4468_0000;

/// The frequency in MHz lies in one of the three legal bands.
pub open spec fn frequency_in_band(frequency: Binary32) -> bool {
    ||| frequency.within(BAND_315_LOW, BAND_315_HIGH)
    ||| frequency.within(BAND_433_LOW, BAND_433_HIGH)
    ||| frequency.within(BAND_868_LOW, BAND_868_HIGH)
}

/// The frequency word of a frequency in MHz: the frequency times 2^16 over
/// the crystal frequency, rounded down.
pub open spec fn frequency_word(frequency: Binary32) -> int {
    (frequency.ticks() * 0x1_0000) / (CRYSTAL_MHZ * one_in_ticks())
}

/// The frequency words of the three legal bands.
pub open spec fn valid_frequency_word(word: int) -> bool {
    ||| 0x0B_89D8 <= word <= 0x0D_6276
    ||| 0x0E_E276 <= word <= 0x11_D89D
    ||| 0x1D_F627 <= word <= 0x23_B13B
}

/// The tick count of the crystal frequency over 2^16 in MHz: 13 * 2^-15.
pub open spec fn frequency_step_ticks() -> nat {
    13 * pow2(134)
}

/// The tick count of the frequency in MHz that a frequency word stands for:
/// the word as a binary32 number, times the crystal frequency over 2^16.
pub open spec fn frequency_ticks(word: u32) -> nat {
    product_ticks(frequency_step_ticks(), integer_ticks(word as nat))
}

impl CommonConfig {
    /// Convert a frequency in MHz to a configuration value
    /// Uses the formula from section 21 of the CC1101 datasheet
    pub fn frequency_to_config(frequency: Binary32) -> (r: Result<u32, CC1101Error>)
        ensures
            frequency_in_band(frequency) ==> r == Ok::<u32, CC1101Error>(
                frequency_word(frequency) as u32,
            ) && valid_frequency_word(frequency_word(frequency)),
            !frequency_in_band(frequency) ==> r == Err::<u32, CC1101Error>(
                CC1101Error::Config(ConfigError::InvalidFrequency),
            ),
    {
        if !(frequency.is_within(BAND_315_LOW, BAND_315_HIGH) || frequency.is_within(
            BAND_433_LOW,
            BAND_433_HIGH,
        ) || frequency.is_within(BAND_868_LOW, BAND_868_HIGH)) {
            return Err(CC1101Error::Config(ConfigError::InvalidFrequency));
        }
        proof {
            lemma_frequency_word(frequency);
        }
        let (sig, shift) = frequency.unpack();
        let word: u64 = if shift == 134 {
            (sig as u64) / 13
        } else {
            (2 * (sig as u64)) / 13
        };
        Ok(word as u32)
    }

    /// Convert a configuration value to a frequency in MHz
    /// Uses the formula from section 21 of the CC1101 datasheet
    pub fn config_to_frequency(config: u32) -> (r: Binary32)
        ensures
            r.positive_number(),
            r.ticks() == frequency_ticks(config),
    {
        let step = Binary32::exact(0xD0_0000, 114);
        let word = Binary32::from_u32(config);
        proof {
            lemma2_to64();
            lemma_pow2_adds(20, 114);
            assert(0xD0_0000 * pow2(114) == 13 * pow2(134)) by (nonlinear_arith)
                requires
                    pow2(134) == 0x10_0000 * pow2(114),
            ;
            crate::arith::lemma_infinite_at_infinity(step);
        }
        step.mul(&word)
    }

    /// The frequency to receive/transmit on.
    ///
    /// Valid values are 300-348, 387-464 and 779-928 MHz.
    pub fn set_frequency(&mut self, frequency: Binary32) -> (r: Result<(), CC1101Error>)
        ensures
            old(self)@.well_formed() ==> final(self)@.well_formed(),
            frequency_in_band(frequency) ==> r == Ok::<(), CC1101Error>(()) && final(self)@
                == (CommonFields { frequency: frequency_word(frequency) as u32, ..old(self)@ })
                && valid_frequency_word(frequency_word(frequency)),
            !frequency_in_band(frequency) ==> r == Err::<(), CC1101Error>(
                CC1101Error::Config(ConfigError::InvalidFrequency),
            ) && *final(self) == *old(self),
    {
        match CommonConfig::frequency_to_config(frequency) {
            Ok(word) => {
                self.frequency = word;
                Ok(())
            },
            Err(e) => Err(e),
        }
    }

    /// Get the current receive/transmit frequency
    pub fn get_frequency(&self) -> (r: Binary32)
        ensures
            r.positive_number(),
            r.ticks() == frequency_ticks(self@.frequency),
    {
        CommonConfig::config_to_frequency(self.frequency)
    }
}

/// The legal bands in units of 2^-15 MHz: from 9830392 to 11403262, from
/// 12681214 to 15204345 and from 25526268 to 30408704.
pub proof fn lemma_frequency_in_band(frequency: Binary32)
    ensures
        frequency_in_band(frequency) <==> !frequency.nan() && ({
            let unit = pow2(134) as int;
            ||| 9830392 * unit <= frequency.ticks() <= 11403262 * unit
            ||| 12681214 * unit <= frequency.ticks() <= 15204345 * unit
            ||| 25526268 * unit <= frequency.ticks() <= 30408704 * unit
        }),
{
    lemma_pow2_adds(1, 134);
    lemma2_to64();
    let unit = pow2(134);
    assert((Binary32 { bits: BAND_315_LOW }).ticks() == 9830392 * unit);
    assert((Binary32 { bits: BAND_315_HIGH }).ticks() == 11403262 * unit);
    assert((Binary32 { bits: BAND_433_LOW }).ticks() == 12681214 * unit);
    assert((Binary32 { bits: BAND_433_HIGH }).ticks() == 15204345 * unit);
    assert((Binary32 { bits: BAND_868_LOW }).ticks() == 25526268 * unit) by {
        assert((Binary32 { bits: BAND_868_LOW }).significand() == 12763134);
        assert(12763134 * (2 * unit) == 25526268 * unit) by (nonlinear_arith);
    }
    assert((Binary32 { bits: BAND_868_HIGH }).ticks() == 30408704 * unit) by {
        assert((Binary32 { bits: BAND_868_HIGH }).significand() == 15204352);
        assert(15204352 * (2 * unit) == 30408704 * unit) by (nonlinear_arith);
    }
}

/// The frequency word of a frequency of a legal band, by the significand of
/// the frequency: a thirteenth of it in the two lower bands, two thirteenths
/// in the upper one.
pub proof fn lemma_frequency_word(frequency: Binary32)
    requires
        frequency_in_band(frequency),
    ensures
        frequency.positive_number(),
        frequency.finite(),
        frequency.shift() == 134 || frequency.shift() == 135,
        frequency.shift() == 134 ==> frequency_word(frequency) == frequency.significand() / 13,
        frequency.shift() == 135 ==> frequency_word(frequency) == (2 * frequency.significand())
            / 13,
        valid_frequency_word(frequency_word(frequency)),
{
    if frequency.within(BAND_315_LOW, BAND_315_HIGH) {
        lemma_within_bits(frequency, BAND_315_LOW, BAND_315_HIGH);
    } else if frequency.within(BAND_433_LOW, BAND_433_HIGH) {
        lemma_within_bits(frequency, BAND_433_LOW, BAND_433_HIGH);
    } else {
        lemma_within_bits(frequency, BAND_868_LOW, BAND_868_HIGH);
    }
    let sig = frequency.significand();
    let shift = frequency.shift();
    assert(shift == 134 || shift == 135);
    let doubled: int = if shift == 134 {
        2 * (sig as int)
    } else {
        4 * (sig as int)
    };
    lemma2_to64();
    let one = one_in_ticks();
    lemma_pow2_pos(149);
    lemma_pow2_adds(134, 16);
    lemma_pow2_adds(135, 16);
    lemma_pow2_adds(1, 149);
    lemma_pow2_adds(2, 149);
    assert(frequency.ticks() * 0x1_0000 == doubled * one) by (nonlinear_arith)
        requires
            frequency.ticks() == sig * pow2(shift),
            shift == 134 ==> doubled == 2 * sig && pow2(134) * 0x1_0000 == 2 * one,
            shift == 135 ==> doubled == 4 * sig && pow2(135) * 0x1_0000 == 4 * one,
            shift == 134 || shift == 135,
    ;
    lemma_div_multiples_vanish_quotient(one as int, doubled, 26);
    assert(one * doubled == doubled * one) by (nonlinear_arith);
    assert(one * 26 == 26 * one) by (nonlinear_arith);
    assert(frequency_word(frequency) == doubled / 26);
    lemma_div_multiples_vanish_quotient(2, sig as int, 13);
    lemma_div_multiples_vanish_quotient(2, 2 * (sig as int), 13);
}

/// The tick count of the frequency of a frequency word of twenty-four bits:
/// thirteen times the word in units of 2^-15 MHz, rounded to a significand of
/// twenty-four bits where it has twenty-five.
pub proof fn lemma_frequency_of_word(word: u32)
    requires
        word < 0x24_0000,
    ensures
        13 * word < 0x100_0000 ==> frequency_ticks(word) == 13 * word * pow2(134),
        13 * word >= 0x100_0000 ==> frequency_ticks(word) == pow2(135) * if (13 * word) % 2 == 1
            && ((13 * word) / 2) % 2 == 1 {
            (13 * word) / 2 + 1
        } else {
            (13 * word) / 2
        },
        frequency_ticks(word) < infinity_in_ticks(),
{
    let one = one_in_ticks();
    let q = (13 * word) as nat;
    lemma2_to64();
    lemma_pow2_pos(149);
    lemma_pow2_pos(134);
    lemma_pow2_adds(24, 149);
    lemma_pow2_adds(4, 134);
    lemma_pow2_adds(26, 135);
    lemma_pow2_adds(1, 134);
    lemma_pow2_strictly_increases(173, 277);
    lemma_pow2_strictly_increases(161, 277);
    lemma_pow2_strictly_increases(138, 277);
    // The word converts exactly.
    lemma_nearest_exact(word as nat, 149, 1);
    assert(word as nat * pow2(149) * 1 == word as nat * one) by (nonlinear_arith)
        requires
            one == pow2(149),
    ;
    assert(word as nat * one < pow2(24) * one) by (nonlinear_arith)
        requires
            word < pow2(24),
            one > 0,
    ;
    assert(integer_ticks(word as nat) == word as nat * one);
    // The product, without the factor of the unit.
    let step = frequency_step_ticks();
    assert(step < infinity_in_ticks()) by {
        assert(13 * pow2(134) < 16 * pow2(134));
    }
    let n = q * pow2(134);
    assert(step * (word as nat * one) == n * one) by (nonlinear_arith)
        requires
            step == 13 * pow2(134),
            q == 13 * word,
            n == q * pow2(134),
    ;
    lemma_nearest_scale(n, 1, one);
    assert(1 * one == one);
    assert(frequency_ticks(word) == saturate(nearest(n, 1)));
    if q < 0x100_0000 {
        lemma_nearest_exact(q, 134, 1);
        assert(q * pow2(134) * 1 == n) by (nonlinear_arith)
            requires
                n == q * pow2(134),
        ;
        assert(n < pow2(24) * pow2(134)) by (nonlinear_arith)
            requires
                n == q * pow2(134),
                q < pow2(24),
                pow2(134) > 0,
        ;
        lemma_pow2_adds(24, 134);
        lemma_pow2_strictly_increases(158, 277);
    } else {
        lemma_nearest_split(q, 0, 1, 134);
        assert(excess_bits(q) == 1) by {
            assert(q / 2 < 0x100_0000);
            assert(excess_bits(q / 2) == 0);
        }
        assert((q * 1 + 0) * pow2(134) == n) by (nonlinear_arith)
            requires
                n == q * pow2(134),
        ;
        let hi = q / pow2(1);
        let low = q % pow2(1);
        assert(hi == q / 2);
        assert(low == q % 2);
        assert(pow2(0) == 1);
        let t: nat = if low > 1 || (low == 1 && (0 > 0 || hi % 2 == 1)) {
            (hi + 1) as nat
        } else {
            hi
        };
        assert(nearest(n, 1) == pow2(135) * t);
        assert(pow2(135) * t < pow2(135) * pow2(26)) by (nonlinear_arith)
            requires
                t < pow2(26),
                pow2(135) > 0,
        {
            lemma_pow2_pos(135);
        }
    }
}

/// A frequency of a legal band that is encoded and decoded comes back no
/// higher than it was, and lower by less than the step of the frequency word,
/// the crystal frequency over 2^16.
pub proof fn lemma_frequency_round_trip(frequency: Binary32)
    requires
        frequency_in_band(frequency),
    ensures
        frequency.ticks() - frequency_step_ticks() < frequency_ticks(
            frequency_word(frequency) as u32,
        ) <= frequency.ticks(),
{
    lemma_frequency_word(frequency);
    let word = frequency_word(frequency) as u32;
    lemma_frequency_of_word(word);
    let sig = frequency.significand();
    let q = 13 * word;
    let p = pow2(134);
    lemma_pow2_pos(134);
    lemma_pow2_adds(1, 134);
    lemma2_to64();
    assert(pow2(135) == 2 * p);
    let back = frequency_ticks(word);
    if frequency.shift() == 134 {
        assert(q <= sig < q + 13);
        assert(back == q * p);
        assert(frequency.ticks() == sig * p);
        assert(q * p <= sig * p) by (nonlinear_arith)
            requires
                q <= sig,
                p > 0,
        ;
        assert(sig * p - 13 * p < q * p) by (nonlinear_arith)
            requires
                sig < q + 13,
                p > 0,
        ;
    } else {
        assert(q <= 2 * sig < q + 13);
        assert(frequency.ticks() == sig * (2 * p));
        if q < 0x100_0000 {
            assert(back == q * p);
            assert(q * p <= sig * (2 * p)) by (nonlinear_arith)
                requires
                    q <= 2 * sig,
                    p > 0,
            ;
            assert(sig * (2 * p) - 13 * p < q * p) by (nonlinear_arith)
                requires
                    2 * sig < q + 13,
                    p > 0,
            ;
        } else {
            let t: int = if q % 2 == 1 && (q / 2) % 2 == 1 {
                q / 2 + 1
            } else {
                q / 2
            };
            assert(back == (2 * p) * t);
            assert(t <= sig);
            assert(2 * t > 2 * sig - 13);
            assert((2 * p) * t <= sig * (2 * p)) by (nonlinear_arith)
                requires
                    t <= sig,
                    p > 0,
            ;
            assert(sig * (2 * p) - 13 * p < (2 * p) * t) by (nonlinear_arith)
                requires
                    2 * t > 2 * sig - 13,
                    p > 0,
            ;
        }
    }
}

} // verus!
