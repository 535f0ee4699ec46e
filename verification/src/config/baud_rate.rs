//! The symbol rate.
//!
//! The radio holds the rate as a mantissa of eight bits and an exponent: the
//! rate is `(256 + mantissa) * 2^exponent / 2^28` times the crystal
//! frequency. Each modulation limits the rates that it can carry.
use vstd::prelude::*;
use vstd::arithmetic::power2::*;
use vstd::arithmetic::div_mod::*;

use crate::binary32::{
    infinity_in_ticks, lemma_magnitude_order, lemma_within_bits, one_in_ticks, Binary32,
};
use crate::arith::lemma_infinite_at_infinity;
use crate::nearest::{
    lemma_nearest_exact, lemma_nearest_scale, nearest, product_ticks, quotient_ticks, round_ticks,
    saturate,
};
use crate::config::{CommonConfig, CommonFields, Modulation};
use crate::{CC1101Error, ConfigError};

verus! {

/// The lowest rate of every modulation but Minimum Shift Keying: 0.599742 kBaud.
pub const BAUD_RATE_LOW: u32 = 0x3f19_88b1;

/// The lowest rate of Minimum Shift Keying: 25.9857 kBaud.
pub const BAUD_RATE_LOW_MSK: u32 = 0x41cf_e2b7;

/// The highest rate of Gaussian Frequency Shift Keying and of On-Off Keying:
/// 250 kBaud.
pub const BAUD_RATE_HIGH_GFSK_OOK: u32 = 0x437a_0000;

/// The highest rate of Frequency Shift Keying with two frequencies: 500 kBaud.
pub const BAUD_RATE_HIGH_FSK2: u32 = 0x43fa_0000;

/// The highest rate of Frequency Shift Keying with four frequencies: 300 kBaud.
pub const BAUD_RATE_HIGH_FSK4: u32 = 0x4396_0000;

/// The highest rate of Minimum Shift Keying: 500 kBaud.
pub const BAUD_RATE_HIGH_MSK: u32 = 0x43fa_0000;

/// The modulation can carry the rate in kBaud.
pub open spec fn valid_baud_rate(modulation: Modulation, baud_rate: Binary32) -> bool {
    match modulation {
        Modulation::GFSK | Modulation::OOK => baud_rate.within(
            BAUD_RATE_LOW,
            BAUD_RATE_HIGH_GFSK_OOK,
        ),
        Modulation::FSK2 => baud_rate.within(BAUD_RATE_LOW, BAUD_RATE_HIGH_FSK2),
        Modulation::FSK4 => baud_rate.within(BAUD_RATE_LOW, BAUD_RATE_HIGH_FSK4),
        Modulation::MSK => baud_rate.within(BAUD_RATE_LOW_MSK, BAUD_RATE_HIGH_MSK),
    }
}

/// The position of the highest set bit of `n`: the whole part of its binary
/// logarithm. Zero for zero.
pub open spec fn floor_log2(n: nat) -> nat
    decreases n,
{
    if n <= 1 {
        0
    } else {
        1 + floor_log2(n / 2)
    }
}

/// The integer nearest to `n / d`, a half rounded up.
pub open spec fn round_half_up(n: nat, d: nat) -> nat
    recommends
        d > 0,
{
    (2 * n + d) / (2 * d)
}

/// The exponent of a rate in kBaud: the whole part of the binary logarithm of
/// the rate in Hz times 2^20 over the crystal frequency in Hz.
pub open spec fn baud_rate_exponent(baud_rate: Binary32) -> nat {
    floor_log2(
        ((baud_rate.magnitude() * 1000 * 0x10_0000) / (26_000_000 * one_in_ticks())) as nat,
    )
}

/// The mantissa of a rate in kBaud, before it is narrowed to eight bits: the
/// rate in Hz times 2^28 over the crystal frequency in Hz and over 2^exponent,
/// rounded, less 256.
pub open spec fn baud_rate_mantissa_wide(baud_rate: Binary32) -> int {
    round_half_up(
        baud_rate.magnitude() * 1000 * 0x1000_0000,
        26_000_000 * pow2(baud_rate_exponent(baud_rate)) * one_in_ticks(),
    ) - 256
}

/// The mantissa of a rate in kBaud: the wide mantissa, held to the range of
/// eight bits.
pub open spec fn baud_rate_mantissa(baud_rate: Binary32) -> int {
    let wide = baud_rate_mantissa_wide(baud_rate);
    if wide < 0 {
        0
    } else if wide > 255 {
        255
    } else {
        wide
    }
}

/// A number rounded to six decimal places, as binary32 arithmetic does it:
/// times a million, rounded to a whole number, over a million.
pub open spec fn round6_ticks(a: nat) -> nat {
    quotient_ticks(
        round_ticks(product_ticks(a, 1_000_000 * one_in_ticks())),
        1_000_000 * one_in_ticks(),
    )
}

/// The tick count of 2^e as binary32 arithmetic computes it: infinite from
/// 2^128 on.
pub open spec fn power_of_two_ticks(e: u8) -> nat {
    if e < 128 {
        pow2(149 + e as nat)
    } else {
        infinity_in_ticks()
    }
}

/// The tick count of the rate in Hz of a mantissa and an exponent:
/// `(256 + mantissa) * 2^exponent / 2^28` times the crystal frequency in Hz.
/// Every step is a binary32 operation.
pub open spec fn baud_rate_hertz_ticks(mantissa: u8, exponent: u8) -> nat {
    let one = one_in_ticks();
    let scaled = product_ticks(power_of_two_ticks(exponent), (256 + mantissa) as nat * one);
    let fraction = quotient_ticks(scaled, 0x1000_0000 * one);
    product_ticks(fraction, 26_000_000 * one)
}

/// The tick count of a value in thousands, rounded to six decimal places:
/// the value over a thousand, then [`round6_ticks`].
pub open spec fn kilo_ticks(value: nat) -> nat {
    round6_ticks(quotient_ticks(value, 1000 * one_in_ticks()))
}

/// The tick count of the rate in kBaud of a mantissa and an exponent: the
/// rate in Hz over a thousand, rounded to six decimal places.
pub open spec fn baud_rate_ticks(mantissa: u8, exponent: u8) -> nat {
    kilo_ticks(baud_rate_hertz_ticks(mantissa, exponent))
}

/// The whole part of the binary logarithm of a machine integer.
fn log2_floor(n: u64) -> (r: u32)
    ensures
        r == floor_log2(n as nat),
        r < 64,
        n >= 1 ==> pow2(r as nat) <= n < 2 * pow2(r as nat),
{
    let mut t: u64 = n;
    let mut e: u32 = 0;
    proof {
        lemma2_to64();
    }
    while t >= 2
        invariant
            floor_log2(n as nat) == e + floor_log2(t as nat),
            e < 64,
            t as nat * pow2(e as nat) <= n,
            n < (t as nat + 1) * pow2(e as nat),
            n >= 1 ==> t >= 1,
        decreases t,
    {
        proof {
            lemma_pow2_unfold((e + 1) as nat);
            lemma_pow2_pos(e as nat);
            let p = pow2(e as nat);
            assert((t / 2) as nat * (2 * p) <= t as nat * p) by (nonlinear_arith)
                requires
                    2 * (t / 2) <= t,
                    p > 0,
            ;
            assert((t as nat + 1) * p <= ((t / 2) as nat + 1) * (2 * p)) by (nonlinear_arith)
                requires
                    t + 1 <= 2 * (t / 2) + 2,
                    p > 0,
            ;
            assert(t as nat * p >= 2 * p) by (nonlinear_arith)
                requires
                    t >= 2,
                    p > 0,
            ;
            if e + 1 >= 64 {
                lemma2_to64();
                if e + 1 > 64 {
                    lemma_pow2_strictly_increases(64, (e + 1) as nat);
                }
                assert(false);
            }
        }
        t = t / 2;
        e = e + 1;
    }
    proof {
        if n >= 1 {
            assert(t == 1);
            assert(1 * pow2(e as nat) == pow2(e as nat));
            assert((1 + 1) * pow2(e as nat) == 2 * pow2(e as nat)) by (nonlinear_arith);
        }
    }
    e
}

/// A million as a binary32 number.
pub(crate) fn million() -> (r: Binary32)
    ensures
        r.positive_number(),
        r.finite(),
        r.normal(),
        r.shift() == 145,
        r.magnitude() == 1_000_000 * one_in_ticks(),
{
    let r = Binary32::exact(0xF4_2400, 145);
    proof {
        lemma2_to64();
        lemma_pow2_adds(4, 145);
        assert(0xF4_2400 * pow2(145) == 1_000_000 * pow2(149)) by (nonlinear_arith)
            requires
                pow2(149) == 16 * pow2(145),
        ;
        lemma_infinite_at_infinity(r);
    }
    r
}

/// A thousand as a binary32 number.
pub(crate) fn thousand() -> (r: Binary32)
    ensures
        r.positive_number(),
        r.finite(),
        r.normal(),
        r.shift() == 135,
        r.magnitude() == 1000 * one_in_ticks(),
{
    let r = Binary32::exact(0xFA_0000, 135);
    proof {
        lemma2_to64();
        lemma_pow2_adds(14, 135);
        assert(0xFA_0000 * pow2(135) == 1000 * pow2(149)) by (nonlinear_arith)
            requires
                pow2(149) == 0x4000 * pow2(135),
        ;
        lemma_infinite_at_infinity(r);
    }
    r
}

/// The crystal frequency in Hz as a binary32 number.
pub(crate) fn crystal_hz() -> (r: Binary32)
    ensures
        r.positive_number(),
        r.finite(),
        r.normal(),
        r.shift() == 150,
        r.magnitude() == 26_000_000 * one_in_ticks(),
{
    let r = Binary32::exact(0xC6_5D40, 150);
    proof {
        lemma2_to64();
        lemma_pow2_adds(1, 149);
        assert(0xC6_5D40 * pow2(150) == 26_000_000 * pow2(149)) by (nonlinear_arith)
            requires
                pow2(150) == 2 * pow2(149),
        ;
        lemma_infinite_at_infinity(r);
    }
    r
}

/// 2^e as binary32 arithmetic computes it.
pub(crate) fn power_of_two(e: u8) -> (r: Binary32)
    ensures
        r.regular(),
        r.magnitude() == power_of_two_ticks(e),
        r.finite() ==> r.shift() == 126 + e,
{
    if e < 128 {
        let r = Binary32::exact(0x80_0000, 126 + e as u32);
        proof {
            lemma2_to64();
            lemma_pow2_adds(23, 126 + e as nat);
            lemma_infinite_at_infinity(r);
        }
        r
    } else {
        let r = Binary32 { bits: 0x7f80_0000 };
        proof {
            assert(r.exponent_field() == 255);
            assert(r.fraction_field() == 0);
            lemma_infinite_at_infinity(r);
        }
        r
    }
}

/// A number rounded to six decimal places, as binary32 arithmetic does it.
pub(crate) fn round6(value: &Binary32) -> (r: Binary32)
    requires
        value.regular(),
    ensures
        r.positive_number(),
        r.ticks() == round6_ticks(value.magnitude()),
{
    let m = million();
    let scaled = value.mul(&m);
    let whole = scaled.round();
    whole.div(&m)
}

impl CommonConfig {
    /// Convert a baud rate in kBaud to a configuration value.
    ///
    /// Uses the formula from section 12 of the datasheet
    pub fn baud_rate_to_config(modulation: Modulation, baud_rate: Binary32) -> (r: Result<
        (u8, u8),
        CC1101Error,
    >)
        ensures
            valid_baud_rate(modulation, baud_rate) ==> r == Ok::<(u8, u8), CC1101Error>(
                (baud_rate_mantissa(baud_rate) as u8, baud_rate_exponent(baud_rate) as u8),
            ) && 4 <= baud_rate_exponent(baud_rate) <= 14,
            !valid_baud_rate(modulation, baud_rate) ==> r == Err::<(u8, u8), CC1101Error>(
                CC1101Error::Config(ConfigError::InvalidBaudRate),
            ),
    {
        let valid_baud_rate = match modulation {
            Modulation::GFSK | Modulation::OOK => baud_rate.is_within(
                BAUD_RATE_LOW,
                BAUD_RATE_HIGH_GFSK_OOK,
            ),
            Modulation::FSK2 => baud_rate.is_within(BAUD_RATE_LOW, BAUD_RATE_HIGH_FSK2),
            Modulation::FSK4 => baud_rate.is_within(BAUD_RATE_LOW, BAUD_RATE_HIGH_FSK4),
            Modulation::MSK => baud_rate.is_within(BAUD_RATE_LOW_MSK, BAUD_RATE_HIGH_MSK),
        };

        if !valid_baud_rate {
            return Err(CC1101Error::Config(ConfigError::InvalidBaudRate));
        }
        proof {
            match modulation {
                Modulation::GFSK | Modulation::OOK => {
                    lemma_within_bits(baud_rate, BAUD_RATE_LOW, BAUD_RATE_HIGH_GFSK_OOK);
                },
                Modulation::FSK2 => {
                    lemma_within_bits(baud_rate, BAUD_RATE_LOW, BAUD_RATE_HIGH_FSK2);
                },
                Modulation::FSK4 => {
                    lemma_within_bits(baud_rate, BAUD_RATE_LOW, BAUD_RATE_HIGH_FSK4);
                },
                Modulation::MSK => {
                    lemma_within_bits(baud_rate, BAUD_RATE_LOW_MSK, BAUD_RATE_HIGH_MSK);
                },
            }
        }
        assert(BAUD_RATE_LOW <= baud_rate.bits <= BAUD_RATE_HIGH_FSK2);
        let (sig, shift) = baud_rate.unpack();
        assert(125 <= shift <= 134);
        // The rate is `num * 2^-24` kBaud.
        let scale: u64 = 1u64 << ((shift - 125) as u64);
        proof {
            lemma2_to64();
            vstd::bits::lemma_u64_shl_is_mul(1, (shift - 125) as u64);
            if shift < 134 {
                lemma_pow2_strictly_increases((shift - 125) as nat, 9);
            }
            assert(sig as u64 * scale <= 0xFF_FFFF * 512) by (nonlinear_arith)
                requires
                    sig <= 0xFF_FFFF,
                    scale <= 512,
            ;
        }
        let num: u64 = (sig as u64) * scale;
        let quotient: u64 = num / 416_000;
        let exponent: u32 = log2_floor(quotient);
        let ghost one = one_in_ticks();
        let ghost mag = baud_rate.magnitude();
        let ghost p145 = pow2(145);
        proof {
            lemma_pow2_pos(145);
            lemma_pow2_pos(149);
            lemma_pow2_adds((shift - 125) as nat, 125);
            lemma_pow2_adds(125, 20);
            lemma_pow2_adds(4, 145);
            assert(mag == num * pow2(125)) by (nonlinear_arith)
                requires
                    mag == sig * pow2(shift as nat),
                    pow2(shift as nat) == scale * pow2(125),
                    num == sig * scale,
            ;
            // The quotient of the specification, without the common factors.
            assert(mag * 1000 * 0x10_0000 == (1000 * p145) * num) by (nonlinear_arith)
                requires
                    mag == num * pow2(125),
                    p145 == pow2(125) * 0x10_0000,
            ;
            assert(26_000_000 * one == (1000 * p145) * 416_000) by (nonlinear_arith)
                requires
                    one == 16 * p145,
            ;
            lemma_div_multiples_vanish_quotient((1000 * p145) as int, num as int, 416_000);
            assert(baud_rate_exponent(baud_rate) == exponent);
            // The least and the greatest rate bound the exponent.
            assert(num >= 10_062_001) by {
                if shift == 125 {
                    assert(scale == 1);
                    assert(baud_rate.exponent_field() == 126);
                    assert(baud_rate.bits == 126 * 0x80_0000 + baud_rate.fraction_field());
                    assert(sig >= 0x99_88b1);
                    assert(sig as u64 * scale == sig) by (nonlinear_arith)
                        requires
                            scale == 1,
                    ;
                } else {
                    assert(sig >= 0x80_0000);
                    assert(scale >= 2) by {
                        lemma_pow2_strictly_increases(0, (shift - 125) as nat);
                    }
                    assert(sig as u64 * scale >= 0x80_0000 * 2) by (nonlinear_arith)
                        requires
                            sig >= 0x80_0000,
                            scale >= 2,
                    ;
                }
            }
            assert(quotient >= 24);
            assert(quotient <= 20648);
            if exponent < 3 {
                lemma_pow2_strictly_increases(exponent as nat, 3);
            }
            if exponent > 15 {
                lemma_pow2_strictly_increases(15, exponent as nat);
            }
            assert(4 <= exponent <= 14);
        }
        let power: u64 = 1u64 << (exponent as u64);
        proof {
            vstd::bits::lemma_u64_shl_is_mul(1, exponent as u64);
            if exponent < 14 {
                lemma_pow2_strictly_increases(exponent as nat, 14);
            }
            assert(power <= 16384);
        }
        let divisor: u64 = 26_000 * power;
        let rounded: u64 = (2 * (16 * num) + divisor) / (2 * divisor);
        proof {
            let pe = pow2(exponent as nat);
            lemma_pow2_adds(125, 28);
            lemma_pow2_adds(4, 149);
            let n = mag * 1000 * 0x1000_0000;
            let d = 26_000_000 * pe * one;
            let c = 1000 * one;
            assert(n == (16 * num) * c) by (nonlinear_arith)
                requires
                    n == mag * 1000 * 0x1000_0000,
                    mag == num * pow2(125),
                    pow2(153) == pow2(125) * 0x1000_0000,
                    pow2(153) == 16 * one,
                    c == 1000 * one,
            ;
            assert(d == divisor * c) by (nonlinear_arith)
                requires
                    d == 26_000_000 * pe * one,
                    divisor == 26_000 * pe,
                    c == 1000 * one,
            ;
            assert(2 * n + d == c * (2 * (16 * num) + divisor)) by (nonlinear_arith)
                requires
                    n == (16 * num) * c,
                    d == divisor * c,
            ;
            assert(2 * d == c * (2 * divisor)) by (nonlinear_arith)
                requires
                    d == divisor * c,
            ;
            assert(c > 0) by (nonlinear_arith)
                requires
                    c == 1000 * one,
                    one > 0,
            ;
            lemma_div_multiples_vanish_quotient(
                c as int,
                (2 * (16 * num) + divisor) as int,
                (2 * divisor) as int,
            );
            assert(round_half_up(n, d) == rounded);
            assert(baud_rate_mantissa_wide(baud_rate) == rounded - 256);
        }
        let mantissa: u8 = if rounded < 256 {
            0
        } else if rounded - 256 > 255 {
            255
        } else {
            (rounded - 256) as u8
        };

        Ok((mantissa, exponent as u8))
    }

    /// Convert a baud rate configuration value to kBaud
    pub fn config_to_baud_rate(mantissa: u8, exponent: u8) -> (r: Binary32)
        ensures
            r.positive_number(),
            r.ticks() == baud_rate_ticks(mantissa, exponent),
    {
        let count = Binary32::from_u32(256 + mantissa as u32);
        let scale = power_of_two(exponent);
        let divisor = Binary32::exact(0x80_0000, 154);
        proof {
            lemma2_to64();
            lemma_pow2_adds(23, 154);
            lemma_pow2_adds(28, 149);
            lemma_infinite_at_infinity(divisor);
            assert(divisor.magnitude() == 0x1000_0000 * one_in_ticks());
        }
        let scaled = scale.mul(&count);
        let fraction = scaled.div(&divisor);
        let hertz = fraction.mul(&crystal_hz());
        let kilo = hertz.div(&thousand());
        round6(&kilo)
    }

    /// Set the modulation scheme and the baud rate in kBaud
    ///
    /// # Valid Modulation / Baud Rate Values
    ///
    /// | Modulation           | Baud Rate  |
    /// | ---------------------| ---------- |
    /// | [`Modulation::OOK`]  | 0.6 - 250  |
    /// | [`Modulation::GFSK`] | 0.6 - 250  |
    /// | [`Modulation::FSK2`] | 0.6 - 500  |
    /// | [`Modulation::FSK4`] | 0.6 - 300  |
    /// | [`Modulation::MSK`]  | 26 - 500   |
    ///
    /// Both ends are included. The lower ends are taken at the lowest rates
    /// that the registers hold, 0.599742 and 25.9857 kBaud.
    pub fn set_modulation_and_baud_rate(
        &mut self,
        modulation: Modulation,
        baud_rate: Binary32,
    ) -> (r: Result<(), CC1101Error>)
        ensures
            old(self)@.well_formed() ==> final(self)@.well_formed(),
            valid_baud_rate(modulation, baud_rate) ==> r == Ok::<(), CC1101Error>(())
                && final(self)@ == (CommonFields {
                modulation: modulation.code_spec(),
                baud_rate_mantissa: baud_rate_mantissa(baud_rate) as u8,
                baud_rate_exponent: baud_rate_exponent(baud_rate) as u8,
                ..old(self)@
            }) && 4 <= baud_rate_exponent(baud_rate) <= 14,
            !valid_baud_rate(modulation, baud_rate) ==> r == Err::<(), CC1101Error>(
                CC1101Error::Config(ConfigError::InvalidBaudRate),
            ) && *final(self) == *old(self),
    {
        match CommonConfig::baud_rate_to_config(modulation, baud_rate) {
            Ok((mantissa, exponent)) => {
                self.modulation = modulation;
                self.baud_rate_mantissa = mantissa;
                self.baud_rate_exponent = exponent;
                Ok(())
            },
            Err(e) => Err(e),
        }
    }

    /// Get the current baud rate in kBaud
    pub fn get_baud_rate(&self) -> (r: Binary32)
        ensures
            r.positive_number(),
            r.ticks() == baud_rate_ticks(self@.baud_rate_mantissa, self@.baud_rate_exponent),
    {
        CommonConfig::config_to_baud_rate(self.baud_rate_mantissa, self.baud_rate_exponent)
    }
}

/// The rates that the modulations can carry, in units of 2^-24 kBaud: from
/// 10062001 (0.599742 kBaud), or from 435967712 (25.9857 kBaud) for Minimum
/// Shift Keying, to 4194304000 (250 kBaud), 8388608000 (500 kBaud),
/// 5033164800 (300 kBaud) or, for Minimum Shift Keying, 8388608000 again.
pub proof fn lemma_valid_baud_rate(modulation: Modulation, baud_rate: Binary32)
    ensures
        valid_baud_rate(modulation, baud_rate) <==> !baud_rate.nan() && ({
            let unit = pow2(125) as int;
            match modulation {
                Modulation::GFSK | Modulation::OOK => 10062001 * unit <= baud_rate.ticks()
                    <= 4194304000 * unit,
                Modulation::FSK2 => 10062001 * unit <= baud_rate.ticks() <= 8388608000 * unit,
                Modulation::FSK4 => 10062001 * unit <= baud_rate.ticks() <= 5033164800 * unit,
                Modulation::MSK => 435967712 * unit <= baud_rate.ticks() <= 8388608000 * unit,
            }
        }),
{
    lemma2_to64();
    lemma_pow2_adds(5, 125);
    lemma_pow2_adds(8, 125);
    lemma_pow2_adds(9, 125);
    let unit = pow2(125);
    assert((Binary32 { bits: BAUD_RATE_LOW }).ticks() == 10062001 * unit);
    assert((Binary32 { bits: BAUD_RATE_LOW_MSK }).ticks() == 435967712 * unit) by {
        assert((Binary32 { bits: BAUD_RATE_LOW_MSK }).significand() == 13623991);
        assert(13623991 * (32 * unit) == 435967712 * unit) by (nonlinear_arith);
    }
    assert((Binary32 { bits: BAUD_RATE_HIGH_GFSK_OOK }).ticks() == 4194304000 * unit) by {
        assert((Binary32 { bits: BAUD_RATE_HIGH_GFSK_OOK }).significand() == 16384000);
        assert(16384000 * (256 * unit) == 4194304000 * unit) by (nonlinear_arith);
    }
    assert((Binary32 { bits: BAUD_RATE_HIGH_FSK2 }).ticks() == 8388608000 * unit) by {
        assert((Binary32 { bits: BAUD_RATE_HIGH_FSK2 }).significand() == 16384000);
        assert(16384000 * (512 * unit) == 8388608000 * unit) by (nonlinear_arith);
    }
    assert((Binary32 { bits: BAUD_RATE_HIGH_FSK4 }).ticks() == 5033164800 * unit) by {
        assert((Binary32 { bits: BAUD_RATE_HIGH_FSK4 }).significand() == 9830400);
        assert(9830400 * (512 * unit) == 5033164800 * unit) by (nonlinear_arith);
    }
    assert((Binary32 { bits: BAUD_RATE_HIGH_MSK }).ticks() == 8388608000 * unit) by {
        assert((Binary32 { bits: BAUD_RATE_HIGH_MSK }).significand() == 16384000);
        assert(16384000 * (512 * unit) == 8388608000 * unit) by (nonlinear_arith);
    }
}

/// A number that is not zero lies between 2 to the whole part of its binary
/// logarithm and twice that.
pub proof fn lemma_floor_log2(n: nat)
    requires
        n >= 1,
    ensures
        pow2(floor_log2(n)) <= n < 2 * pow2(floor_log2(n)),
    decreases n,
{
    lemma2_to64();
    if n >= 2 {
        lemma_floor_log2(n / 2);
        lemma_pow2_unfold(floor_log2(n));
    }
}

/// The registers of a valid rate are near the rate. With the rate in Hz
/// times 2^28 as `n` and the crystal frequency in Hz times 2^exponent as `d`,
/// both in ticks: the rate lies between 256 and 512 times `d`, it differs
/// from `256 + mantissa` times `d` by less than `d`, and by no more than half
/// of `d` unless the mantissa was held at 255.
pub proof fn lemma_baud_rate_registers_near(modulation: Modulation, baud_rate: Binary32)
    requires
        valid_baud_rate(modulation, baud_rate),
    ensures
        ({
            let n = baud_rate.magnitude() * 1000 * 0x1000_0000;
            let d = 26_000_000 * pow2(baud_rate_exponent(baud_rate)) * one_in_ticks();
            let held = (256 + baud_rate_mantissa(baud_rate)) * d;
            &&& 256 * d <= n < 512 * d
            &&& held - d < n < held + d
            &&& baud_rate_mantissa_wide(baud_rate) <= 255 ==> 2 * held - d <= 2 * n < 2 * held + d
            &&& 0 <= baud_rate_mantissa_wide(baud_rate) <= 256
        }),
{
    match modulation {
        Modulation::GFSK | Modulation::OOK => {
            lemma_within_bits(baud_rate, BAUD_RATE_LOW, BAUD_RATE_HIGH_GFSK_OOK);
        },
        Modulation::FSK2 => {
            lemma_within_bits(baud_rate, BAUD_RATE_LOW, BAUD_RATE_HIGH_FSK2);
        },
        Modulation::FSK4 => {
            lemma_within_bits(baud_rate, BAUD_RATE_LOW, BAUD_RATE_HIGH_FSK4);
        },
        Modulation::MSK => {
            lemma_within_bits(baud_rate, BAUD_RATE_LOW_MSK, BAUD_RATE_HIGH_MSK);
        },
    }
    let low = Binary32 { bits: BAUD_RATE_LOW };
    lemma_magnitude_order(low, baud_rate);
    assert(low.bits % 0x8000_0000 == low.bits);
    assert(baud_rate.bits % 0x8000_0000 == baud_rate.bits);
    assert(low.exponent_field() == 126);
    assert(low.significand() == 0x99_88b1);
    let one = one_in_ticks();
    let mag = baud_rate.magnitude();
    let p125 = pow2(125);
    lemma2_to64();
    lemma_pow2_pos(125);
    lemma_pow2_pos(149);
    lemma_pow2_adds(24, 125);
    assert(one == 0x100_0000 * p125);
    assert(mag >= 0x99_88b1 * p125);
    // The quotient under the logarithm is at least one.
    let a = mag * 1000 * 0x10_0000;
    let b = 26_000_000 * one;
    assert(a >= b) by (nonlinear_arith)
        requires
            a == mag * 1000 * 0x10_0000,
            b == 26_000_000 * one,
            one == 0x100_0000 * p125,
            mag >= 0x99_88b1 * p125,
            p125 > 0,
    ;
    assert(b > 0) by (nonlinear_arith)
        requires
            b == 26_000_000 * one,
            one > 0,
    ;
    let q = (a / b) as nat;
    lemma_fundamental_div_mod(a as int, b as int);
    assert(q >= 1) by (nonlinear_arith)
        requires
            a == b * q + a % b,
            0 <= a % b < b,
            a >= b,
            b > 0,
    ;
    let e = baud_rate_exponent(baud_rate);
    assert(e == floor_log2(q));
    lemma_floor_log2(q);
    let pe = pow2(e);
    lemma_pow2_pos(e);
    let n = mag * 1000 * 0x1000_0000;
    let d = 26_000_000 * pe * one;
    assert(n == 256 * a) by (nonlinear_arith)
        requires
            n == mag * 1000 * 0x1000_0000,
            a == mag * 1000 * 0x10_0000,
    ;
    assert(d == pe * b) by (nonlinear_arith)
        requires
            d == 26_000_000 * pe * one,
            b == 26_000_000 * one,
    ;
    assert(256 * d <= n < 512 * d) by (nonlinear_arith)
        requires
            n == 256 * a,
            d == pe * b,
            a == b * q + a % b,
            0 <= a % b < b,
            pe <= q < 2 * pe,
            b > 0,
    ;
    assert(d > 0) by (nonlinear_arith)
        requires
            d == pe * b,
            pe > 0,
            b > 0,
    ;
    // The rounded quotient is within half a step.
    let r = round_half_up(n, d);
    lemma_fundamental_div_mod((2 * n + d) as int, (2 * d) as int);
    let rest = (2 * n + d) % (2 * d);
    assert(2 * n + d == (2 * d) * r + rest);
    assert(2 * (r * d) == (2 * d) * r) by (nonlinear_arith);
    assert(256 <= r <= 512) by (nonlinear_arith)
        requires
            2 * n + d == (2 * d) * r + rest,
            0 <= rest < 2 * d,
            256 * d <= n < 512 * d,
            d > 0,
    ;
    let wide = baud_rate_mantissa_wide(baud_rate);
    assert(wide == r - 256);
    let m = baud_rate_mantissa(baud_rate);
    let held = (256 + m) * d;
    if wide <= 255 {
        assert(m == wide);
        assert(held == r * d);
    } else {
        assert(r == 512);
        assert(m == 255);
        assert(held == 511 * d);
        assert(2 * n + d >= 1024 * d) by (nonlinear_arith)
            requires
                2 * n + d == (2 * d) * r + rest,
                rest >= 0,
                r == 512,
        ;
    }
}

/// The rate in Hz of a mantissa and an exponent below 100 is rounded once:
/// it is the binary32 number nearest to `(256 + mantissa) * 2^exponent / 2^28`
/// times the crystal frequency.
pub proof fn lemma_baud_rate_hertz(mantissa: u8, exponent: u8)
    requires
        exponent < 100,
    ensures
        baud_rate_hertz_ticks(mantissa, exponent) == saturate(
            nearest((256 + mantissa) as nat * 26_000_000 * pow2(121 + exponent as nat), 1),
        ),
{
    let one = one_in_ticks();
    let inf = infinity_in_ticks();
    let k = (256 + mantissa) as nat;
    let e = exponent as nat;
    lemma2_to64();
    lemma_pow2_pos(149);
    lemma_pow2_pos(121 + e);
    lemma_pow2_adds(24, 149 + e);
    lemma_pow2_adds(24, 149);
    lemma_pow2_adds(24, 121 + e);
    lemma_pow2_adds(28, 121 + e);
    lemma_pow2_strictly_increases(173 + e, 277);
    lemma_pow2_strictly_increases(173, 277);
    lemma_pow2_strictly_increases(149 + e, 277);
    lemma_pow2_strictly_increases(145 + e, 277);
    // The count times the power of two is exact.
    let power = pow2(149 + e);
    assert(power_of_two_ticks(exponent) == power);
    assert(k * one < pow2(24) * one) by (nonlinear_arith)
        requires
            k < pow2(24),
            one > 0,
    ;
    let scaled = k * power;
    assert(power * (k * one) == scaled * one) by (nonlinear_arith)
        requires
            scaled == k * power,
    ;
    lemma_nearest_scale(scaled, 1, one);
    assert(1 * one == one);
    lemma_nearest_exact(k, 149 + e, 1);
    assert(k * pow2(149 + e) * 1 == scaled) by (nonlinear_arith)
        requires
            scaled == k * power,
            power == pow2(149 + e),
    ;
    lemma_pow2_pos(149 + e);
    assert(scaled < pow2(24) * power) by (nonlinear_arith)
        requires
            scaled == k * power,
            k < pow2(24),
            power > 0,
    ;
    assert(product_ticks(power, k * one) == scaled);
    // The division by 2^28 is exact.
    let fraction = k * pow2(121 + e);
    let divisor = 0x1000_0000 * one;
    assert(scaled == fraction * 0x1000_0000) by (nonlinear_arith)
        requires
            scaled == k * power,
            power == pow2(149 + e),
            pow2(149 + e) == 0x1000_0000 * pow2(121 + e),
            fraction == k * pow2(121 + e),
    ;
    assert(scaled * one == (fraction * 0x1000_0000) * one) by (nonlinear_arith)
        requires
            scaled == fraction * 0x1000_0000,
    ;
    assert(divisor == 0x1000_0000 * one);
    lemma_nearest_scale(fraction * 0x1000_0000, 0x1000_0000, one);
    lemma_nearest_exact(k, 121 + e, 0x1000_0000);
    assert(k * pow2(121 + e) * 0x1000_0000 == fraction * 0x1000_0000) by (nonlinear_arith)
        requires
            fraction == k * pow2(121 + e),
    ;
    assert(fraction < pow2(24) * pow2(121 + e)) by (nonlinear_arith)
        requires
            fraction == k * pow2(121 + e),
            k < pow2(24),
            pow2(121 + e) > 0,
    ;
    assert(quotient_ticks(scaled, divisor) == fraction);
    // The product with the crystal frequency is rounded.
    let n = k * 26_000_000 * pow2(121 + e);
    assert(fraction * (26_000_000 * one) == n * one) by (nonlinear_arith)
        requires
            fraction == k * pow2(121 + e),
            n == k * 26_000_000 * pow2(121 + e),
    ;
    lemma_nearest_scale(n, 1, one);
    assert(26_000_000 * one < inf) by {
        assert(26_000_000 * one < pow2(25) * one) by (nonlinear_arith)
            requires
                26_000_000 < pow2(25),
                one > 0,
        ;
        lemma_pow2_adds(25, 149);
        lemma_pow2_strictly_increases(174, 277);
    }
}

} // verus!
