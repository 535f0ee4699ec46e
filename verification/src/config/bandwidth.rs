//! The receive channel filter bandwidth.
//!
//! The radio derives the bandwidth from a two-bit mantissa and a two-bit
//! exponent, so sixteen bandwidths exist and the register pair for a
//! bandwidth is found by trying them in turn.
use vstd::prelude::*;
use vstd::arithmetic::power2::*;
use vstd::arithmetic::div_mod::*;

use crate::config::{RXConfig, RXFields};
use crate::{CC1101Error, ConfigError};

verus! {

/// The frequency of the crystal oscillator in Hz.
pub const CRYSTAL_HZ: u64 = 26_000_000;

/// The bandwidth in whole kHz of a mantissa and an exponent: the crystal
/// frequency over `8 * (mantissa + 4) * 2^exponent`, converted from Hz to kHz
/// and truncated.
pub open spec fn bandwidth_khz(mantissa: u8, exponent: u8) -> nat {
    (CRYSTAL_HZ as nat) / ((8 * (mantissa + 4) * pow2(exponent as nat) * 1000) as nat)
}

/// No register pair that the search visits before `(mantissa, exponent)`
/// gives the bandwidth. The search runs through the mantissas 0 to 3 and for
/// each of them through the exponents 0 to 3.
pub open spec fn no_bandwidth_before(bandwidth: u32, mantissa: u8, exponent: u8) -> bool {
    forall|m: u8, e: u8|
        m < 4 && e < 4 && (m < mantissa || (m == mantissa && e < exponent))
            ==> #[trigger] bandwidth_khz(m, e) != bandwidth
}

/// `(mantissa, exponent)` is the first register pair of the search that gives
/// the bandwidth.
pub open spec fn bandwidth_registers(bandwidth: u32, mantissa: u8, exponent: u8) -> bool {
    &&& mantissa < 4
    &&& exponent < 4
    &&& bandwidth_khz(mantissa, exponent) == bandwidth
    &&& no_bandwidth_before(bandwidth, mantissa, exponent)
}

/// The bandwidth is one of the sixteen that the radio offers.
pub open spec fn valid_bandwidth(bandwidth: u32) -> bool {
    exists|m: u8, e: u8| m < 4 && e < 4 && #[trigger] bandwidth_khz(m, e) == bandwidth
}

impl RXConfig {
    /// Convert a bandwidth configuration value to kHz.
    ///
    /// Uses the formula from section 13 of the datasheet
    pub fn config_to_bandwidth(mantissa: u8, exponent: u8) -> (r: u32)
        ensures
            r == bandwidth_khz(mantissa, exponent),
    {
        let step: u64 = 8000 * (mantissa as u64 + 4);
        proof {
            lemma_pow2_pos(exponent as nat);
            assert(8 * (mantissa + 4) * pow2(exponent as nat) * 1000 == step * pow2(
                exponent as nat,
            )) by (nonlinear_arith)
                requires
                    step == 8000 * (mantissa + 4),
            ;
        }
        if exponent >= 13 {
            proof {
                lemma2_to64();
                if exponent > 13 {
                    lemma_pow2_strictly_increases(13, exponent as nat);
                }
                let d = step * pow2(exponent as nat);
                assert(d > CRYSTAL_HZ) by (nonlinear_arith)
                    requires
                        d == step * pow2(exponent as nat),
                        step >= 32000,
                        pow2(exponent as nat) >= 8192,
                ;
                lemma_basic_div(CRYSTAL_HZ as int, d);
            }
            return 0;
        }
        let scale: u64 = 1u64 << (exponent as u64);
        proof {
            lemma2_to64();
            vstd::bits::lemma_u64_shl_is_mul(1, exponent as u64);
            assert(scale == pow2(exponent as nat));
            assert(scale <= 4096) by {
                if exponent < 12 {
                    lemma_pow2_strictly_increases(exponent as nat, 12);
                }
            }
            assert(step * scale <= 2072000 * 4096) by (nonlinear_arith)
                requires
                    step <= 2072000,
                    scale <= 4096,
            ;
            assert(step * scale > 0) by (nonlinear_arith)
                requires
                    step > 0,
                    scale > 0,
            ;
        }
        let divisor: u64 = step * scale;
        (CRYSTAL_HZ / divisor) as u32
    }

    /// Convert a bandwidth in kHz to a configuration value
    pub fn bandwidth_to_config(bandwidth: u32) -> (r: Result<(u8, u8), CC1101Error>)
        ensures
            match r {
                Ok((mantissa, exponent)) => bandwidth_registers(bandwidth, mantissa, exponent),
                Err(e) => e == CC1101Error::Config(ConfigError::InvalidBandwidth)
                    && !valid_bandwidth(bandwidth),
            },
    {
        let mut mantissa: u8 = 0;
        while mantissa < 4
            invariant
                mantissa <= 4,
                no_bandwidth_before(bandwidth, mantissa, 0),
            decreases 4 - mantissa,
        {
            let mut exponent: u8 = 0;
            while exponent < 4
                invariant
                    mantissa < 4,
                    exponent <= 4,
                    no_bandwidth_before(bandwidth, mantissa, exponent),
                decreases 4 - exponent,
            {
                if bandwidth == RXConfig::config_to_bandwidth(mantissa, exponent) {
                    return Ok((mantissa, exponent));
                }
                exponent += 1;
            }
            mantissa += 1;
        }
        Err(CC1101Error::Config(ConfigError::InvalidBandwidth))
    }

    /// Set the configured bandwith in KHz
    ///
    /// Valid values are `58,67,81,101,116,135,162,203,232,270,325,406,464,541,650,812`
    pub fn set_bandwidth(&mut self, bandwidth: u32) -> (r: Result<(), CC1101Error>)
        ensures
            old(self)@.well_formed() ==> final(self)@.well_formed(),
            valid_bandwidth(bandwidth) ==> r == Ok::<(), CC1101Error>(()) && bandwidth_registers(
                bandwidth,
                final(self)@.bandwidth_mantissa,
                final(self)@.bandwidth_exponent,
            ) && final(self)@ == (RXFields {
                bandwidth_mantissa: final(self)@.bandwidth_mantissa,
                bandwidth_exponent: final(self)@.bandwidth_exponent,
                ..old(self)@
            }),
            !valid_bandwidth(bandwidth) ==> r == Err::<(), CC1101Error>(
                CC1101Error::Config(ConfigError::InvalidBandwidth),
            ) && *final(self) == *old(self),
    {
        match RXConfig::bandwidth_to_config(bandwidth) {
            Ok((mantissa, exponent)) => {
                self.bandwidth_mantissa = mantissa;
                self.bandwidth_exponent = exponent;
                Ok(())
            },
            Err(e) => Err(e),
        }
    }

    /// Get the configured bandwidth
    pub fn get_bandwith(&self) -> (r: u32)
        ensures
            r == bandwidth_khz(self@.bandwidth_mantissa, self@.bandwidth_exponent),
    {
        RXConfig::config_to_bandwidth(self.bandwidth_mantissa, self.bandwidth_exponent)
    }
}

/// The bandwidth of a mantissa and an exponent is `value` when the crystal
/// frequency lies between `value` and `value + 1` times the divisor.
proof fn lemma_bandwidth_at(mantissa: u8, exponent: u8, divisor: int, value: int)
    requires
        divisor == 8000 * (mantissa + 4) * pow2(exponent as nat),
        0 <= value,
        value * divisor <= 26_000_000 < (value + 1) * divisor,
    ensures
        bandwidth_khz(mantissa, exponent) == value,
{
    assert(8 * (mantissa + 4) * pow2(exponent as nat) * 1000 == divisor) by (nonlinear_arith)
        requires
            divisor == 8000 * (mantissa + 4) * pow2(exponent as nat),
    ;
    let rest = 26_000_000 - value * divisor;
    assert(0 <= rest < divisor) by (nonlinear_arith)
        requires
            rest == 26_000_000 - value * divisor,
            value * divisor <= 26_000_000 < (value + 1) * divisor,
    ;
    lemma_fundamental_div_mod_converse(26_000_000, divisor, value, rest);
}

/// The sixteen bandwidths of the radio in kHz, by mantissa and exponent.
pub proof fn lemma_bandwidth_table()
    ensures
        bandwidth_khz(0, 0) == 812,
        bandwidth_khz(0, 1) == 406,
        bandwidth_khz(0, 2) == 203,
        bandwidth_khz(0, 3) == 101,
        bandwidth_khz(1, 0) == 650,
        bandwidth_khz(1, 1) == 325,
        bandwidth_khz(1, 2) == 162,
        bandwidth_khz(1, 3) == 81,
        bandwidth_khz(2, 0) == 541,
        bandwidth_khz(2, 1) == 270,
        bandwidth_khz(2, 2) == 135,
        bandwidth_khz(2, 3) == 67,
        bandwidth_khz(3, 0) == 464,
        bandwidth_khz(3, 1) == 232,
        bandwidth_khz(3, 2) == 116,
        bandwidth_khz(3, 3) == 58,
{
    lemma2_to64();
    lemma_bandwidth_at(0, 0, 32000, 812);
    lemma_bandwidth_at(0, 1, 64000, 406);
    lemma_bandwidth_at(0, 2, 128000, 203);
    lemma_bandwidth_at(0, 3, 256000, 101);
    lemma_bandwidth_at(1, 0, 40000, 650);
    lemma_bandwidth_at(1, 1, 80000, 325);
    lemma_bandwidth_at(1, 2, 160000, 162);
    lemma_bandwidth_at(1, 3, 320000, 81);
    lemma_bandwidth_at(2, 0, 48000, 541);
    lemma_bandwidth_at(2, 1, 96000, 270);
    lemma_bandwidth_at(2, 2, 192000, 135);
    lemma_bandwidth_at(2, 3, 384000, 67);
    lemma_bandwidth_at(3, 0, 56000, 464);
    lemma_bandwidth_at(3, 1, 112000, 232);
    lemma_bandwidth_at(3, 2, 224000, 116);
    lemma_bandwidth_at(3, 3, 448000, 58);
}

/// Each of the sixteen bandwidths of the radio is valid and belongs to one
/// register pair only: the registers that are found for the bandwidth of a
/// pair are that pair, and give the bandwidth back exactly.
pub proof fn lemma_bandwidth_round_trip(
    mantissa: u8,
    exponent: u8,
    found_mantissa: u8,
    found_exponent: u8,
)
    requires
        mantissa < 4,
        exponent < 4,
        bandwidth_registers(
            bandwidth_khz(mantissa, exponent) as u32,
            found_mantissa,
            found_exponent,
        ),
    ensures
        valid_bandwidth(bandwidth_khz(mantissa, exponent) as u32),
        found_mantissa == mantissa,
        found_exponent == exponent,
        bandwidth_khz(found_mantissa, found_exponent) == bandwidth_khz(mantissa, exponent),
{
    lemma_bandwidth_table();
}

/// The bandwidths that are valid are the sixteen of the table.
pub proof fn lemma_valid_bandwidths(bandwidth: u32)
    ensures
        valid_bandwidth(bandwidth) <==> (bandwidth == 58 || bandwidth == 67 || bandwidth == 81
            || bandwidth == 101 || bandwidth == 116 || bandwidth == 135 || bandwidth == 162
            || bandwidth == 203 || bandwidth == 232 || bandwidth == 270 || bandwidth == 325
            || bandwidth == 406 || bandwidth == 464 || bandwidth == 541 || bandwidth == 650
            || bandwidth == 812),
{
    lemma_bandwidth_table();
    if valid_bandwidth(bandwidth) {
        let (m, e) = choose|m: u8, e: u8| m < 4 && e < 4 && #[trigger] bandwidth_khz(m, e)
            == bandwidth;
        assert(m == 0 || m == 1 || m == 2 || m == 3);
        assert(e == 0 || e == 1 || e == 2 || e == 3);
    }
}

} // verus!
