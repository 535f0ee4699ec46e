//! Transmit power tables.
//!
//! The output power of the radio is set by one byte whose meaning depends on
//! the band: for each of the bands around 315, 433, 868 and 915 MHz a table
//! of calibration gives the output power in dBm of the bytes that may be
//! used. The tables are measurements, so they are data of the caller; this
//! module selects the table of a frequency and looks powers and bytes up in
//! it.
use vstd::prelude::*;
use vstd::arithmetic::power2::*;

use crate::binary32::{one_in_ticks, Binary32};
use crate::{CC1101Error, ConfigError};

verus! {

/// The bands for which a power table exists.
#[derive(Debug, Copy, Clone, PartialEq, Eq, Structural)]
pub enum Band {
    MHz315,
    MHz433,
    MHz868,
    MHz915,
}

impl Band {
    /// The frequency in MHz at the centre of the band.
    pub open spec fn center_mhz(self) -> nat {
        match self {
            Band::MHz315 => 315,
            Band::MHz433 => 433,
            Band::MHz868 => 868,
            Band::MHz915 => 915,
        }
    }
}

/// One row of a power table: the byte and the output power in dBm that it
/// gives.
#[derive(Debug, Copy, Clone)]
pub struct PowerLevel {
    pub byte: u8,
    pub dbm: Binary32,
}

/// The power tables of the four bands, each in the order in which it is
/// searched.
#[derive(Debug, Clone)]
pub struct PowerTables {
    pub mhz_315: Vec<PowerLevel>,
    pub mhz_433: Vec<PowerLevel>,
    pub mhz_868: Vec<PowerLevel>,
    pub mhz_915: Vec<PowerLevel>,
}

impl PowerTables {
    /// The table of a band.
    pub open spec fn of(self, band: Band) -> Seq<PowerLevel> {
        match band {
            Band::MHz315 => self.mhz_315@,
            Band::MHz433 => self.mhz_433@,
            Band::MHz868 => self.mhz_868@,
            Band::MHz915 => self.mhz_915@,
        }
    }

    /// The table of a band.
    pub fn table(&self, band: Band) -> (r: &Vec<PowerLevel>)
        ensures
            r@ == self.of(band),
    {
        match band {
            Band::MHz315 => &self.mhz_315,
            Band::MHz433 => &self.mhz_433,
            Band::MHz868 => &self.mhz_868,
            Band::MHz915 => &self.mhz_915,
        }
    }
}

/// A tick count is less than the tick count of one away from the centre of
/// the band.
pub open spec fn near_ticks(ticks: int, band: Band) -> bool {
    (band.center_mhz() - 1) * one_in_ticks() < ticks < (band.center_mhz() + 1) * one_in_ticks()
}

/// The frequency in MHz is less than 1 MHz away from the centre of the band.
pub open spec fn frequency_near(frequency: Binary32, band: Band) -> bool {
    !frequency.nan() && near_ticks(frequency.ticks(), band)
}

/// The band of a frequency in MHz, given as a tick count: the first of the
/// four whose centre the frequency is near.
pub open spec fn band_of_ticks(ticks: int) -> Option<Band> {
    if near_ticks(ticks, Band::MHz315) {
        Some(Band::MHz315)
    } else if near_ticks(ticks, Band::MHz433) {
        Some(Band::MHz433)
    } else if near_ticks(ticks, Band::MHz868) {
        Some(Band::MHz868)
    } else if near_ticks(ticks, Band::MHz915) {
        Some(Band::MHz915)
    } else {
        None
    }
}

/// The band of a frequency in MHz: the first of the four whose centre the
/// frequency is near.
pub open spec fn band_of(frequency: Binary32) -> Option<Band> {
    if frequency.nan() {
        None
    } else {
        band_of_ticks(frequency.ticks())
    }
}

/// What looking a power in dBm up in a table gives: the byte of the first row
/// with that power, or, where no row has it, the error `InvalidTXPower`.
pub open spec fn power_lookup(
    table: Seq<PowerLevel>,
    tx_power: Binary32,
    r: Result<u8, CC1101Error>,
) -> bool {
    match r {
        Ok(byte) => exists|n: int| #[trigger]
            first_with_power(table, tx_power, n) && table[n].byte == byte,
        Err(e) => e == CC1101Error::Config(ConfigError::InvalidTXPower) && no_power_before(
            table,
            tx_power,
            table.len() as int,
        ),
    }
}

/// What looking a byte up in a table gives: the power in dBm of the first row
/// with that byte, or, where no row has it, the error `InvalidTXPower`.
pub open spec fn byte_lookup(
    table: Seq<PowerLevel>,
    byte: u8,
    r: Result<Binary32, CC1101Error>,
) -> bool {
    match r {
        Ok(dbm) => exists|n: int| #[trigger] first_with_byte(table, byte, n) && table[n].dbm == dbm,
        Err(e) => e == CC1101Error::Config(ConfigError::InvalidTXPower) && no_byte_before(
            table,
            byte,
            table.len() as int,
        ),
    }
}

/// The tick count of the tolerance: 2^-23 less 2^-48. A difference is below
/// it exactly when, rounded to a binary32 number, it is below 2^-23, the step
/// of the binary32 numbers at one.
pub open spec fn epsilon_ticks() -> int {
    pow2(126) - pow2(101)
}

/// Two powers in dBm are equal within the tolerance: both are finite and
/// their difference, rounded to a binary32 number, is less than 2^-23.
pub open spec fn within_epsilon(a: Binary32, b: Binary32) -> bool {
    a.finite() && b.finite() && -epsilon_ticks() < a.ticks() - b.ticks() < epsilon_ticks()
}

/// No row of the table before row `n` gives the power.
pub open spec fn no_power_before(table: Seq<PowerLevel>, tx_power: Binary32, n: int) -> bool {
    forall|i: int| 0 <= i < n ==> !within_epsilon((#[trigger] table[i]).dbm, tx_power)
}

/// No row of the table before row `n` holds the byte.
pub open spec fn no_byte_before(table: Seq<PowerLevel>, byte: u8, n: int) -> bool {
    forall|i: int| 0 <= i < n ==> (#[trigger] table[i]).byte != byte
}

/// Row `n` is the first row of the table that gives the power.
pub open spec fn first_with_power(table: Seq<PowerLevel>, tx_power: Binary32, n: int) -> bool {
    &&& 0 <= n < table.len()
    &&& within_epsilon(table[n].dbm, tx_power)
    &&& no_power_before(table, tx_power, n)
}

/// Row `n` is the first row of the table that holds the byte.
pub open spec fn first_with_byte(table: Seq<PowerLevel>, byte: u8, n: int) -> bool {
    &&& 0 <= n < table.len()
    &&& table[n].byte == byte
    &&& no_byte_before(table, byte, n)
}

/// The rows of a table can be told apart: the powers are finite, no two
/// bytes are the same and no two powers are within the tolerance of each
/// other.
pub open spec fn distinct_rows(table: Seq<PowerLevel>) -> bool {
    &&& forall|i: int| 0 <= i < table.len() ==> (#[trigger] table[i]).dbm.finite()
    &&& forall|i: int, j: int|
        0 <= i < j < table.len() ==> (#[trigger] table[i]).byte != (#[trigger] table[j]).byte
    &&& forall|i: int, j: int|
        0 <= i < j < table.len() ==> !within_epsilon(
            (#[trigger] table[i]).dbm,
            (#[trigger] table[j]).dbm,
        )
}

/// `s * 2^sh` as a machine integer.
fn scaled(s: u32, sh: u32) -> (r: u128)
    requires
        s < 0x100_0000,
        sh <= 103,
    ensures
        r == s as nat * pow2(sh as nat),
        r < 0x8000_0000_0000_0000_0000_0000_0000_0000,
{
    let mut r: u128 = s as u128;
    let mut i: u32 = 0;
    proof {
        lemma2_to64();
    }
    while i < sh
        invariant
            i <= sh <= 103,
            s < 0x100_0000,
            r == s as nat * pow2(i as nat),
        decreases sh - i,
    {
        proof {
            lemma2_to64();
            lemma_pow2_unfold((i + 1) as nat);
            lemma_pow2_adds(64, 39);
            lemma_pow2_adds(32, 7);
            lemma_pow2_pos((i + 1) as nat);
            if i + 1 < 103 {
                lemma_pow2_strictly_increases((i + 1) as nat, 103);
            }
            assert(s as nat * pow2((i + 1) as nat) < 0x100_0000 * pow2(103)) by (nonlinear_arith)
                requires
                    s < 0x100_0000,
                    0 < pow2((i + 1) as nat) <= pow2(103),
            ;
            assert(2 * (s as nat * pow2(i as nat)) == s as nat * pow2((i + 1) as nat))
                by (nonlinear_arith)
                requires
                    pow2((i + 1) as nat) == 2 * pow2(i as nat),
            ;
        }
        r = r * 2;
        i = i + 1;
    }
    proof {
        lemma2_to64();
        lemma_pow2_adds(64, 39);
        lemma_pow2_adds(32, 7);
        lemma_pow2_pos(sh as nat);
        if sh < 103 {
            lemma_pow2_strictly_increases(sh as nat, 103);
        }
        assert(s as nat * pow2(sh as nat) < 0x100_0000 * pow2(103)) by (nonlinear_arith)
            requires
                s < 0x100_0000,
                0 < pow2(sh as nat) <= pow2(103),
        ;
    }
    r
}

/// Whether two numbers are equal within the tolerance.
pub fn is_within_epsilon(a: &Binary32, b: &Binary32) -> (r: bool)
    ensures
        r == within_epsilon(*a, *b),
{
    if !a.is_finite() || !b.is_finite() {
        return false;
    }
    let (sa, sha) = a.unpack();
    let (sb, shb) = b.unpack();
    let same_sign = a.is_sign_negative() == b.is_sign_negative();
    let ghost ma = a.magnitude();
    let ghost mb = b.magnitude();
    proof {
        lemma2_to64();
        lemma_pow2_adds(64, 62);
        lemma_pow2_adds(32, 30);
        lemma_pow2_adds(64, 37);
        lemma_pow2_adds(32, 5);
        assert(pow2(126) == 0x4000_0000_0000_0000_0000_0000_0000_0000);
        assert(pow2(101) == 0x20_0000_0000_0000_0000_0000_0000);
    }
    if sha <= 103 && shb <= 103 {
        let x: u128 = scaled(sa, sha);
        let y: u128 = scaled(sb, shb);
        let limit: u128 = 0x3FFF_FFE0_0000_0000_0000_0000_0000_0000;
        if same_sign {
            if x >= y {
                assert(within_epsilon(*a, *b) == (x - y < limit));
                x - y < limit
            } else {
                assert(within_epsilon(*a, *b) == (y - x < limit));
                y - x < limit
            }
        } else {
            assert(within_epsilon(*a, *b) == (x + y < limit));
            x + y < limit
        }
    } else {
        proof {
            lemma_pow2_pos(sha as nat);
            lemma_pow2_pos(shb as nat);
            lemma_pow2_adds(23, 104);
            lemma_pow2_adds(1, 126);
            assert(pow2(127) == 2 * pow2(126));
            // Whichever has the large shift is at least 2^127 ticks.
            if sha >= 104 {
                if sha > 104 {
                    lemma_pow2_strictly_increases(104, sha as nat);
                }
                assert(ma >= pow2(23) * pow2(104)) by (nonlinear_arith)
                    requires
                        ma == sa as nat * pow2(sha as nat),
                        sa >= pow2(23),
                        pow2(sha as nat) >= pow2(104),
                ;
            }
            if shb >= 104 {
                if shb > 104 {
                    lemma_pow2_strictly_increases(104, shb as nat);
                }
                assert(mb >= pow2(23) * pow2(104)) by (nonlinear_arith)
                    requires
                        mb == sb as nat * pow2(shb as nat),
                        sb >= pow2(23),
                        pow2(shb as nat) >= pow2(104),
                ;
            }
        }
        if !same_sign {
            assert(!within_epsilon(*a, *b));
            return false;
        }
        if sha > shb + 1 {
            proof {
                lemma_far_apart(sa as nat, sha as nat, sb as nat, shb as nat);
            }
            assert(!within_epsilon(*a, *b));
            return false;
        }
        if shb > sha + 1 {
            proof {
                lemma_far_apart(sb as nat, shb as nat, sa as nat, sha as nat);
            }
            assert(!within_epsilon(*a, *b));
            return false;
        }
        let m: u32 = if sha <= shb {
            sha
        } else {
            shb
        };
        let x: u64 = if sha > m {
            2 * (sa as u64)
        } else {
            sa as u64
        };
        let y: u64 = if shb > m {
            2 * (sb as u64)
        } else {
            sb as u64
        };
        let diff: u64 = if x >= y {
            x - y
        } else {
            y - x
        };
        let ghost pm = pow2(m as nat);
        proof {
            lemma_pow2_pos(m as nat);
            lemma_pow2_unfold((m + 1) as nat);
            assert(ma == x * pm) by (nonlinear_arith)
                requires
                    ma == sa as nat * pow2(sha as nat),
                    sha == m ==> x == sa && pow2(sha as nat) == pm,
                    sha != m ==> x == 2 * sa && pow2(sha as nat) == 2 * pm,
            ;
            assert(mb == y * pm) by (nonlinear_arith)
                requires
                    mb == sb as nat * pow2(shb as nat),
                    shb == m ==> y == sb && pow2(shb as nat) == pm,
                    shb != m ==> y == 2 * sb && pow2(shb as nat) == 2 * pm,
            ;
            assert(m >= 103);
            lemma_pow2_strictly_increases(101, m as nat);
            assert(diff * pm == if x >= y {
                ma - mb
            } else {
                mb - ma
            }) by (nonlinear_arith)
                requires
                    ma == x * pm,
                    mb == y * pm,
                    x >= y ==> diff == x - y,
                    x < y ==> diff == y - x,
            ;
        }
        if m >= 126 {
            proof {
                if m > 126 {
                    lemma_pow2_strictly_increases(126, m as nat);
                }
                if diff != 0 {
                    assert(diff * pm >= pow2(126)) by (nonlinear_arith)
                        requires
                            diff >= 1,
                            pm >= pow2(126),
                    ;
                } else {
                    assert(diff * pm == 0) by (nonlinear_arith)
                        requires
                            diff == 0,
                    ;
                }
                assert(within_epsilon(*a, *b) == (diff == 0));
            }
            diff == 0
        } else {
            let span: u64 = 1u64 << ((126 - m) as u64);
            proof {
                vstd::bits::lemma_u64_shl_is_mul(1, (126 - m) as u64);
                lemma_pow2_strictly_increases((126 - m) as nat, 24);
                lemma_pow2_adds((126 - m) as nat, m as nat);
                assert(span * pm == pow2(126));
                assert(diff < span <==> diff * pm < span * pm) by (nonlinear_arith)
                    requires
                        pm > 0,
                ;
                assert(diff < span ==> diff * pm <= span * pm - pm) by (nonlinear_arith)
                    requires
                        pm > 0,
                ;
                assert(within_epsilon(*a, *b) == (diff < span));
            }
            diff < span
        }
    }
}

/// A normal number of at least 2^127 ticks and a number whose shift is lower
/// by two or more are at least 2^126 ticks apart.
proof fn lemma_far_apart(sl: nat, shl: nat, ss: nat, shs: nat)
    requires
        0x80_0000 <= sl,
        ss < 0x100_0000,
        shl >= 104,
        shl > shs + 1,
    ensures
        sl * pow2(shl) - ss * pow2(shs) >= pow2(126),
{
    lemma2_to64();
    lemma_pow2_adds(2, (shl - 2) as nat);
    lemma_pow2_adds(24, 102);
    lemma_pow2_pos(shs);
    let q = pow2((shl - 2) as nat);
    if shs < shl - 2 {
        lemma_pow2_strictly_increases(shs, (shl - 2) as nat);
    }
    if shl > 104 {
        lemma_pow2_strictly_increases(102, (shl - 2) as nat);
    }
    assert(sl * pow2(shl) - ss * pow2(shs) >= 0x100_0000 * pow2(102)) by (nonlinear_arith)
        requires
            pow2(shl) == 4 * q,
            0 < pow2(shs) <= q,
            q >= pow2(102),
            sl >= 0x80_0000,
            ss < 0x100_0000,
    ;
}

/// Whether the frequency in MHz is less than 1 MHz away from the centre of
/// the band.
pub fn is_frequency_near(frequency: &Binary32, band: Band) -> (r: bool)
    ensures
        r == frequency_near(*frequency, band),
{
    // The numbers one below and one above the centre.
    let (low, high): (u32, u32) = match band {
        Band::MHz315 => (0x439d_0000, 0x439e_0000),
        Band::MHz433 => (0x43d8_0000, 0x43d9_0000),
        Band::MHz868 => (0x4458_c000, 0x4459_4000),
        Band::MHz915 => (0x4464_8000, 0x4465_0000),
    };
    proof {
        let lo = Binary32 { bits: low };
        let hi = Binary32 { bits: high };
        lemma2_to64();
        lemma_pow2_adds(15, 134);
        lemma_pow2_adds(14, 135);
        let one = one_in_ticks();
        assert(lo.exponent_field() == 135 || lo.exponent_field() == 136);
        assert(lo.ticks() == (band.center_mhz() - 1) * one) by {
            match band {
                Band::MHz315 => {
                    assert(lo.significand() == 314 * 0x8000);
                    assert(314 * 0x8000 * pow2(134) == 314 * one) by (nonlinear_arith)
                        requires
                            one == 0x8000 * pow2(134),
                    ;
                },
                Band::MHz433 => {
                    assert(lo.significand() == 432 * 0x8000);
                    assert(432 * 0x8000 * pow2(134) == 432 * one) by (nonlinear_arith)
                        requires
                            one == 0x8000 * pow2(134),
                    ;
                },
                Band::MHz868 => {
                    assert(lo.significand() == 867 * 0x4000);
                    assert(867 * 0x4000 * pow2(135) == 867 * one) by (nonlinear_arith)
                        requires
                            one == 0x4000 * pow2(135),
                    ;
                },
                Band::MHz915 => {
                    assert(lo.significand() == 914 * 0x4000);
                    assert(914 * 0x4000 * pow2(135) == 914 * one) by (nonlinear_arith)
                        requires
                            one == 0x4000 * pow2(135),
                    ;
                },
            }
        }
        assert(hi.ticks() == (band.center_mhz() + 1) * one) by {
            match band {
                Band::MHz315 => {
                    assert(hi.significand() == 316 * 0x8000);
                    assert(316 * 0x8000 * pow2(134) == 316 * one) by (nonlinear_arith)
                        requires
                            one == 0x8000 * pow2(134),
                    ;
                },
                Band::MHz433 => {
                    assert(hi.significand() == 434 * 0x8000);
                    assert(434 * 0x8000 * pow2(134) == 434 * one) by (nonlinear_arith)
                        requires
                            one == 0x8000 * pow2(134),
                    ;
                },
                Band::MHz868 => {
                    assert(hi.significand() == 869 * 0x4000);
                    assert(869 * 0x4000 * pow2(135) == 869 * one) by (nonlinear_arith)
                        requires
                            one == 0x4000 * pow2(135),
                    ;
                },
                Band::MHz915 => {
                    assert(hi.significand() == 916 * 0x4000);
                    assert(916 * 0x4000 * pow2(135) == 916 * one) by (nonlinear_arith)
                        requires
                            one == 0x4000 * pow2(135),
                    ;
                },
            }
        }
    }
    frequency.is_strictly_within(low, high)
}

/// Get the band whose power table a frequency in MHz is served from.
///
/// Frequency must be within 1 MHz of 315/433/868/915 MHz.
pub fn get_band(frequency: &Binary32) -> (r: Result<Band, CC1101Error>)
    ensures
        match r {
            Ok(band) => band_of(*frequency) == Some(band),
            Err(e) => band_of(*frequency) is None && e == CC1101Error::Config(
                ConfigError::InvalidFrequency,
            ),
        },
{
    if is_frequency_near(frequency, Band::MHz315) {
        Ok(Band::MHz315)
    } else if is_frequency_near(frequency, Band::MHz433) {
        Ok(Band::MHz433)
    } else if is_frequency_near(frequency, Band::MHz868) {
        Ok(Band::MHz868)
    } else if is_frequency_near(frequency, Band::MHz915) {
        Ok(Band::MHz915)
    } else {
        Err(CC1101Error::Config(ConfigError::InvalidFrequency))
    }
}

/// Look a power in dBm up in a table: the byte of the first row that gives
/// it.
pub fn power_to_byte(table: &Vec<PowerLevel>, tx_power: &Binary32) -> (r: Result<
    u8,
    CC1101Error,
>)
    ensures
        power_lookup(table@, *tx_power, r),
{
    let mut i: usize = 0;
    while i < table.len()
        invariant
            i <= table@.len(),
            no_power_before(table@, *tx_power, i as int),
        decreases table@.len() - i,
    {
        let row = table[i];
        if is_within_epsilon(&row.dbm, tx_power) {
            assert(first_with_power(table@, *tx_power, i as int));
            return Ok(row.byte);
        }
        i += 1;
    }
    Err(CC1101Error::Config(ConfigError::InvalidTXPower))
}

/// Look a byte up in a table: the power in dBm of the first row that holds
/// it.
pub fn byte_to_power(table: &Vec<PowerLevel>, byte: u8) -> (r: Result<Binary32, CC1101Error>)
    ensures
        byte_lookup(table@, byte, r),
{
    let mut i: usize = 0;
    while i < table.len()
        invariant
            i <= table@.len(),
            no_byte_before(table@, byte, i as int),
        decreases table@.len() - i,
    {
        let row = table[i];
        if row.byte == byte {
            assert(first_with_byte(table@, byte, i as int));
            return Ok(row.dbm);
        }
        i += 1;
    }
    Err(CC1101Error::Config(ConfigError::InvalidTXPower))
}

/// Of a table whose rows can be told apart, every row is found again: its
/// power gives its byte, and its byte gives its power.
pub proof fn lemma_power_round_trip(
    table: Seq<PowerLevel>,
    row: int,
    byte: Result<u8, CC1101Error>,
    dbm: Result<Binary32, CC1101Error>,
)
    requires
        distinct_rows(table),
        0 <= row < table.len(),
        power_lookup(table, table[row].dbm, byte),
        byte_lookup(table, table[row].byte, dbm),
    ensures
        byte == Ok::<u8, CC1101Error>(table[row].byte),
        dbm == Ok::<Binary32, CC1101Error>(table[row].dbm),
{
    lemma_pow2_strictly_increases(101, 126);
    assert(within_epsilon(table[row].dbm, table[row].dbm));
    match byte {
        Ok(b) => {
            let n = choose|n: int| #[trigger]
                first_with_power(table, table[row].dbm, n) && table[n].byte == b;
            if n < row {
                assert(!within_epsilon(table[n].dbm, table[row].dbm));
            }
            if n > row {
                assert(!within_epsilon(table[row].dbm, table[row].dbm));
            }
            assert(n == row);
        },
        Err(_) => {
            assert(!within_epsilon(table[row].dbm, table[row].dbm));
        },
    }
    match dbm {
        Ok(d) => {
            let n = choose|n: int| #[trigger]
                first_with_byte(table, table[row].byte, n) && table[n].dbm == d;
            if n < row {
                assert(table[n].byte != table[row].byte);
            }
            if n > row {
                assert(table[row].byte != table[row].byte);
            }
            assert(n == row);
        },
        Err(_) => {
            assert(table[row].byte != table[row].byte);
        },
    }
}

/// A frequency that is 1 MHz or more away from the centres of all four bands
/// has no band, so that every lookup for it fails with `InvalidFrequency`.
pub proof fn lemma_far_frequency_has_no_band(frequency: Binary32)
    requires
        forall|band: Band| !frequency_near(frequency, band),
    ensures
        band_of(frequency) is None,
{
    assert(!frequency_near(frequency, Band::MHz315));
    assert(!frequency_near(frequency, Band::MHz433));
    assert(!frequency_near(frequency, Band::MHz868));
    assert(!frequency_near(frequency, Band::MHz915));
}

} // verus!
