//! The transmit power, as a power in dBm that a power table of the caller
//! turns into the byte of the radio.
use vstd::prelude::*;

use crate::binary32::Binary32;
use crate::config::construct::{common_error, common_holds};
use crate::config::frequency::{frequency_ticks, frequency_word};
use crate::config::{CommonConfig, Modulation, TXConfig, TXFields};
use crate::patable::{
    band_of, band_of_ticks, byte_lookup, byte_to_power, frequency_near, get_band,
    is_frequency_near, power_lookup, power_to_byte, Band, PowerLevel, PowerTables,
};
use crate::{CC1101Error, ConfigError};

verus! {

/// What looking a power in dBm up for a frequency in MHz gives: where no band
/// is near the frequency, the error `InvalidFrequency`; else what the table
/// of the band gives.
pub open spec fn power_to_config(
    tables: PowerTables,
    frequency: int,
    tx_power: Binary32,
    r: Result<u8, CC1101Error>,
) -> bool {
    match band_of_ticks(frequency) {
        None => r == Err::<u8, CC1101Error>(CC1101Error::Config(ConfigError::InvalidFrequency)),
        Some(band) => power_lookup(tables.of(band), tx_power, r),
    }
}

/// What looking a byte up for a frequency in MHz gives: where no band is near
/// the frequency, the error `InvalidFrequency`; else what the table of the
/// band gives.
pub open spec fn config_to_power(
    tables: PowerTables,
    frequency: int,
    byte: u8,
    r: Result<Binary32, CC1101Error>,
) -> bool {
    match band_of_ticks(frequency) {
        None => r == Err::<Binary32, CC1101Error>(
            CC1101Error::Config(ConfigError::InvalidFrequency),
        ),
        Some(band) => byte_lookup(tables.of(band), byte, r),
    }
}

impl TXConfig {
    /// Is a frequency close to the centre of a band
    pub fn frequency_near(frequency: Binary32, band: Band) -> (r: bool)
        ensures
            r == frequency_near(frequency, band),
    {
        is_frequency_near(&frequency, band)
    }

    /// Get the appropriate power table based on the provided frequency
    pub fn get_power_table(tables: &PowerTables, frequency: Binary32) -> (r: Result<
        &Vec<PowerLevel>,
        CC1101Error,
    >)
        ensures
            match r {
                Ok(table) => band_of(frequency) is Some && table@ == tables.of(
                    band_of(frequency)->0,
                ),
                Err(e) => band_of(frequency) is None && e == CC1101Error::Config(
                    ConfigError::InvalidFrequency,
                ),
            },
    {
        match get_band(&frequency) {
            Ok(band) => Ok(tables.table(band)),
            Err(e) => Err(e),
        }
    }

    /// Lookup a TX power in dBm in the appropriate power table.
    ///
    /// Frequency must be within 1MHz of 315/433/868/915Mhz
    pub fn tx_power_to_config(
        tables: &PowerTables,
        frequency: Binary32,
        tx_power: Binary32,
    ) -> (r: Result<u8, CC1101Error>)
        ensures
            frequency.nan() ==> r == Err::<u8, CC1101Error>(
                CC1101Error::Config(ConfigError::InvalidFrequency),
            ),
            !frequency.nan() ==> power_to_config(*tables, frequency.ticks(), tx_power, r),
    {
        let power_table = match TXConfig::get_power_table(tables, frequency) {
            Ok(table) => table,
            Err(e) => {
                return Err(e);
            },
        };
        power_to_byte(power_table, &tx_power)
    }

    /// Lookup a TX power PATABLE byte in the appropriate power table.
    ///
    /// Frequency must be within 1Mhz of 315/433/868/915Mhz
    pub fn config_to_tx_power(tables: &PowerTables, frequency: Binary32, tx_power: u8) -> (r:
        Result<Binary32, CC1101Error>)
        ensures
            frequency.nan() ==> r == Err::<Binary32, CC1101Error>(
                CC1101Error::Config(ConfigError::InvalidFrequency),
            ),
            !frequency.nan() ==> config_to_power(*tables, frequency.ticks(), tx_power, r),
    {
        let power_table = match TXConfig::get_power_table(tables, frequency) {
            Ok(table) => table,
            Err(e) => {
                return Err(e);
            },
        };
        byte_to_power(power_table, tx_power)
    }

    /// Create a new transmit configuration
    ///
    /// See [`CommonConfig`] for valid argument values.
    ///
    /// TX power is specified in dBm and looked up in the power table of the
    /// band of the frequency.
    ///
    /// Frequency must be close to 315/433/868/915Mhz
    pub fn new(
        frequency: Binary32,
        modulation: Modulation,
        baud_rate: Binary32,
        tx_power: Binary32,
        deviation: Option<Binary32>,
        sync_word: Option<u32>,
        tables: &PowerTables,
    ) -> (r: Result<TXConfig, CC1101Error>)
        ensures
            match r {
                Ok(config) => common_error(frequency, modulation, baud_rate, deviation, sync_word)
                    is None && common_holds(
                    config@.common,
                    frequency,
                    modulation,
                    baud_rate,
                    deviation,
                    sync_word,
                ) && power_to_config(
                    *tables,
                    frequency_ticks(config@.common.frequency) as int,
                    tx_power,
                    Ok(config@.tx_power),
                ) && config@.well_formed(),
                Err(e) => match common_error(
                    frequency,
                    modulation,
                    baud_rate,
                    deviation,
                    sync_word,
                ) {
                    Some(first) => e == CC1101Error::Config(first),
                    None => power_to_config(
                        *tables,
                        frequency_ticks(frequency_word(frequency) as u32) as int,
                        tx_power,
                        Err(e),
                    ),
                },
            },
    {
        let common = match CommonConfig::new(frequency, modulation, baud_rate, deviation, sync_word)
        {
            Ok(common) => common,
            Err(e) => {
                return Err(e);
            },
        };

        let mut tx_config = TXConfig { common, tx_power: 0 };

        match tx_config.set_tx_power(tx_power, tables) {
            Ok(()) => {},
            Err(e) => {
                return Err(e);
            },
        }

        Ok(tx_config)
    }

    /// Set the TX power to a value in dBm.
    ///
    /// Configured frequency must be within 1Mhz of 315/433/868/915Mhz
    pub fn set_tx_power(&mut self, tx_power: Binary32, tables: &PowerTables) -> (r: Result<
        (),
        CC1101Error,
    >)
        ensures
            old(self)@.well_formed() ==> final(self)@.well_formed(),
            match r {
                Ok(()) => power_to_config(
                    *tables,
                    frequency_ticks(old(self)@.common.frequency) as int,
                    tx_power,
                    Ok(final(self)@.tx_power),
                ) && final(self)@ == (TXFields { tx_power: final(self)@.tx_power, ..old(self)@ }),
                Err(e) => power_to_config(
                    *tables,
                    frequency_ticks(old(self)@.common.frequency) as int,
                    tx_power,
                    Err(e),
                ) && *final(self) == *old(self),
            },
    {
        match TXConfig::tx_power_to_config(tables, self.common.get_frequency(), tx_power) {
            Ok(byte) => {
                self.tx_power = byte;
                Ok(())
            },
            Err(e) => Err(e),
        }
    }

    /// Get the TX power in dBm.
    ///
    /// Configured frequency must be within 1MHz of 315/433/868/915Mhz
    pub fn get_tx_power(&self, tables: &PowerTables) -> (r: Result<Binary32, CC1101Error>)
        ensures
            config_to_power(
                *tables,
                frequency_ticks(self@.common.frequency) as int,
                self@.tx_power,
                r,
            ),
    {
        TXConfig::config_to_tx_power(tables, self.common.get_frequency(), self.tx_power)
    }
}

} // verus!
