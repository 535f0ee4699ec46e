//! Construction of configurations from physical values, and what holds of
//! every configuration that was built that way.
use vstd::prelude::*;

use crate::binary32::Binary32;
use crate::config::bandwidth::{bandwidth_registers, valid_bandwidth};
use crate::config::baud_rate::{baud_rate_exponent, baud_rate_mantissa, valid_baud_rate};
use crate::config::deviation::{deviation_registers, valid_deviation};
use crate::config::frequency::{frequency_in_band, frequency_word, valid_frequency_word};
use crate::config::sync_word::valid_sync_word;
use crate::config::{
    carrier_sense_mode_of, carrier_sense_of, carrier_sense_value_of, valid_carrier_sense,
    valid_magn_target, valid_max_dvga_gain, valid_max_lna_gain, CarrierSense, CarrierSenseMode,
    CommonConfig, CommonFields, Modulation, PacketLength, RXConfig, RXFields, TXConfig, TXFields,
};
use crate::{CC1101Error, ConfigError};

verus! {

impl CommonFields {
    /// Every register holds a value that a conversion can have produced: a
    /// frequency word of a legal band, a modulation, a baud rate exponent
    /// from 4 to 14, a deviation of three bits each and a valid sync word.
    pub open spec fn well_formed(self) -> bool {
        &&& valid_frequency_word(self.frequency as int)
        &&& Modulation::from_code_spec(self.modulation) is Some
        &&& 4 <= self.baud_rate_exponent <= 14
        &&& self.deviation_mantissa < 8
        &&& self.deviation_exponent < 8
        &&& valid_sync_word(self.sync_word)
    }
}

impl RXFields {
    /// The shared registers are well formed, the bandwidth has two bits each,
    /// the gains, the target amplitude and the carrier sense are among those
    /// that the radio offers, and the packet length is not zero.
    pub open spec fn well_formed(self) -> bool {
        &&& self.common.well_formed()
        &&& self.bandwidth_mantissa < 4
        &&& self.bandwidth_exponent < 4
        &&& valid_max_lna_gain(self.max_lna_gain)
        &&& valid_max_dvga_gain(self.max_dvga_gain)
        &&& valid_magn_target(self.magn_target)
        &&& CarrierSenseMode::from_code_spec(self.carrier_sense_mode) is Some
        &&& valid_carrier_sense(carrier_sense_of(self.carrier_sense_mode, self.carrier_sense))
        &&& self.carrier_sense_mode == 0 ==> self.carrier_sense == 0
        &&& self.packet_length > 0
    }
}

impl TXFields {
    /// The shared registers are well formed. Every power setting is a
    /// setting of the radio.
    pub open spec fn well_formed(self) -> bool {
        self.common.well_formed()
    }
}

/// The first argument of a shared configuration that is refused, in the order
/// in which they are converted: frequency, modulation and baud rate, sync
/// word, deviation.
pub open spec fn common_error(
    frequency: Binary32,
    modulation: Modulation,
    baud_rate: Binary32,
    deviation: Option<Binary32>,
    sync_word: Option<u32>,
) -> Option<ConfigError> {
    if !frequency_in_band(frequency) {
        Some(ConfigError::InvalidFrequency)
    } else if !valid_baud_rate(modulation, baud_rate) {
        Some(ConfigError::InvalidBaudRate)
    } else if sync_word is Some && !valid_sync_word(sync_word->0) {
        Some(ConfigError::InvalidSyncWord)
    } else if deviation is Some && !valid_deviation(deviation->0) {
        Some(ConfigError::InvalidDeviation)
    } else {
        None
    }
}

/// The registers hold the conversions of the arguments of a shared
/// configuration. Without a sync word the sync word is zero; without a
/// deviation the deviation is the default one.
pub open spec fn common_holds(
    fields: CommonFields,
    frequency: Binary32,
    modulation: Modulation,
    baud_rate: Binary32,
    deviation: Option<Binary32>,
    sync_word: Option<u32>,
) -> bool {
    &&& fields.frequency == frequency_word(frequency)
    &&& fields.modulation == modulation.code_spec()
    &&& fields.baud_rate_mantissa == baud_rate_mantissa(baud_rate)
    &&& fields.baud_rate_exponent == baud_rate_exponent(baud_rate)
    &&& fields.sync_word == match sync_word {
        Some(word) => word,
        None => 0,
    }
    &&& match deviation {
        Some(d) => deviation_registers(d, fields.deviation_mantissa, fields.deviation_exponent),
        None => fields.deviation_mantissa == 0x07 && fields.deviation_exponent == 0x04,
    }
}

/// The first setting of a receive configuration that is refused, after the
/// shared arguments were accepted, in the order in which they are set:
/// carrier sense, bandwidth, LNA gain, DVGA gain, target amplitude.
pub open spec fn receive_error(
    bandwidth: Option<u32>,
    carrier_sense: Option<CarrierSense>,
    max_lna_gain: Option<u8>,
    max_dvga_gain: Option<u8>,
    magn_target: Option<u8>,
) -> Option<ConfigError> {
    if !valid_carrier_sense(carrier_sense) {
        Some(ConfigError::InvalidCarrierSense)
    } else if bandwidth is Some && !valid_bandwidth(bandwidth->0) {
        Some(ConfigError::InvalidBandwidth)
    } else if max_lna_gain is Some && !valid_max_lna_gain(max_lna_gain->0) {
        Some(ConfigError::InvalidMaxLNAGain)
    } else if max_dvga_gain is Some && !valid_max_dvga_gain(max_dvga_gain->0) {
        Some(ConfigError::InvalidMaxDVGAGain)
    } else if magn_target is Some && !valid_magn_target(magn_target->0) {
        Some(ConfigError::InvalidMagnTarget)
    } else {
        None
    }
}

/// The registers hold the settings of a receive configuration. A setting
/// that is not given keeps its default: a bandwidth of 203 kHz, no gain
/// reduction, a target amplitude of 33 dB.
pub open spec fn receive_holds(
    fields: RXFields,
    packet_length: u32,
    bandwidth: Option<u32>,
    carrier_sense: Option<CarrierSense>,
    max_lna_gain: Option<u8>,
    max_dvga_gain: Option<u8>,
    magn_target: Option<u8>,
) -> bool {
    &&& fields.packet_length == packet_length
    &&& fields.carrier_sense_mode == carrier_sense_mode_of(carrier_sense)
    &&& fields.carrier_sense == carrier_sense_value_of(carrier_sense)
    &&& match bandwidth {
        Some(b) => bandwidth_registers(b, fields.bandwidth_mantissa, fields.bandwidth_exponent),
        None => fields.bandwidth_mantissa == 0x00 && fields.bandwidth_exponent == 0x02,
    }
    &&& fields.max_lna_gain == match max_lna_gain {
        Some(v) => v,
        None => 0,
    }
    &&& fields.max_dvga_gain == match max_dvga_gain {
        Some(v) => v,
        None => 0,
    }
    &&& fields.magn_target == match magn_target {
        Some(v) => v,
        None => 33,
    }
}

impl CommonConfig {
    /// Create a new CommonConfig
    ///
    /// The arguments are converted in the order frequency, modulation and
    /// baud rate, sync word, deviation; the first that is refused gives the
    /// error.
    pub fn new(
        frequency: Binary32,
        modulation: Modulation,
        baud_rate: Binary32,
        deviation: Option<Binary32>,
        sync_word: Option<u32>,
    ) -> (r: Result<CommonConfig, CC1101Error>)
        ensures
            match r {
                Ok(config) => common_error(frequency, modulation, baud_rate, deviation, sync_word)
                    is None && common_holds(
                    config@,
                    frequency,
                    modulation,
                    baud_rate,
                    deviation,
                    sync_word,
                ) && config@.well_formed(),
                Err(e) => common_error(frequency, modulation, baud_rate, deviation, sync_word)
                    == Some(e->Config_0) && e is Config,
            },
    {
        let mut config = CommonConfig::default();
        match config.set_frequency(frequency) {
            Ok(()) => {},
            Err(e) => {
                return Err(e);
            },
        }
        match config.set_modulation_and_baud_rate(modulation, baud_rate) {
            Ok(()) => {},
            Err(e) => {
                return Err(e);
            },
        }

        let word: u32 = match sync_word {
            Some(sync_word) => sync_word,
            None => 0x00,
        };
        match config.set_sync_word(word) {
            Ok(()) => {},
            Err(e) => {
                return Err(e);
            },
        }

        if let Some(deviation) = deviation {
            match config.set_deviation(deviation) {
                Ok(()) => {},
                Err(e) => {
                    return Err(e);
                },
            }
        }

        Ok(config)
    }
}

impl RXConfig {
    /// Create a new receive configuration
    ///
    /// See [`CommonConfig`] for valid argument values.
    ///
    /// The shared arguments are converted first, then carrier sense,
    /// bandwidth, LNA gain, DVGA gain and target amplitude are set in this
    /// order; the first that is refused gives the error. The packet length
    /// is not zero.
    pub fn new(
        frequency: Binary32,
        modulation: Modulation,
        baud_rate: Binary32,
        packet_length: u32,
        deviation: Option<Binary32>,
        sync_word: Option<u32>,
        bandwidth: Option<u32>,
        carrier_sense: Option<CarrierSense>,
        max_lna_gain: Option<u8>,
        max_dvga_gain: Option<u8>,
        magn_target: Option<u8>,
    ) -> (r: Result<RXConfig, CC1101Error>)
        requires
            packet_length > 0,
        ensures
            match r {
                Ok(config) => common_error(frequency, modulation, baud_rate, deviation, sync_word)
                    is None && receive_error(
                    bandwidth,
                    carrier_sense,
                    max_lna_gain,
                    max_dvga_gain,
                    magn_target,
                ) is None && common_holds(
                    config@.common,
                    frequency,
                    modulation,
                    baud_rate,
                    deviation,
                    sync_word,
                ) && receive_holds(
                    config@,
                    packet_length,
                    bandwidth,
                    carrier_sense,
                    max_lna_gain,
                    max_dvga_gain,
                    magn_target,
                ) && config@.well_formed(),
                Err(e) => e is Config && Some(e->Config_0) == match common_error(
                    frequency,
                    modulation,
                    baud_rate,
                    deviation,
                    sync_word,
                ) {
                    Some(first) => Some(first),
                    None => receive_error(
                        bandwidth,
                        carrier_sense,
                        max_lna_gain,
                        max_dvga_gain,
                        magn_target,
                    ),
                },
            },
    {
        let common = match CommonConfig::new(frequency, modulation, baud_rate, deviation, sync_word)
        {
            Ok(common) => common,
            Err(e) => {
                return Err(e);
            },
        };

        let defaults = RXConfig::default();
        let mut rx_config = RXConfig {
            common,
            bandwidth_mantissa: defaults.bandwidth_mantissa,
            bandwidth_exponent: defaults.bandwidth_exponent,
            max_lna_gain: defaults.max_lna_gain,
            max_dvga_gain: defaults.max_dvga_gain,
            magn_target: defaults.magn_target,
            carrier_sense_mode: defaults.carrier_sense_mode,
            carrier_sense: defaults.carrier_sense,
            packet_length: PacketLength::new(packet_length),
        };

        match rx_config.set_carrier_sense(carrier_sense) {
            Ok(()) => {},
            Err(e) => {
                return Err(e);
            },
        }

        if let Some(bandwidth) = bandwidth {
            match rx_config.set_bandwidth(bandwidth) {
                Ok(()) => {},
                Err(e) => {
                    return Err(e);
                },
            }
        }

        if let Some(max_lna_gain) = max_lna_gain {
            match rx_config.set_max_lna_gain(max_lna_gain) {
                Ok(()) => {},
                Err(e) => {
                    return Err(e);
                },
            }
        }

        if let Some(max_dvga_gain) = max_dvga_gain {
            match rx_config.set_max_dvga_gain(max_dvga_gain) {
                Ok(()) => {},
                Err(e) => {
                    return Err(e);
                },
            }
        }

        if let Some(magn_target) = magn_target {
            match rx_config.set_magn_target(magn_target) {
                Ok(()) => {},
                Err(e) => {
                    return Err(e);
                },
            }
        }

        Ok(rx_config)
    }
}

impl TXConfig {
    /// Create a new transmit configuration using a TX power specified as a raw CC1101 PATABLE byte.
    ///
    /// Frequency can be any valid value.
    ///
    /// See [`CommonConfig`] for valid argument values.
    pub fn new_raw(
        frequency: Binary32,
        modulation: Modulation,
        baud_rate: Binary32,
        tx_power: u8,
        deviation: Option<Binary32>,
        sync_word: Option<u32>,
    ) -> (r: Result<TXConfig, CC1101Error>)
        ensures
            match r {
                Ok(config) => common_error(frequency, modulation, baud_rate, deviation, sync_word)
                    is None && common_holds(
                    config@.common,
                    frequency,
                    modulation,
                    baud_rate,
                    deviation,
                    sync_word,
                ) && config@.tx_power == tx_power && config@.well_formed(),
                Err(e) => common_error(frequency, modulation, baud_rate, deviation, sync_word)
                    == Some(e->Config_0) && e is Config,
            },
    {
        match CommonConfig::new(frequency, modulation, baud_rate, deviation, sync_word) {
            Ok(common) => Ok(TXConfig { common, tx_power }),
            Err(e) => Err(e),
        }
    }
}

} // verus!
