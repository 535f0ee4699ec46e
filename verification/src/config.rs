//! Configuration settings for the CC1101 radio
//!
//! The [`RXConfig`] and [`TXConfig`] structs are used to control the receive and transmit configuration of the CC1101.
//!
//! A configuration holds register encodings, never physical values: every
//! setter converts its argument and stores the result only when the
//! conversion succeeds. The mathematical model of a configuration is the
//! image of its registers, [`CommonFields`], [`RXFields`] or [`TXFields`].
use vstd::prelude::*;

use crate::{CC1101Error, ConfigError};

pub use registers::Registers;

pub mod bandwidth;
pub mod baud_rate;
pub mod construct;
pub mod deviation;
pub mod deviation_values;
pub mod frequency;
pub mod registers;
pub mod sync_word;
pub mod tx_power;

verus! {

/// Radio modulation mode
#[derive(Debug, Copy, Clone, PartialEq, Eq, Structural)]
pub enum Modulation {
    /// Frequency Shift Keying (2 Frequencies)
    FSK2,
    /// Gaussian Shaped Frequency Shift Keying
    GFSK,
    /// On-Off Keying
    OOK,
    /// Frequency Shift Keying (4 Frequencies)
    FSK4,
    /// Minimum Shift Keying
    MSK,
}

impl Modulation {
    /// The value of the modulation format field that selects this modulation.
    pub open spec fn code_spec(self) -> u8 {
        match self {
            Modulation::FSK2 => 0,
            Modulation::GFSK => 1,
            Modulation::OOK => 3,
            Modulation::FSK4 => 4,
            Modulation::MSK => 7,
        }
    }

    /// The modulation that a field value selects, if any.
    pub open spec fn from_code_spec(code: u8) -> Option<Modulation> {
        if code == 0 {
            Some(Modulation::FSK2)
        } else if code == 1 {
            Some(Modulation::GFSK)
        } else if code == 3 {
            Some(Modulation::OOK)
        } else if code == 4 {
            Some(Modulation::FSK4)
        } else if code == 7 {
            Some(Modulation::MSK)
        } else {
            None
        }
    }

    /// The value of the modulation format field that selects this modulation.
    pub fn code(self) -> (r: u8)
        ensures
            r == self.code_spec(),
    {
        match self {
            Modulation::FSK2 => 0,
            Modulation::GFSK => 1,
            Modulation::OOK => 3,
            Modulation::FSK4 => 4,
            Modulation::MSK => 7,
        }
    }

    /// The modulation that a field value selects, if any.
    pub fn from_code(code: u8) -> (r: Option<Modulation>)
        ensures
            r == Modulation::from_code_spec(code),
            r matches Some(m) ==> m.code_spec() == code,
            r is None <==> forall|m: Modulation| m.code_spec() != code,
    {
        if code == 0 {
            Some(Modulation::FSK2)
        } else if code == 1 {
            Some(Modulation::GFSK)
        } else if code == 3 {
            Some(Modulation::OOK)
        } else if code == 4 {
            Some(Modulation::FSK4)
        } else if code == 7 {
            Some(Modulation::MSK)
        } else {
            None
        }
    }
}

/// The condition on the received signal strength that starts reception.
#[derive(Debug, Copy, Clone, PartialEq, Eq, Structural)]
pub enum CarrierSense {
    /// A sudden rise of the signal strength by at least this many dB.
    Relative(i8),
    /// The signal strength crosses the target amplitude offset by this many dB.
    Absolute(i8),
}

/// How the carrier sense threshold of a receive configuration is read.
#[derive(Debug, Copy, Clone, PartialEq, Eq, Structural)]
pub enum CarrierSenseMode {
    Disabled,
    Relative,
    Absolute,
}

impl CarrierSenseMode {
    /// The value of the carrier sense mode field.
    pub open spec fn code_spec(self) -> u8 {
        match self {
            CarrierSenseMode::Disabled => 0,
            CarrierSenseMode::Relative => 1,
            CarrierSenseMode::Absolute => 2,
        }
    }

    /// The mode that a field value selects, if any.
    pub open spec fn from_code_spec(code: u8) -> Option<CarrierSenseMode> {
        if code == 0 {
            Some(CarrierSenseMode::Disabled)
        } else if code == 1 {
            Some(CarrierSenseMode::Relative)
        } else if code == 2 {
            Some(CarrierSenseMode::Absolute)
        } else {
            None
        }
    }

    /// The value of the carrier sense mode field.
    pub fn code(self) -> (r: u8)
        ensures
            r == self.code_spec(),
    {
        match self {
            CarrierSenseMode::Disabled => 0,
            CarrierSenseMode::Relative => 1,
            CarrierSenseMode::Absolute => 2,
        }
    }

    /// The mode that a field value selects, if any.
    pub fn from_code(code: u8) -> (r: Option<CarrierSenseMode>)
        ensures
            r == CarrierSenseMode::from_code_spec(code),
            r matches Some(m) ==> m.code_spec() == code,
            r is None <==> forall|m: CarrierSenseMode| m.code_spec() != code,
    {
        if code == 0 {
            Some(CarrierSenseMode::Disabled)
        } else if code == 1 {
            Some(CarrierSenseMode::Relative)
        } else if code == 2 {
            Some(CarrierSenseMode::Absolute)
        } else {
            None
        }
    }
}

/// Device / driver register types
#[derive(Debug, Copy, Clone, PartialEq, Eq, Structural)]
pub enum RegistersType {
    /// Hardware registers
    Device,
    /// Driver transmit configuration registers
    Tx,
    /// Driver receive configuration registers
    Rx,
}

/// The register image of the values shared between transmit and receive, in
/// the order in which the driver lays them out.
#[derive(Debug, Copy, Clone, PartialEq, Eq, Structural)]
pub struct CommonFields {
    pub frequency: u32,
    pub modulation: u8,
    pub baud_rate_mantissa: u8,
    pub baud_rate_exponent: u8,
    pub deviation_mantissa: u8,
    pub deviation_exponent: u8,
    pub sync_word: u32,
}

/// The register image of a receive configuration, in the order in which the
/// driver lays it out.
#[derive(Debug, Copy, Clone, PartialEq, Eq, Structural)]
pub struct RXFields {
    pub common: CommonFields,
    pub bandwidth_mantissa: u8,
    pub bandwidth_exponent: u8,
    pub max_lna_gain: u8,
    pub max_dvga_gain: u8,
    pub magn_target: u8,
    pub carrier_sense_mode: u8,
    pub carrier_sense: i8,
    pub packet_length: u32,
}

/// The register image of a transmit configuration, in the order in which the
/// driver lays it out.
#[derive(Debug, Copy, Clone, PartialEq, Eq, Structural)]
pub struct TXFields {
    pub common: CommonFields,
    pub tx_power: u8,
}

/// Configuration values shared between transmit and receive
#[derive(Debug, Copy, Clone, PartialEq, Eq, Structural)]
pub struct CommonConfig {
    frequency: u32,
    modulation: Modulation,
    baud_rate_mantissa: u8,
    baud_rate_exponent: u8,
    deviation_mantissa: u8,
    deviation_exponent: u8,
    sync_word: u32,
}

/// The length of the packets to receive: a number of bytes that is not zero.
#[derive(Debug, Copy, Clone, PartialEq, Eq, Structural)]
pub(crate) struct PacketLength {
    bytes: u32,
}

impl PacketLength {
    /// A packet length is never zero.
    #[verifier::type_invariant]
    pub(crate) closed spec fn is_positive(self) -> bool {
        self.bytes > 0
    }

    /// The number of bytes.
    pub(crate) closed spec fn bytes(self) -> u32 {
        self.bytes
    }

    /// The packet length of the given number of bytes.
    pub(crate) closed spec fn of(bytes: u32) -> PacketLength {
        PacketLength { bytes }
    }

    /// The packet length of the given number of bytes.
    pub(crate) fn new(bytes: u32) -> (r: PacketLength)
        requires
            bytes > 0,
        ensures
            r == PacketLength::of(bytes),
            r.bytes() == bytes,
    {
        PacketLength { bytes }
    }

    /// The number of bytes.
    pub(crate) fn get(&self) -> (r: u32)
        ensures
            r == self.bytes(),
            r > 0,
    {
        proof {
            use_type_invariant(self);
        }
        self.bytes
    }
}

/// Configuration values specific to receive
#[derive(Debug, Copy, Clone, PartialEq, Eq, Structural)]
pub struct RXConfig {
    common: CommonConfig,
    bandwidth_mantissa: u8,
    bandwidth_exponent: u8,
    max_lna_gain: u8,
    max_dvga_gain: u8,
    magn_target: u8,
    carrier_sense_mode: CarrierSenseMode,
    carrier_sense: i8,
    packet_length: PacketLength,
}

/// Configuration values specific to transmit
#[derive(Debug, Copy, Clone, PartialEq, Eq, Structural)]
pub struct TXConfig {
    common: CommonConfig,
    tx_power: u8,
}

impl View for CommonConfig {
    type V = CommonFields;

    closed spec fn view(&self) -> CommonFields {
        CommonFields {
            frequency: self.frequency,
            modulation: self.modulation.code_spec(),
            baud_rate_mantissa: self.baud_rate_mantissa,
            baud_rate_exponent: self.baud_rate_exponent,
            deviation_mantissa: self.deviation_mantissa,
            deviation_exponent: self.deviation_exponent,
            sync_word: self.sync_word,
        }
    }
}

impl View for RXConfig {
    type V = RXFields;

    closed spec fn view(&self) -> RXFields {
        RXFields {
            common: self.common@,
            bandwidth_mantissa: self.bandwidth_mantissa,
            bandwidth_exponent: self.bandwidth_exponent,
            max_lna_gain: self.max_lna_gain,
            max_dvga_gain: self.max_dvga_gain,
            magn_target: self.magn_target,
            carrier_sense_mode: self.carrier_sense_mode.code_spec(),
            carrier_sense: self.carrier_sense,
            packet_length: self.packet_length.bytes(),
        }
    }
}

impl View for TXConfig {
    type V = TXFields;

    closed spec fn view(&self) -> TXFields {
        TXFields { common: self.common@, tx_power: self.tx_power }
    }
}

/// The register image of the default shared values: 433.92 MHz, On-Off
/// Keying at 1 kBaud, a deviation of 47.607422 kHz and the sync word zero.
pub open spec fn default_common_fields() -> CommonFields {
    CommonFields {
        frequency: 0x10B071,
        modulation: 3,
        baud_rate_mantissa: 0x43,
        baud_rate_exponent: 0x05,
        deviation_mantissa: 0x07,
        deviation_exponent: 0x04,
        sync_word: 0,
    }
}

/// The register image of the default receive configuration: the default
/// shared values, a bandwidth of 203 kHz, no gain reduction, a target
/// amplitude of 33 dB, a relative carrier sense of 6 dB and packets of 1024
/// bytes.
pub open spec fn default_rx_fields() -> RXFields {
    RXFields {
        common: default_common_fields(),
        bandwidth_mantissa: 0x00,
        bandwidth_exponent: 0x02,
        max_lna_gain: 0,
        max_dvga_gain: 0,
        magn_target: 33,
        carrier_sense_mode: 1,
        carrier_sense: 6,
        packet_length: 1024,
    }
}

/// The register image of the default transmit configuration: the default
/// shared values and the power setting zero.
pub open spec fn default_tx_fields() -> TXFields {
    TXFields { common: default_common_fields(), tx_power: 0 }
}

impl Default for CommonConfig {
    fn default() -> (r: CommonConfig)
        ensures
            r@ == default_common_fields(),
            r@.well_formed(),
    {
        CommonConfig {
            frequency: 0x10B071,  // 433.92
            modulation: Modulation::OOK,
            baud_rate_mantissa: 0x43,  // 1.0 kBaud
            baud_rate_exponent: 0x05,
            deviation_mantissa: 0x07,  // 47.607422
            deviation_exponent: 0x04,
            sync_word: 0x0,
        }
    }
}

impl Default for RXConfig {
    fn default() -> (r: RXConfig)
        ensures
            r@ == default_rx_fields(),
            r@.well_formed(),
    {
        RXConfig {
            common: CommonConfig::default(),
            bandwidth_mantissa: 0x00,  // 203
            bandwidth_exponent: 0x02,
            max_lna_gain: 0,
            max_dvga_gain: 0,
            magn_target: 33,
            carrier_sense_mode: CarrierSenseMode::Relative,
            carrier_sense: 6,
            packet_length: PacketLength::new(1024),
        }
    }
}

impl Default for TXConfig {
    fn default() -> (r: TXConfig)
        ensures
            r@ == default_tx_fields(),
            r@.well_formed(),
    {
        TXConfig { common: CommonConfig::default(), tx_power: 0 }
    }
}

/// The reductions of the maximum LNA gain that the radio offers, in dB.
pub open spec fn valid_max_lna_gain(v: u8) -> bool {
    v == 0 || v == 3 || v == 6 || v == 7 || v == 9 || v == 12 || v == 15 || v == 17
}

/// The reductions of the maximum DVGA gain that the radio offers, in dB.
pub open spec fn valid_max_dvga_gain(v: u8) -> bool {
    v == 0 || v == 6 || v == 12 || v == 18
}

/// The target channel filter amplitudes that the radio offers, in dB.
pub open spec fn valid_magn_target(v: u8) -> bool {
    v == 24 || v == 27 || v == 30 || v == 33 || v == 36 || v == 38 || v == 40 || v == 42
}

/// The carrier sense settings that the radio offers: none, a relative
/// threshold of 6, 10 or 14 dB, or an absolute threshold from -7 to 7 dB.
pub open spec fn valid_carrier_sense(carrier_sense: Option<CarrierSense>) -> bool {
    match carrier_sense {
        Some(CarrierSense::Relative(v)) => v == 6 || v == 10 || v == 14,
        Some(CarrierSense::Absolute(v)) => -7 <= v <= 7,
        None => true,
    }
}

/// The carrier sense mode field that a setting is stored with.
pub open spec fn carrier_sense_mode_of(carrier_sense: Option<CarrierSense>) -> u8 {
    match carrier_sense {
        Some(CarrierSense::Relative(_)) => 1,
        Some(CarrierSense::Absolute(_)) => 2,
        None => 0,
    }
}

/// The carrier sense threshold field that a setting is stored with.
pub open spec fn carrier_sense_value_of(carrier_sense: Option<CarrierSense>) -> i8 {
    match carrier_sense {
        Some(CarrierSense::Relative(v)) => v,
        Some(CarrierSense::Absolute(v)) => v,
        None => 0,
    }
}

/// The carrier sense setting that a mode field and a threshold field stand
/// for. A mode field outside the three modes reads as disabled.
pub open spec fn carrier_sense_of(mode: u8, value: i8) -> Option<CarrierSense> {
    if mode == 1 {
        Some(CarrierSense::Relative(value))
    } else if mode == 2 {
        Some(CarrierSense::Absolute(value))
    } else {
        None
    }
}

impl CommonConfig {
    /// Get the current modulation
    pub fn get_modulation(&self) -> (r: Modulation)
        ensures
            r.code_spec() == self@.modulation,
    {
        self.modulation
    }

    /// The register image of the configuration.
    pub fn to_fields(&self) -> (r: CommonFields)
        ensures
            r == self@,
    {
        CommonFields {
            frequency: self.frequency,
            modulation: self.modulation.code(),
            baud_rate_mantissa: self.baud_rate_mantissa,
            baud_rate_exponent: self.baud_rate_exponent,
            deviation_mantissa: self.deviation_mantissa,
            deviation_exponent: self.deviation_exponent,
            sync_word: self.sync_word,
        }
    }

    /// The configuration with the given register image, if there is one:
    /// there is none when the modulation field selects no modulation.
    pub closed spec fn with_fields(fields: CommonFields) -> Option<CommonConfig> {
        match Modulation::from_code_spec(fields.modulation) {
            Some(modulation) => Some(
                CommonConfig {
                    frequency: fields.frequency,
                    modulation,
                    baud_rate_mantissa: fields.baud_rate_mantissa,
                    baud_rate_exponent: fields.baud_rate_exponent,
                    deviation_mantissa: fields.deviation_mantissa,
                    deviation_exponent: fields.deviation_exponent,
                    sync_word: fields.sync_word,
                },
            ),
            None => None,
        }
    }

    /// The configuration with the given register image, as it is read back
    /// from the driver. There is none when the modulation field selects no
    /// modulation. The fields are taken as they are, without validation.
    pub fn from_fields(fields: &CommonFields) -> (r: Option<CommonConfig>)
        ensures
            r == CommonConfig::with_fields(*fields),
            r matches Some(c) ==> c@ == *fields,
            r is Some <==> Modulation::from_code_spec(fields.modulation) is Some,
    {
        match Modulation::from_code(fields.modulation) {
            Some(modulation) => Some(
                CommonConfig {
                    frequency: fields.frequency,
                    modulation,
                    baud_rate_mantissa: fields.baud_rate_mantissa,
                    baud_rate_exponent: fields.baud_rate_exponent,
                    deviation_mantissa: fields.deviation_mantissa,
                    deviation_exponent: fields.deviation_exponent,
                    sync_word: fields.sync_word,
                },
            ),
            None => None,
        }
    }

    /// A configuration is the configuration with its register image.
    pub proof fn lemma_with_fields(self)
        ensures
            CommonConfig::with_fields(self@) == Some(self),
    {
    }

    /// Two configurations with the same register image are the same.
    pub proof fn lemma_view_injective(self, other: CommonConfig)
        requires
            self@ == other@,
        ensures
            self == other,
    {
    }
}

impl RXConfig {
    /// Get the common configuration elements
    pub fn get_common_config(&self) -> (r: &CommonConfig)
        ensures
            r@ == self@.common,
    {
        &self.common
    }

    /// Get a mutable reference to the common configuration elements
    pub fn get_common_config_mut(&mut self) -> (r: &mut CommonConfig)
        ensures
            r@ == old(self)@.common,
            final(self)@ == (RXFields { common: final(r)@, ..old(self)@ }),
    {
        &mut self.common
    }

    /// Sets the carrier sense threshold in dB.
    ///
    /// For [`CarrierSense::Relative`] an increase of 6, 10 or 14 dB can be specified. This will begin RX on a sudden increase in RSSI greather than or equal to this value.
    ///
    /// For [`CarrierSense::Absolute`] a value between -7 dB and 7 dB can be set. When RSSI exceeds `magn_target` +/- this value, packet RX will begin.
    /// `max_lna_gain` and `max_dvga_gain` will also require configuring to set the correct absolute RSSI value.
    ///
    /// [`None`] disables carrier sense.
    pub fn set_carrier_sense(&mut self, carrier_sense: Option<CarrierSense>) -> (r: Result<
        (),
        CC1101Error,
    >)
        ensures
            old(self)@.well_formed() ==> final(self)@.well_formed(),
            valid_carrier_sense(carrier_sense) ==> r == Ok::<(), CC1101Error>(()) && final(self)@
                == (RXFields {
                carrier_sense_mode: carrier_sense_mode_of(carrier_sense),
                carrier_sense: carrier_sense_value_of(carrier_sense),
                ..old(self)@
            }),
            !valid_carrier_sense(carrier_sense) ==> r == Err::<(), CC1101Error>(
                CC1101Error::Config(ConfigError::InvalidCarrierSense),
            ) && *final(self) == *old(self),
    {
        match carrier_sense {
            Some(CarrierSense::Relative(carrier_sense)) => {
                if carrier_sense == 6 || carrier_sense == 10 || carrier_sense == 14 {
                    self.carrier_sense_mode = CarrierSenseMode::Relative;
                    self.carrier_sense = carrier_sense;
                } else {
                    return Err(CC1101Error::Config(ConfigError::InvalidCarrierSense));
                }
            },
            Some(CarrierSense::Absolute(carrier_sense)) => {
                if -7 <= carrier_sense && carrier_sense <= 7 {
                    self.carrier_sense_mode = CarrierSenseMode::Absolute;
                    self.carrier_sense = carrier_sense;
                } else {
                    return Err(CC1101Error::Config(ConfigError::InvalidCarrierSense));
                }
            },
            None => {
                self.carrier_sense_mode = CarrierSenseMode::Disabled;
                self.carrier_sense = 0;
            },
        }
        Ok(())
    }

    /// Get the configured carrier sense
    pub fn get_carrier_sense(&self) -> (r: Option<CarrierSense>)
        ensures
            r == carrier_sense_of(self@.carrier_sense_mode, self@.carrier_sense),
    {
        match self.carrier_sense_mode {
            CarrierSenseMode::Disabled => None,
            CarrierSenseMode::Relative => Some(CarrierSense::Relative(self.carrier_sense)),
            CarrierSenseMode::Absolute => Some(CarrierSense::Absolute(self.carrier_sense)),
        }
    }

    /// Sets the amount to decrease the maximum LNA gain by approximately the specified amount in dB.
    /// Valid values are `0, 3, 6, 7, 9, 12, 15, 17`
    pub fn set_max_lna_gain(&mut self, max_lna_gain: u8) -> (r: Result<(), CC1101Error>)
        ensures
            old(self)@.well_formed() ==> final(self)@.well_formed(),
            valid_max_lna_gain(max_lna_gain) ==> r == Ok::<(), CC1101Error>(()) && final(self)@
                == (RXFields { max_lna_gain, ..old(self)@ }),
            !valid_max_lna_gain(max_lna_gain) ==> r == Err::<(), CC1101Error>(
                CC1101Error::Config(ConfigError::InvalidMaxLNAGain),
            ) && *final(self) == *old(self),
    {
        if max_lna_gain == 0 || max_lna_gain == 3 || max_lna_gain == 6 || max_lna_gain == 7
            || max_lna_gain == 9 || max_lna_gain == 12 || max_lna_gain == 15 || max_lna_gain
            == 17 {
            self.max_lna_gain = max_lna_gain;
        } else {
            return Err(CC1101Error::Config(ConfigError::InvalidMaxLNAGain));
        }
        Ok(())
    }

    /// Get the configured maximum LNA gain
    pub fn get_max_lna_gain(&self) -> (r: u8)
        ensures
            r == self@.max_lna_gain,
    {
        self.max_lna_gain
    }

    /// Sets the amount to decrease the maximum DVGA gain by approximately the specified amount in dB.
    /// Valid values are `0, 6, 12, 18`
    pub fn set_max_dvga_gain(&mut self, max_dvga_gain: u8) -> (r: Result<(), CC1101Error>)
        ensures
            old(self)@.well_formed() ==> final(self)@.well_formed(),
            valid_max_dvga_gain(max_dvga_gain) ==> r == Ok::<(), CC1101Error>(()) && final(self)@
                == (RXFields { max_dvga_gain, ..old(self)@ }),
            !valid_max_dvga_gain(max_dvga_gain) ==> r == Err::<(), CC1101Error>(
                CC1101Error::Config(ConfigError::InvalidMaxDVGAGain),
            ) && *final(self) == *old(self),
    {
        if max_dvga_gain == 0 || max_dvga_gain == 6 || max_dvga_gain == 12 || max_dvga_gain
            == 18 {
            self.max_dvga_gain = max_dvga_gain;
        } else {
            return Err(CC1101Error::Config(ConfigError::InvalidMaxDVGAGain));
        }
        Ok(())
    }

    /// Get the configured maximum DVGA gain
    pub fn get_max_dvga_gain(&self) -> (r: u8)
        ensures
            r == self@.max_dvga_gain,
    {
        self.max_dvga_gain
    }

    /// Sets the target channel filter amplitude in dB
    /// Valid values are `24, 27, 30, 33, 36, 38, 40, 42`
    pub fn set_magn_target(&mut self, magn_target: u8) -> (r: Result<(), CC1101Error>)
        ensures
            old(self)@.well_formed() ==> final(self)@.well_formed(),
            valid_magn_target(magn_target) ==> r == Ok::<(), CC1101Error>(()) && final(self)@
                == (RXFields { magn_target, ..old(self)@ }),
            !valid_magn_target(magn_target) ==> r == Err::<(), CC1101Error>(
                CC1101Error::Config(ConfigError::InvalidMagnTarget),
            ) && *final(self) == *old(self),
    {
        if magn_target == 24 || magn_target == 27 || magn_target == 30 || magn_target == 33
            || magn_target == 36 || magn_target == 38 || magn_target == 40 || magn_target == 42 {
            self.magn_target = magn_target;
        } else {
            return Err(CC1101Error::Config(ConfigError::InvalidMagnTarget));
        }
        Ok(())
    }

    /// Get the configured target channel filter amplitude
    pub fn get_magn_target(&self) -> (r: u8)
        ensures
            r == self@.magn_target,
    {
        self.magn_target
    }

    /// Set the length of packets to receive in bytes, which is not zero
    pub fn set_packet_length(&mut self, packet_length: u32)
        requires
            packet_length > 0,
        ensures
            old(self)@.well_formed() ==> final(self)@.well_formed(),
            final(self)@ == (RXFields { packet_length, ..old(self)@ }),
    {
        self.packet_length = PacketLength::new(packet_length)
    }

    /// Get the configured packet length
    pub fn get_packet_length(&self) -> (r: u32)
        ensures
            r == self@.packet_length,
            r > 0,
    {
        self.packet_length.get()
    }

    /// The register image of the configuration.
    pub fn to_fields(&self) -> (r: RXFields)
        ensures
            r == self@,
            r.packet_length > 0,
    {
        RXFields {
            common: self.common.to_fields(),
            bandwidth_mantissa: self.bandwidth_mantissa,
            bandwidth_exponent: self.bandwidth_exponent,
            max_lna_gain: self.max_lna_gain,
            max_dvga_gain: self.max_dvga_gain,
            magn_target: self.magn_target,
            carrier_sense_mode: self.carrier_sense_mode.code(),
            carrier_sense: self.carrier_sense,
            packet_length: self.packet_length.get(),
        }
    }

    /// The configuration with the given register image, if there is one:
    /// there is none when the modulation field or the carrier sense mode
    /// field selects nothing, or when the packet length is zero.
    pub closed spec fn with_fields(fields: RXFields) -> Option<RXConfig> {
        match (
            CommonConfig::with_fields(fields.common),
            CarrierSenseMode::from_code_spec(fields.carrier_sense_mode),
        ) {
            (Some(common), Some(carrier_sense_mode)) if fields.packet_length > 0 => Some(
                RXConfig {
                    common,
                    bandwidth_mantissa: fields.bandwidth_mantissa,
                    bandwidth_exponent: fields.bandwidth_exponent,
                    max_lna_gain: fields.max_lna_gain,
                    max_dvga_gain: fields.max_dvga_gain,
                    magn_target: fields.magn_target,
                    carrier_sense_mode,
                    carrier_sense: fields.carrier_sense,
                    packet_length: PacketLength::of(fields.packet_length),
                },
            ),
            _ => None,
        }
    }

    /// The configuration with the given register image, as it is read back
    /// from the driver. There is none when the modulation field or the
    /// carrier sense mode field selects nothing, or when the packet length is
    /// zero. The other fields are taken as they are, without validation.
    pub fn from_fields(fields: &RXFields) -> (r: Option<RXConfig>)
        ensures
            r == RXConfig::with_fields(*fields),
            r matches Some(c) ==> c@ == *fields,
            r is Some <==> Modulation::from_code_spec(fields.common.modulation) is Some
                && CarrierSenseMode::from_code_spec(fields.carrier_sense_mode) is Some
                && fields.packet_length > 0,
    {
        if fields.packet_length == 0 {
            return None;
        }
        let common = match CommonConfig::from_fields(&fields.common) {
            Some(common) => common,
            None => {
                return None;
            },
        };
        let carrier_sense_mode = match CarrierSenseMode::from_code(fields.carrier_sense_mode) {
            Some(mode) => mode,
            None => {
                return None;
            },
        };
        Some(
            RXConfig {
                common,
                bandwidth_mantissa: fields.bandwidth_mantissa,
                bandwidth_exponent: fields.bandwidth_exponent,
                max_lna_gain: fields.max_lna_gain,
                max_dvga_gain: fields.max_dvga_gain,
                magn_target: fields.magn_target,
                carrier_sense_mode,
                carrier_sense: fields.carrier_sense,
                packet_length: PacketLength::new(fields.packet_length),
            },
        )
    }

    /// A configuration is the configuration with its register image.
    pub proof fn lemma_with_fields(self)
        requires
            self@.packet_length > 0,
        ensures
            RXConfig::with_fields(self@) == Some(self),
    {
        self.common.lemma_with_fields();
    }

    /// Two configurations with the same register image are the same.
    pub proof fn lemma_view_injective(self, other: RXConfig)
        requires
            self@ == other@,
        ensures
            self == other,
    {
        self.common.lemma_view_injective(other.common);
    }
}

impl TXConfig {
    /// Get the common configuration elements
    pub fn get_common_config(&self) -> (r: &CommonConfig)
        ensures
            r@ == self@.common,
    {
        &self.common
    }

    /// Get a mutable reference to the common configuration elements
    pub fn get_common_config_mut(&mut self) -> (r: &mut CommonConfig)
        ensures
            r@ == old(self)@.common,
            final(self)@ == (TXFields { common: final(r)@, ..old(self)@ }),
    {
        &mut self.common
    }

    /// Set the TX power to a raw value which will be set in the devices PATABLE
    pub fn set_tx_power_raw(&mut self, tx_power: u8)
        ensures
            old(self)@.well_formed() ==> final(self)@.well_formed(),
            final(self)@ == (TXFields { tx_power, ..old(self)@ }),
    {
        self.tx_power = tx_power;
    }

    /// Get the TX power as raw value from the devices PATABLE
    pub fn get_tx_power_raw(&self) -> (r: u8)
        ensures
            r == self@.tx_power,
    {
        self.tx_power
    }

    /// The register image of the configuration.
    pub fn to_fields(&self) -> (r: TXFields)
        ensures
            r == self@,
    {
        TXFields { common: self.common.to_fields(), tx_power: self.tx_power }
    }

    /// The configuration with the given register image, if there is one:
    /// there is none when the modulation field selects no modulation.
    pub closed spec fn with_fields(fields: TXFields) -> Option<TXConfig> {
        match CommonConfig::with_fields(fields.common) {
            Some(common) => Some(TXConfig { common, tx_power: fields.tx_power }),
            None => None,
        }
    }

    /// The configuration with the given register image, as it is read back
    /// from the driver. There is none when the modulation field selects no
    /// modulation. The fields are taken as they are, without validation.
    pub fn from_fields(fields: &TXFields) -> (r: Option<TXConfig>)
        ensures
            r == TXConfig::with_fields(*fields),
            r matches Some(c) ==> c@ == *fields,
            r is Some <==> Modulation::from_code_spec(fields.common.modulation) is Some,
    {
        match CommonConfig::from_fields(&fields.common) {
            Some(common) => Some(TXConfig { common, tx_power: fields.tx_power }),
            None => None,
        }
    }
}

} // verus!
