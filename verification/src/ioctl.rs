//! The outcome of each control request of the driver.
//!
//! A control request returns a status and, for the requests that read, a
//! value. Each function here takes both as the caller got them from the
//! device, together with the error codes of the platform, and gives the
//! value or the failure that the status stands for.
use vstd::prelude::*;

use crate::config::{RXConfig, RXFields, Registers, RegistersType, TXConfig, TXFields};
use crate::errors::{classify_ioctl, ioctl_failure, ErrorCodes, Ioctl};
use crate::{CC1101Error, DeviceError};

verus! {

/// What a control request gives: the value when the status is zero, else the
/// failure that the status stands for.
pub open spec fn outcome<T>(request: Ioctl, status: i32, value: T, codes: ErrorCodes) -> Result<
    T,
    CC1101Error,
> {
    match ioctl_failure(request, status, codes) {
        None => Ok(value),
        Some(e) => Err(CC1101Error::Device(e)),
    }
}

/// The request that reads a register snapshot of the given type.
pub open spec fn registers_request(config_type: RegistersType) -> Ioctl {
    match config_type {
        RegistersType::Device => Ioctl::GetDevRawConf,
        RegistersType::Tx => Ioctl::GetTXRawConf,
        RegistersType::Rx => Ioctl::GetRXRawConf,
    }
}

/// The protocol version that the driver reported.
pub fn get_version(status: i32, version: u32, codes: &ErrorCodes) -> (r: Result<u32, CC1101Error>)
    ensures
        r == outcome(Ioctl::GetVersion, status, version, *codes),
{
    match classify_ioctl(Ioctl::GetVersion, status, codes) {
        None => Ok(version),
        Some(e) => Err(CC1101Error::Device(e)),
    }
}

/// The outcome of a reset.
pub fn reset(status: i32, codes: &ErrorCodes) -> (r: Result<(), CC1101Error>)
    ensures
        r == outcome(Ioctl::Reset, status, (), *codes),
{
    match classify_ioctl(Ioctl::Reset, status, codes) {
        None => Ok(()),
        Some(e) => Err(CC1101Error::Device(e)),
    }
}

/// The register snapshot that the driver reported.
pub fn get_registers(
    status: i32,
    config_type: RegistersType,
    config: Registers,
    codes: &ErrorCodes,
) -> (r: Result<Registers, CC1101Error>)
    ensures
        r == outcome(registers_request(config_type), status, config, *codes),
{
    let request = match config_type {
        RegistersType::Device => Ioctl::GetDevRawConf,
        RegistersType::Tx => Ioctl::GetTXRawConf,
        RegistersType::Rx => Ioctl::GetRXRawConf,
    };

    match classify_ioctl(request, status, codes) {
        None => Ok(config),
        Some(e) => Err(CC1101Error::Device(e)),
    }
}

/// What a control request that reads a configuration gives: the failure that
/// the status stands for, else the configuration with the registers that were
/// read, else, where they are no configuration, the failure `Unknown`.
pub open spec fn configuration<T>(
    request: Ioctl,
    status: i32,
    config: Option<T>,
    codes: ErrorCodes,
) -> Result<T, CC1101Error> {
    match ioctl_failure(request, status, codes) {
        Some(e) => Err(CC1101Error::Device(e)),
        None => match config {
            Some(c) => Ok(c),
            None => Err(CC1101Error::Device(DeviceError::Unknown)),
        },
    }
}

/// The transmit configuration that the driver reported.
pub fn get_tx_conf(status: i32, tx_config: &TXFields, codes: &ErrorCodes) -> (r: Result<
    TXConfig,
    CC1101Error,
>)
    ensures
        r == configuration(Ioctl::GetTXConf, status, TXConfig::with_fields(*tx_config), *codes),
{
    match classify_ioctl(Ioctl::GetTXConf, status, codes) {
        None => match TXConfig::from_fields(tx_config) {
            Some(config) => Ok(config),
            None => Err(CC1101Error::Device(DeviceError::Unknown)),
        },
        Some(e) => Err(CC1101Error::Device(e)),
    }
}

/// The receive configuration that the driver reported.
pub fn get_rx_conf(status: i32, rx_config: &RXFields, codes: &ErrorCodes) -> (r: Result<
    RXConfig,
    CC1101Error,
>)
    ensures
        r == configuration(Ioctl::GetRXConf, status, RXConfig::with_fields(*rx_config), *codes),
{
    match classify_ioctl(Ioctl::GetRXConf, status, codes) {
        None => match RXConfig::from_fields(rx_config) {
            Some(config) => Ok(config),
            None => Err(CC1101Error::Device(DeviceError::Unknown)),
        },
        Some(e) => Err(CC1101Error::Device(e)),
    }
}

/// The outcome of setting the receive configuration.
pub fn set_rx_conf(status: i32, codes: &ErrorCodes) -> (r: Result<(), CC1101Error>)
    ensures
        r == outcome(Ioctl::SetRXConf, status, (), *codes),
{
    match classify_ioctl(Ioctl::SetRXConf, status, codes) {
        None => Ok(()),
        Some(e) => Err(CC1101Error::Device(e)),
    }
}

/// The outcome of setting the transmit configuration.
pub fn set_tx_conf(status: i32, codes: &ErrorCodes) -> (r: Result<(), CC1101Error>)
    ensures
        r == outcome(Ioctl::SetTXConf, status, (), *codes),
{
    match classify_ioctl(Ioctl::SetTXConf, status, codes) {
        None => Ok(()),
        Some(e) => Err(CC1101Error::Device(e)),
    }
}

/// The signal strength that the driver reported.
pub fn get_rssi(status: i32, rssi: u8, codes: &ErrorCodes) -> (r: Result<u8, CC1101Error>)
    ensures
        r == outcome(Ioctl::GetRSSI, status, rssi, *codes),
{
    match classify_ioctl(Ioctl::GetRSSI, status, codes) {
        None => Ok(rssi),
        Some(e) => Err(CC1101Error::Device(e)),
    }
}

/// The maximum packet size that the driver reported.
pub fn get_max_packet_size(status: i32, max_packet_size: u32, codes: &ErrorCodes) -> (r: Result<
    u32,
    CC1101Error,
>)
    ensures
        r == outcome(Ioctl::GetMaxPacketSize, status, max_packet_size, *codes),
{
    match classify_ioctl(Ioctl::GetMaxPacketSize, status, codes) {
        None => Ok(max_packet_size),
        Some(e) => Err(CC1101Error::Device(e)),
    }
}

} // verus!
