//! Configuration and session logic for the CC1101 sub-GHz packet radio as it is
//! presented by the CC1101 Linux driver.
//!
//! The CC1101 is a general purpose packet radio that operates in the Sub-GHz
//! Industrial, Scientific and Medical (ISM) bands (315/433/868/915 MHz). The
//! driver presents it as a character device and takes configurations in the
//! encoding of the registers of the radio.
//!
//! * [`config`] converts between physical units and register encodings and
//!   holds the validated receive and transmit configurations.
//! * [`patable`] selects the power table of a band and looks transmit powers
//!   up in it.
//! * [`errors`] and [`ioctl`] classify the error codes and the statuses that
//!   the driver answers with.
//! * [`session`] decides which requests a session sends to the driver, and
//!   when it pushes its receive configuration.
//! * [`binary32`], [`nearest`] and [`arith`] give single-precision numbers an
//!   exact meaning and compute with them on integers.
//!
//! The crate performs no I/O: the caller carries each request to the
//! character device and hands the reply back.
use vstd::prelude::*;

pub mod arith;
pub mod binary32;
pub mod config;
pub mod errors;
pub mod ioctl;
pub mod nearest;
pub mod patable;
pub mod session;

pub use session::CC1101;

verus! {

/// Errors encountered during communication with the CC1101 driver
#[derive(Debug, Clone, Copy, PartialEq, Eq, Structural)]
pub enum DeviceError {
    NoDevice,
    FileHandleClone,
    InvalidIOCTL,
    VersionMismatch,
    NoRXConfig,
    Busy,
    Copy,
    InvalidConfig,
    OutOfMemory,
    BufferEmpty,
    PacketSize,
    Unknown,
}

/// Errors caused by device configuration
#[derive(Debug, Clone, Copy, PartialEq, Eq, Structural)]
pub enum ConfigError {
    InvalidFrequency,
    InvalidBandwidth,
    InvalidCarrierSense,
    InvalidTXPower,
    InvalidBaudRate,
    InvalidDeviation,
    InvalidSyncWord,
    InvalidMaxLNAGain,
    InvalidMaxDVGAGain,
    InvalidMagnTarget,
}

/// Generic type for errors thrown by the module
#[derive(Debug, Clone, Copy, PartialEq, Eq, Structural)]
pub enum CC1101Error {
    Device(DeviceError),
    Config(ConfigError),
}

/// The protocol version of the driver that this crate speaks.
pub const VERSION: u32 = 4;

/// Compares the protocol version reported by the driver with [`VERSION`].
pub fn check_version(version: u32) -> (r: Result<(), CC1101Error>)
    ensures
        version == VERSION ==> r == Ok::<(), CC1101Error>(()),
        version != VERSION ==> r == Err::<(), CC1101Error>(
            CC1101Error::Device(DeviceError::VersionMismatch),
        ),
{
    if version != VERSION {
        return Err(CC1101Error::Device(DeviceError::VersionMismatch));
    }
    Ok(())
}

} // verus!
