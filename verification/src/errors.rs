//! Classification of the error codes of the operating system.
//!
//! The driver reports failures as error codes of the operating system, and
//! each platform numbers them in its own way. The codes that the driver uses
//! are gathered in [`ErrorCodes`]; every classification takes them as an
//! argument and tries them in a fixed order, so that it is defined whatever
//! the numbers are.
use vstd::prelude::*;

use crate::DeviceError;

verus! {

/// The error codes that the driver answers with, as the platform numbers
/// them.
#[derive(Debug, Copy, Clone, PartialEq, Eq, Structural)]
pub struct ErrorCodes {
    /// Input/output error.
    pub eio: i32,
    /// Bad address.
    pub efault: i32,
    /// Invalid argument.
    pub einval: i32,
    /// Out of memory.
    pub enomem: i32,
    /// Device or resource busy.
    pub ebusy: i32,
    /// No message of the desired type.
    pub enomsg: i32,
    /// Message too long.
    pub emsgsize: i32,
}

/// The control requests of the driver.
#[derive(Debug, Copy, Clone, PartialEq, Eq, Structural)]
pub enum Ioctl {
    GetVersion,
    Reset,
    SetTXConf,
    SetRXConf,
    GetTXConf,
    GetTXRawConf,
    GetRXConf,
    GetRXRawConf,
    GetDevRawConf,
    GetRSSI,
    GetMaxPacketSize,
}

/// The type character of the control requests of the driver.
pub const DEVICE_CHARACTER: u8 = 0x63;

impl Ioctl {
    /// The number of the request.
    pub open spec fn number_spec(self) -> u8 {
        match self {
            Ioctl::GetVersion => 0,
            Ioctl::Reset => 1,
            Ioctl::SetTXConf => 2,
            Ioctl::SetRXConf => 3,
            Ioctl::GetTXConf => 4,
            Ioctl::GetTXRawConf => 5,
            Ioctl::GetRXConf => 6,
            Ioctl::GetRXRawConf => 7,
            Ioctl::GetDevRawConf => 8,
            Ioctl::GetRSSI => 9,
            Ioctl::GetMaxPacketSize => 10,
        }
    }

    /// The number of the request.
    pub fn number(self) -> (r: u8)
        ensures
            r == self.number_spec(),
    {
        match self {
            Ioctl::GetVersion => 0,
            Ioctl::Reset => 1,
            Ioctl::SetTXConf => 2,
            Ioctl::SetRXConf => 3,
            Ioctl::GetTXConf => 4,
            Ioctl::GetTXRawConf => 5,
            Ioctl::GetRXConf => 6,
            Ioctl::GetRXRawConf => 7,
            Ioctl::GetDevRawConf => 8,
            Ioctl::GetRSSI => 9,
            Ioctl::GetMaxPacketSize => 10,
        }
    }
}

/// The codes of the platform that the library was built for, as the `libc`
/// crate defines the constants `EIO`, `EFAULT`, `EINVAL`, `ENOMEM`, `EBUSY`,
/// `ENOMSG` and `EMSGSIZE`. Nothing is claimed of their values.
#[verifier::external_body]
pub(crate) fn platform_error_codes() -> (codes: ErrorCodes) {
    ErrorCodes {
        eio: libc::EIO,
        efault: libc::EFAULT,
        einval: libc::EINVAL,
        enomem: libc::ENOMEM,
        ebusy: libc::EBUSY,
        enomsg: libc::ENOMSG,
        emsgsize: libc::EMSGSIZE,
    }
}

/// The failure that the status of a control request stands for. Zero is
/// success. The codes are tried in the order input/output error, bad
/// address, invalid argument, out of memory; the last three only for the
/// requests that can give them.
pub open spec fn ioctl_failure(request: Ioctl, status: i32, codes: ErrorCodes) -> Option<
    DeviceError,
> {
    if status == 0 {
        None
    } else if status == codes.eio {
        Some(DeviceError::InvalidIOCTL)
    } else if (request == Ioctl::SetRXConf || request == Ioctl::SetTXConf) && status
        == codes.efault {
        Some(DeviceError::Copy)
    } else if (request == Ioctl::SetRXConf || request == Ioctl::SetTXConf) && status
        == codes.einval {
        Some(DeviceError::InvalidConfig)
    } else if request == Ioctl::SetRXConf && status == codes.enomem {
        Some(DeviceError::OutOfMemory)
    } else {
        Some(DeviceError::Unknown)
    }
}

/// The failure that the error code of opening the device stands for.
pub open spec fn open_failure(code: Option<i32>, codes: ErrorCodes) -> DeviceError {
    if code == Some(codes.ebusy) {
        DeviceError::Busy
    } else {
        DeviceError::Unknown
    }
}

/// The failure that the error code of reading a packet stands for. There is
/// none when the code says that no packet is left. The codes are tried in the
/// order no message, message too long, busy, invalid argument, bad address.
pub open spec fn read_failure(code: Option<i32>, codes: ErrorCodes) -> Option<DeviceError> {
    if code == Some(codes.enomsg) {
        None
    } else if code == Some(codes.emsgsize) {
        Some(DeviceError::PacketSize)
    } else if code == Some(codes.ebusy) {
        Some(DeviceError::Busy)
    } else if code == Some(codes.einval) {
        Some(DeviceError::InvalidConfig)
    } else if code == Some(codes.efault) {
        Some(DeviceError::Copy)
    } else {
        Some(DeviceError::Unknown)
    }
}

/// The failure that the error code of writing a packet stands for. The codes
/// are tried in the order invalid argument, out of memory, bad address.
pub open spec fn write_failure(code: Option<i32>, codes: ErrorCodes) -> DeviceError {
    if code == Some(codes.einval) {
        DeviceError::PacketSize
    } else if code == Some(codes.enomem) {
        DeviceError::OutOfMemory
    } else if code == Some(codes.efault) {
        DeviceError::Copy
    } else {
        DeviceError::Unknown
    }
}

/// Classify the status of a control request.
pub fn classify_ioctl(request: Ioctl, status: i32, codes: &ErrorCodes) -> (r: Option<DeviceError>)
    ensures
        r == ioctl_failure(request, status, *codes),
{
    let sets_config = match request {
        Ioctl::SetRXConf => true,
        Ioctl::SetTXConf => true,
        _ => false,
    };
    let sets_receive = match request {
        Ioctl::SetRXConf => true,
        _ => false,
    };
    if status == 0 {
        None
    } else if status == codes.eio {
        Some(DeviceError::InvalidIOCTL)
    } else if sets_config && status == codes.efault {
        Some(DeviceError::Copy)
    } else if sets_config && status == codes.einval {
        Some(DeviceError::InvalidConfig)
    } else if sets_receive && status == codes.enomem {
        Some(DeviceError::OutOfMemory)
    } else {
        Some(DeviceError::Unknown)
    }
}

/// Whether an error code, if there is one, is the given code.
fn is_code(code: Option<i32>, expected: i32) -> (r: bool)
    ensures
        r == (code == Some(expected)),
{
    match code {
        Some(c) => c == expected,
        None => false,
    }
}

/// Classify the error code of opening the device.
pub fn classify_open(code: Option<i32>, codes: &ErrorCodes) -> (r: DeviceError)
    ensures
        r == open_failure(code, *codes),
{
    if is_code(code, codes.ebusy) {
        DeviceError::Busy
    } else {
        DeviceError::Unknown
    }
}

/// Classify the error code of reading a packet.
pub fn classify_read(code: Option<i32>, codes: &ErrorCodes) -> (r: Option<DeviceError>)
    ensures
        r == read_failure(code, *codes),
{
    if is_code(code, codes.enomsg) {
        None
    } else if is_code(code, codes.emsgsize) {
        Some(DeviceError::PacketSize)
    } else if is_code(code, codes.ebusy) {
        Some(DeviceError::Busy)
    } else if is_code(code, codes.einval) {
        Some(DeviceError::InvalidConfig)
    } else if is_code(code, codes.efault) {
        Some(DeviceError::Copy)
    } else {
        Some(DeviceError::Unknown)
    }
}

/// Classify the error code of writing a packet.
pub fn classify_write(code: Option<i32>, codes: &ErrorCodes) -> (r: DeviceError)
    ensures
        r == write_failure(code, *codes),
{
    if is_code(code, codes.einval) {
        DeviceError::PacketSize
    } else if is_code(code, codes.enomem) {
        DeviceError::OutOfMemory
    } else if is_code(code, codes.efault) {
        DeviceError::Copy
    } else {
        DeviceError::Unknown
    }
}

} // verus!
