//! The session with the driver, as a state machine without I/O.
//!
//! A session turns each [`Command`] of its user into [`Request`]s to the
//! character device of the driver. It never touches the device itself:
//! [`CC1101::begin`] and [`CC1101::advance`] say which request comes next,
//! the caller performs it and hands the [`Reply`] back, until the operation
//! ends with [`Step::Done`] or [`Step::Failed`].
//!
//! A session that is exclusive retains one handle to the device for its
//! whole life and duplicates it for each operation; no other process can
//! reconfigure the radio meanwhile. A session that is not exclusive opens the
//! device anew for each operation, checks the protocol version of the driver
//! each time, and releases the handle when the operation ends.
use vstd::prelude::*;

use crate::config::{RXConfig, RXFields, Registers, RegistersType, TXConfig, TXFields};
use crate::errors::{
    classify_ioctl, classify_open, classify_read, classify_write, ioctl_failure, open_failure,
    platform_error_codes, read_failure, write_failure, ErrorCodes, Ioctl,
};
use crate::ioctl::{
    get_max_packet_size, get_registers, get_rssi, get_rx_conf, get_tx_conf, get_version,
    registers_request, reset, set_rx_conf, set_tx_conf,
};
use crate::{check_version, CC1101Error, DeviceError, VERSION};

verus! {

/// What the user of a session asks for.
#[derive(Debug, Copy, Clone, PartialEq, Eq, Structural)]
pub enum Command {
    /// Take up the connection: open the device, check the protocol version
    /// and start reception if the session has a receive configuration.
    Connect,
    /// Get the current RSSI value from the radio
    GetRssi,
    /// Get the maximum packet size configured in the driver
    GetMaxPacketSize,
    /// Receive packets from the radio
    Receive,
    /// Transmit a packet via the radio using the provided configuration
    Transmit(TXConfig),
    /// Issue a reset command to the device.
    Reset,
    /// Set the receive configuration.
    SetRxConfig(RXConfig),
    /// Get the transmit configuration currently set in the driver
    GetDeviceTxConfig,
    /// Get the receive configuration currently set in the driver
    GetDeviceRxConfig,
    /// Get the set of hardware registers for RX/TX currently configured in the driver, or currently configured on the CC1101
    GetDeviceRegisters(RegistersType),
}

/// One action on the character device.
#[derive(Debug, Copy, Clone, PartialEq, Eq, Structural)]
pub enum Request {
    /// Open the device for reading and writing.
    Open,
    /// Duplicate the handle that the session retains.
    Duplicate,
    /// Ask for the protocol version.
    GetVersion,
    /// Reset the driver.
    Reset,
    /// Set the transmit configuration.
    SetTXConf(TXConfig),
    /// Set the receive configuration. This empties the receive buffer of the
    /// driver.
    SetRXConf(RXConfig),
    /// Ask for the transmit configuration.
    GetTXConf,
    /// Ask for the receive configuration.
    GetRXConf,
    /// Ask for a register snapshot.
    GetRegisters(RegistersType),
    /// Ask for the signal strength.
    GetRSSI,
    /// Ask for the maximum packet size.
    GetMaxPacketSize,
    /// Read one packet into a buffer of this many bytes.
    Read(u32),
    /// Write the packet that is to be transmitted.
    Write,
}

/// What the device answered to a request.
#[derive(Debug, Clone)]
pub enum Reply {
    /// The handle was obtained.
    Handle,
    /// Opening, duplicating, reading or writing failed, with the error code
    /// of the operating system if it gave one.
    OsError(Option<i32>),
    /// The status of a control request that hands nothing back.
    Status(i32),
    /// The status and the value of the version request.
    Version(i32, u32),
    /// The status of the transmit configuration request and the registers
    /// that it gave.
    TXConf(i32, TXFields),
    /// The status of the receive configuration request and the registers
    /// that it gave.
    RXConf(i32, RXFields),
    /// The status and the value of a register snapshot request.
    Registers(i32, Registers),
    /// The status and the value of the signal strength request.
    RSSI(i32, u8),
    /// The status and the value of the maximum packet size request.
    MaxPacketSize(i32, u32),
    /// A packet was read.
    Packet(Vec<u8>),
    /// The packet was written.
    Written,
}

/// What an operation gives when it succeeds.
#[derive(Debug, Copy, Clone, PartialEq, Eq, Structural)]
pub enum Output {
    /// Nothing but the success.
    Unit,
    /// The packets that the operation collected, in the order in which they
    /// were read.
    Packets,
    /// The signal strength.
    Rssi(u8),
    /// The maximum packet size.
    MaxPacketSize(u32),
    /// The transmit configuration of the driver.
    TxConfig(TXConfig),
    /// The receive configuration of the driver.
    RxConfig(RXConfig),
    /// A register snapshot.
    Registers(Registers),
}

/// What comes next in an operation.
#[derive(Debug, Copy, Clone, PartialEq, Eq, Structural)]
pub enum Step {
    /// Perform the request and hand its reply to [`CC1101::advance`].
    Request(Request),
    /// The operation succeeded.
    Done(Output),
    /// The operation failed.
    Failed(CC1101Error),
}

/// How far an operation has come: which reply it waits for.
#[derive(Debug, Copy, Clone, PartialEq, Eq, Structural)]
pub enum Stage {
    /// The reply to `Open` or `Duplicate`.
    Handle,
    /// The reply to `GetVersion`.
    Version,
    /// The reply to the `GetRXConf` that reads the receive configuration of
    /// the driver back.
    Live,
    /// The reply to `SetRXConf`.
    Push,
    /// The reply to `Read`.
    Reading,
    /// The reply to `SetTXConf`.
    Configure,
    /// The reply to `Write`.
    Writing,
    /// The reply to the one control request of the command.
    Query,
    /// None: the operation is over.
    Finished,
}

/// What a session knows: whether it holds the device exclusively, the
/// receive configuration that it last applied, and the error codes of the
/// platform.
#[derive(Debug, Copy, Clone, PartialEq, Eq, Structural)]
pub struct Session {
    pub exclusive: bool,
    pub rx_config: Option<RXConfig>,
    pub codes: ErrorCodes,
}

/// A session, a stage and a step: the outcome of one transition.
#[derive(Debug, Copy, Clone, PartialEq, Eq, Structural)]
pub struct Next {
    pub session: Session,
    pub stage: Stage,
    pub step: Step,
}

/// The operation ends in failure.
pub open spec fn fail(session: Session, error: DeviceError) -> Next {
    Next { session, stage: Stage::Finished, step: Step::Failed(CC1101Error::Device(error)) }
}

/// The operation ends in success.
pub open spec fn done(session: Session, output: Output) -> Next {
    Next { session, stage: Stage::Finished, step: Step::Done(output) }
}

/// The operation goes on with a request.
pub open spec fn ask(session: Session, stage: Stage, request: Request) -> Next {
    Next { session, stage, step: Step::Request(request) }
}

/// The command obtains its handle by opening the device: taking up the
/// connection always does, the others do unless the session is exclusive.
pub open spec fn opens(session: Session, command: Command) -> bool {
    command == Command::Connect || !session.exclusive
}

/// The receive configuration that a command wants the driver to have.
pub open spec fn desired(session: Session, command: Command) -> Option<RXConfig> {
    match command {
        Command::Connect => session.rx_config,
        Command::Receive => session.rx_config,
        Command::SetRxConfig(config) => Some(config),
        _ => None,
    }
}

/// The receive configuration that the session last applied, as far as the
/// command may rely on it: nothing when the connection is only taken up.
pub open spec fn cached(session: Session, command: Command) -> Option<RXConfig> {
    match command {
        Command::Connect => None,
        _ => session.rx_config,
    }
}

/// The start of an operation. Receiving without a receive configuration
/// fails before any request.
pub open spec fn first(session: Session, command: Command) -> Next {
    if command == Command::Receive && session.rx_config is None {
        fail(session, DeviceError::NoRXConfig)
    } else if opens(session, command) {
        ask(session, Stage::Handle, Request::Open)
    } else {
        ask(session, Stage::Handle, Request::Duplicate)
    }
}

/// The driver has the desired receive configuration: the command goes on
/// with its own work.
pub open spec fn synchronized(session: Session, command: Command) -> Next {
    match command {
        Command::Receive => match session.rx_config {
            Some(config) => ask(session, Stage::Reading, Request::Read(config@.packet_length)),
            None => fail(session, DeviceError::NoRXConfig),
        },
        Command::SetRxConfig(config) => done(
            Session { rx_config: Some(config), ..session },
            Output::Unit,
        ),
        _ => done(session, Output::Unit),
    }
}

/// The synchronization of the receive configuration, the handle being
/// there. A configuration that differs from the applied one is pushed. One
/// that equals it is left alone when the session is exclusive, and compared
/// with the configuration of the driver when it is not.
pub open spec fn synchronize(session: Session, command: Command, config: RXConfig) -> Next {
    if cached(session, command) == Some(config) {
        if session.exclusive {
            synchronized(session, command)
        } else {
            ask(session, Stage::Live, Request::GetRXConf)
        }
    } else {
        ask(session, Stage::Push, Request::SetRXConf(config))
    }
}

/// The first request of a command, the handle being there.
pub open spec fn ready(session: Session, command: Command) -> Next {
    match command {
        Command::Connect => match session.rx_config {
            Some(config) => synchronize(session, command, config),
            None => done(session, Output::Unit),
        },
        Command::Receive => match session.rx_config {
            Some(config) => synchronize(session, command, config),
            None => fail(session, DeviceError::NoRXConfig),
        },
        Command::SetRxConfig(config) => synchronize(session, command, config),
        Command::Transmit(config) => ask(session, Stage::Configure, Request::SetTXConf(config)),
        Command::Reset => ask(session, Stage::Query, Request::Reset),
        Command::GetRssi => ask(session, Stage::Query, Request::GetRSSI),
        Command::GetMaxPacketSize => ask(session, Stage::Query, Request::GetMaxPacketSize),
        Command::GetDeviceTxConfig => ask(session, Stage::Query, Request::GetTXConf),
        Command::GetDeviceRxConfig => ask(session, Stage::Query, Request::GetRXConf),
        Command::GetDeviceRegisters(t) => ask(session, Stage::Query, Request::GetRegisters(t)),
    }
}

/// The end of a command that consists of one control request: the value
/// when the status is zero and the reply is of the kind that the request
/// gives, else the failure.
pub open spec fn answer(session: Session, command: Command, reply: Reply) -> Next {
    match (command, reply) {
        (Command::Reset, Reply::Status(status)) => match ioctl_failure(
            Ioctl::Reset,
            status,
            session.codes,
        ) {
            Some(e) => fail(session, e),
            None => done(session, Output::Unit),
        },
        (Command::GetRssi, Reply::RSSI(status, value)) => match ioctl_failure(
            Ioctl::GetRSSI,
            status,
            session.codes,
        ) {
            Some(e) => fail(session, e),
            None => done(session, Output::Rssi(value)),
        },
        (Command::GetMaxPacketSize, Reply::MaxPacketSize(status, value)) => match ioctl_failure(
            Ioctl::GetMaxPacketSize,
            status,
            session.codes,
        ) {
            Some(e) => fail(session, e),
            None => done(session, Output::MaxPacketSize(value)),
        },
        (Command::GetDeviceTxConfig, Reply::TXConf(status, value)) => match ioctl_failure(
            Ioctl::GetTXConf,
            status,
            session.codes,
        ) {
            Some(e) => fail(session, e),
            None => match TXConfig::with_fields(value) {
                Some(config) => done(session, Output::TxConfig(config)),
                None => fail(session, DeviceError::Unknown),
            },
        },
        (Command::GetDeviceRxConfig, Reply::RXConf(status, value)) => match ioctl_failure(
            Ioctl::GetRXConf,
            status,
            session.codes,
        ) {
            Some(e) => fail(session, e),
            None => match RXConfig::with_fields(value) {
                Some(config) => done(session, Output::RxConfig(config)),
                None => fail(session, DeviceError::Unknown),
            },
        },
        (Command::GetDeviceRegisters(t), Reply::Registers(status, value)) => match ioctl_failure(
            registers_request(t),
            status,
            session.codes,
        ) {
            Some(e) => fail(session, e),
            None => done(session, Output::Registers(value)),
        },
        _ => fail(session, DeviceError::Unknown),
    }
}

/// One transition of an operation: what follows from the reply that the
/// stage waited for. A reply of another kind ends the operation with the
/// failure `Unknown`.
pub open spec fn next(session: Session, command: Command, stage: Stage, reply: Reply) -> Next {
    match (stage, reply) {
        (Stage::Handle, Reply::Handle) => if opens(session, command) {
            ask(session, Stage::Version, Request::GetVersion)
        } else {
            ready(session, command)
        },
        (Stage::Handle, Reply::OsError(code)) => if opens(session, command) {
            fail(session, open_failure(code, session.codes))
        } else {
            fail(session, DeviceError::FileHandleClone)
        },
        (Stage::Version, Reply::Version(status, version)) => match ioctl_failure(
            Ioctl::GetVersion,
            status,
            session.codes,
        ) {
            Some(e) => fail(session, e),
            None => if version != VERSION {
                fail(session, DeviceError::VersionMismatch)
            } else {
                ready(session, command)
            },
        },
        (Stage::Live, Reply::RXConf(status, live)) => match ioctl_failure(
            Ioctl::GetRXConf,
            status,
            session.codes,
        ) {
            Some(e) => fail(session, e),
            None => match desired(session, command) {
                Some(config) => if live != config@ {
                    ask(session, Stage::Push, Request::SetRXConf(config))
                } else {
                    synchronized(session, command)
                },
                None => fail(session, DeviceError::Unknown),
            },
        },
        (Stage::Push, Reply::Status(status)) => match ioctl_failure(
            Ioctl::SetRXConf,
            status,
            session.codes,
        ) {
            Some(e) => fail(session, e),
            None => synchronized(session, command),
        },
        (Stage::Reading, Reply::Packet(_)) => synchronized(session, Command::Receive),
        (Stage::Reading, Reply::OsError(code)) => match read_failure(code, session.codes) {
            Some(e) => fail(session, e),
            None => done(session, Output::Packets),
        },
        (Stage::Configure, Reply::Status(status)) => match ioctl_failure(
            Ioctl::SetTXConf,
            status,
            session.codes,
        ) {
            Some(e) => fail(session, e),
            None => ask(session, Stage::Writing, Request::Write),
        },
        (Stage::Writing, Reply::Written) => done(session, Output::Unit),
        (Stage::Writing, Reply::OsError(code)) => fail(session, write_failure(code, session.codes)),
        (Stage::Query, _) => answer(session, command, reply),
        _ => fail(session, DeviceError::Unknown),
    }
}

/// The packets of an operation after a reply: a packet that was read while
/// the operation was reading is added at the end.
pub open spec fn collected(stage: Stage, packets: Seq<Vec<u8>>, reply: Reply) -> Seq<Vec<u8>> {
    match (stage, reply) {
        (Stage::Reading, Reply::Packet(packet)) => packets.push(packet),
        _ => packets,
    }
}

fn fail_now(session: Session, error: DeviceError) -> (r: Next)
    ensures
        r == fail(session, error),
{
    Next { session, stage: Stage::Finished, step: Step::Failed(CC1101Error::Device(error)) }
}

fn done_now(session: Session, output: Output) -> (r: Next)
    ensures
        r == done(session, output),
{
    Next { session, stage: Stage::Finished, step: Step::Done(output) }
}

fn ask_now(session: Session, stage: Stage, request: Request) -> (r: Next)
    ensures
        r == ask(session, stage, request),
{
    Next { session, stage, step: Step::Request(request) }
}

fn is_connect(command: Command) -> (r: bool)
    ensures
        r == (command == Command::Connect),
{
    match command {
        Command::Connect => true,
        _ => false,
    }
}

fn does_open(session: Session, command: Command) -> (r: bool)
    ensures
        r == opens(session, command),
{
    is_connect(command) || !session.exclusive
}

fn synchronized_now(session: Session, command: Command) -> (r: Next)
    ensures
        r == synchronized(session, command),
{
    match command {
        Command::Receive => match session.rx_config {
            Some(config) => ask_now(session, Stage::Reading, Request::Read(config.get_packet_length())),
            None => fail_now(session, DeviceError::NoRXConfig),
        },
        Command::SetRxConfig(config) => done_now(
            Session { exclusive: session.exclusive, rx_config: Some(config), codes: session.codes },
            Output::Unit,
        ),
        _ => done_now(session, Output::Unit),
    }
}

/// Decide how a receive configuration is brought to the driver, the handle
/// being there: by a push, by a comparison with the configuration of the
/// driver first, or not at all.
pub fn synchronize_step(session: Session, command: Command, config: RXConfig) -> (r: Next)
    ensures
        r == synchronize(session, command, config),
{
    // Does the new config match the saved config
    let configs_match = if is_connect(command) {
        false
    } else {
        match session.rx_config {
            Some(old_config) => old_config == config,
            None => false,
        }
    };

    if configs_match {
        // Without exclusive access, the RX config on the device may become out
        // of sync with the saved config
        if !session.exclusive {
            ask_now(session, Stage::Live, Request::GetRXConf)
        } else {
            synchronized_now(session, command)
        }
    } else {
        ask_now(session, Stage::Push, Request::SetRXConf(config))
    }
}

fn ready_now(session: Session, command: Command) -> (r: Next)
    ensures
        r == ready(session, command),
{
    match command {
        Command::Connect => match session.rx_config {
            Some(config) => synchronize_step(session, command, config),
            None => done_now(session, Output::Unit),
        },
        Command::Receive => match session.rx_config {
            Some(config) => synchronize_step(session, command, config),
            None => fail_now(session, DeviceError::NoRXConfig),
        },
        Command::SetRxConfig(config) => synchronize_step(session, command, config),
        Command::Transmit(config) => ask_now(session, Stage::Configure, Request::SetTXConf(config)),
        Command::Reset => ask_now(session, Stage::Query, Request::Reset),
        Command::GetRssi => ask_now(session, Stage::Query, Request::GetRSSI),
        Command::GetMaxPacketSize => ask_now(session, Stage::Query, Request::GetMaxPacketSize),
        Command::GetDeviceTxConfig => ask_now(session, Stage::Query, Request::GetTXConf),
        Command::GetDeviceRxConfig => ask_now(session, Stage::Query, Request::GetRXConf),
        Command::GetDeviceRegisters(t) => ask_now(session, Stage::Query, Request::GetRegisters(t)),
    }
}

/// The end of an operation with the outcome of its last request.
fn conclude(session: Session, outcome: Result<Output, CC1101Error>) -> (r: Next)
    ensures
        r == match outcome {
            Ok(output) => done(session, output),
            Err(e) => (Next { session, stage: Stage::Finished, step: Step::Failed(e) }),
        },
{
    match outcome {
        Ok(output) => done_now(session, output),
        Err(e) => Next { session, stage: Stage::Finished, step: Step::Failed(e) },
    }
}

fn answer_now(session: Session, command: Command, reply: &Reply) -> (r: Next)
    ensures
        r == answer(session, command, *reply),
{
    let codes = session.codes;
    match (command, reply) {
        (Command::Reset, Reply::Status(status)) => {
            match reset(*status, &codes) {
                Ok(()) => conclude(session, Ok(Output::Unit)),
                Err(e) => conclude(session, Err(e)),
            }
        },
        (Command::GetRssi, Reply::RSSI(status, value)) => {
            match get_rssi(*status, *value, &codes) {
                Ok(rssi) => conclude(session, Ok(Output::Rssi(rssi))),
                Err(e) => conclude(session, Err(e)),
            }
        },
        (Command::GetMaxPacketSize, Reply::MaxPacketSize(status, value)) => {
            match get_max_packet_size(*status, *value, &codes) {
                Ok(size) => conclude(session, Ok(Output::MaxPacketSize(size))),
                Err(e) => conclude(session, Err(e)),
            }
        },
        (Command::GetDeviceTxConfig, Reply::TXConf(status, value)) => {
            match get_tx_conf(*status, value, &codes) {
                Ok(config) => conclude(session, Ok(Output::TxConfig(config))),
                Err(e) => conclude(session, Err(e)),
            }
        },
        (Command::GetDeviceRxConfig, Reply::RXConf(status, value)) => {
            match get_rx_conf(*status, value, &codes) {
                Ok(config) => conclude(session, Ok(Output::RxConfig(config))),
                Err(e) => conclude(session, Err(e)),
            }
        },
        (Command::GetDeviceRegisters(t), Reply::Registers(status, value)) => {
            match get_registers(*status, t, *value, &codes) {
                Ok(registers) => conclude(session, Ok(Output::Registers(registers))),
                Err(e) => conclude(session, Err(e)),
            }
        },
        _ => fail_now(session, DeviceError::Unknown),
    }
}

/// The start of an operation.
pub fn first_step(session: Session, command: Command) -> (r: Next)
    ensures
        r == first(session, command),
{
    let receive = match command {
        Command::Receive => true,
        _ => false,
    };
    if receive && session.rx_config.is_none() {
        fail_now(session, DeviceError::NoRXConfig)
    } else if does_open(session, command) {
        ask_now(session, Stage::Handle, Request::Open)
    } else {
        ask_now(session, Stage::Handle, Request::Duplicate)
    }
}

/// One transition of an operation.
pub fn next_step(session: Session, command: Command, stage: Stage, reply: &Reply) -> (r: Next)
    ensures
        r == next(session, command, stage, *reply),
{
    let codes = session.codes;
    match (stage, reply) {
        (Stage::Handle, Reply::Handle) => {
            if does_open(session, command) {
                ask_now(session, Stage::Version, Request::GetVersion)
            } else {
                ready_now(session, command)
            }
        },
        (Stage::Handle, Reply::OsError(code)) => {
            if does_open(session, command) {
                fail_now(session, classify_open(*code, &codes))
            } else {
                fail_now(session, DeviceError::FileHandleClone)
            }
        },
        (Stage::Version, Reply::Version(status, version)) => {
            match get_version(*status, *version, &codes) {
                Ok(version) => match check_version(version) {
                    Ok(()) => ready_now(session, command),
                    Err(e) => conclude(session, Err(e)),
                },
                Err(e) => conclude(session, Err(e)),
            }
        },
        (Stage::Live, Reply::RXConf(status, live)) => {
            match classify_ioctl(Ioctl::GetRXConf, *status, &codes) {
                Some(e) => fail_now(session, e),
                None => {
                    let wanted = match command {
                        Command::Connect => session.rx_config,
                        Command::Receive => session.rx_config,
                        Command::SetRxConfig(config) => Some(config),
                        _ => None,
                    };
                    match wanted {
                        Some(config) => {
                            // Update the device if the config on the device and the saved config differ
                            if *live != config.to_fields() {
                                ask_now(session, Stage::Push, Request::SetRXConf(config))
                            } else {
                                synchronized_now(session, command)
                            }
                        },
                        None => fail_now(session, DeviceError::Unknown),
                    }
                },
            }
        },
        (Stage::Push, Reply::Status(status)) => {
            match set_rx_conf(*status, &codes) {
                Ok(()) => synchronized_now(session, command),
                Err(e) => conclude(session, Err(e)),
            }
        },
        (Stage::Reading, Reply::Packet(_)) => synchronized_now(session, Command::Receive),
        (Stage::Reading, Reply::OsError(code)) => {
            match classify_read(*code, &codes) {
                Some(e) => fail_now(session, e),
                None => done_now(session, Output::Packets),
            }
        },
        (Stage::Configure, Reply::Status(status)) => {
            match set_tx_conf(*status, &codes) {
                Ok(()) => ask_now(session, Stage::Writing, Request::Write),
                Err(e) => conclude(session, Err(e)),
            }
        },
        (Stage::Writing, Reply::Written) => done_now(session, Output::Unit),
        (Stage::Writing, Reply::OsError(code)) => fail_now(
            session,
            classify_write(*code, &codes),
        ),
        (Stage::Query, _) => answer_now(session, command, reply),
        _ => fail_now(session, DeviceError::Unknown),
    }
}

/// An operation in progress: its command, its stage and the packets that it
/// has read.
#[derive(Debug)]
pub struct Operation {
    command: Command,
    stage: Stage,
    packets: Vec<Vec<u8>>,
}

impl Operation {
    /// The command that the operation carries out.
    pub closed spec fn command(&self) -> Command {
        self.command
    }

    /// The reply that the operation waits for.
    pub closed spec fn stage(&self) -> Stage {
        self.stage
    }

    /// The packets that the operation has read, in the order in which they
    /// were read.
    pub closed spec fn packets(&self) -> Seq<Vec<u8>> {
        self.packets@
    }

    /// The command that the operation carries out.
    pub fn get_command(&self) -> (r: Command)
        ensures
            r == self.command(),
    {
        self.command
    }

    /// The reply that the operation waits for.
    pub fn get_stage(&self) -> (r: Stage)
        ensures
            r == self.stage(),
    {
        self.stage
    }

    /// The packets that the operation has read, in the order in which they
    /// were read.
    pub fn into_packets(self) -> (r: Vec<Vec<u8>>)
        ensures
            r@ == self.packets(),
    {
        self.packets
    }
}

/// CC1101 radio device
///
/// This struct stands for a connection to a CC1101 device, presented by the
/// Linux driver as a character device (e.g `/dev/cc1101.0.0`). It is used to
/// configure the driver to receive and transmit packets.
///
/// # Receive
///
/// As all packet reception and interaction with the CC1101 hardware occurs within the kernel driver, receiving packets is an asynchronous process.
///
/// The driver begins RX when a receive configuration is set. Packets received by the radio are buffered within a FIFO
/// until being read. Packet reception stops when a reset is sent.
///
/// # Transmit
///
/// Transmission of packets is a synchronous process: the transmit
/// configuration is set and the packet is written. The driver pauses RX,
/// transmits, and restores the receive configuration.
///
/// # Device Sharing
///
/// A session that is not exclusive releases the device after every
/// operation, so that another process can use the radio between events.
/// Sharing a device between two receiving processes will cause packet loss,
/// as the driver's internal packet buffer is reset each time a new receive
/// configuration is set.
#[derive(Debug)]
pub struct CC1101 {
    device: String,
    state: Session,
}

impl CC1101 {
    /// What the session knows.
    pub closed spec fn state(&self) -> Session {
        self.state
    }

    /// The path of the character device.
    pub closed spec fn device(&self) -> Seq<char> {
        self.device@
    }

    /// Create a new session with a CC1101 device
    ///
    /// Nothing is done on the device before [`Command::Connect`] is carried
    /// out. With an `rx_config`, connecting configures the driver for RX with
    /// it and begins packet reception.
    ///
    /// `blocking` determines if the session holds the device exclusively, by
    /// keeping one handle open. This prevents another process from using the
    /// radio (and reconfiguring it), and with it any sharing of the device.
    ///
    /// The error codes are those of the platform.
    pub fn new(device: &str, rx_config: Option<RXConfig>, blocking: bool) -> (r: CC1101)
        ensures
            r.device() == device@,
            r.state().exclusive == blocking,
            r.state().rx_config == rx_config,
    {
        CC1101::with_error_codes(device, rx_config, blocking, platform_error_codes())
    }

    /// Create a new session that classifies failures by the given error
    /// codes.
    pub fn with_error_codes(
        device: &str,
        rx_config: Option<RXConfig>,
        blocking: bool,
        codes: ErrorCodes,
    ) -> (r: CC1101)
        ensures
            r.device() == device@,
            r.state() == (Session { exclusive: blocking, rx_config, codes }),
    {
        CC1101 {
            device: device.to_string(),
            state: Session { exclusive: blocking, rx_config, codes },
        }
    }

    /// The path of the character device.
    pub fn get_device(&self) -> (r: &str)
        ensures
            r@ == self.device(),
    {
        self.device.as_str()
    }

    /// Whether the session holds the device exclusively.
    pub fn is_blocking(&self) -> (r: bool)
        ensures
            r == self.state().exclusive,
    {
        self.state.exclusive
    }

    /// The error codes by which the session classifies failures.
    pub fn get_error_codes(&self) -> (r: ErrorCodes)
        ensures
            r == self.state().codes,
    {
        self.state.codes
    }

    /// Get the configured receive config
    pub fn get_rx_config(&self) -> (r: &Option<RXConfig>)
        ensures
            *r == self.state().rx_config,
    {
        &self.state.rx_config
    }

    /// The operation and the step are those with which the command starts.
    pub open spec fn starts(&self, command: Command, started: (Operation, Step)) -> bool {
        &&& started.0.command() == command
        &&& started.0.stage() == first(self.state(), command).stage
        &&& started.0.packets() == Seq::<Vec<u8>>::empty()
        &&& started.1 == first(self.state(), command).step
    }

    /// Start an operation. The session does not change.
    pub fn begin(&self, command: Command) -> (r: (Operation, Step))
        ensures
            self.starts(command, r),
    {
        let next = first_step(self.state, command);
        (Operation { command, stage: next.stage, packets: Vec::new() }, next.step)
    }

    /// Take up the connection
    ///
    /// This opens the device and checks the protocol version of the driver.
    /// If the session has a receive configuration, the driver is configured
    /// for RX with it and begins packet reception.
    pub fn connect(&self) -> (r: (Operation, Step))
        ensures
            self.starts(Command::Connect, r),
            r.1 == Step::Request(Request::Open),
    {
        self.begin(Command::Connect)
    }

    /// Get the current RSSI value from the radio
    pub fn get_rssi(&self) -> (r: (Operation, Step))
        ensures
            self.starts(Command::GetRssi, r),
    {
        self.begin(Command::GetRssi)
    }

    /// Get the maximum packet size configured in the driver
    pub fn get_max_packet_size(&self) -> (r: (Operation, Step))
        ensures
            self.starts(Command::GetMaxPacketSize, r),
    {
        self.begin(Command::GetMaxPacketSize)
    }

    /// Receive packets from the radio
    ///
    /// This will read the content of the driver's received packet buffer if the driver is already in RX.
    ///
    /// If the driver is not in RX (i.e [`CC1101::reset`] has been called), this will configure the driver for RX and begin packet reception.
    ///
    /// Individual packets are a [`Vec<u8>`] of the size specified in the `packet_length` argument to [`RXConfig::new`].
    ///
    /// Multiple packets can be returned in one receive operation, and none if
    /// no packets have been received. Without a receive configuration the
    /// operation fails before anything is asked of the device.
    pub fn receive(&self) -> (r: (Operation, Step))
        ensures
            self.starts(Command::Receive, r),
            self.state().rx_config is None ==> r.1 == Step::Failed(
                CC1101Error::Device(DeviceError::NoRXConfig),
            ),
            self.state().rx_config is Some ==> r.1 is Request,
    {
        self.begin(Command::Receive)
    }

    /// Transmit a packet via the radio using the provided configuration
    ///
    /// The configuration is set anew for every packet. The packet itself
    /// stays with the caller, who writes it when [`Request::Write`] is asked
    /// for.
    pub fn transmit(&self, tx_config: &TXConfig) -> (r: (Operation, Step))
        ensures
            self.starts(Command::Transmit(*tx_config), r),
    {
        self.begin(Command::Transmit(*tx_config))
    }

    /// Issue a reset command to the device.
    ///
    /// This will clear the received packet buffer and stop receiving. Packet reception can be resumed by calling [`CC1101::receive`].
    pub fn reset(&self) -> (r: (Operation, Step))
        ensures
            self.starts(Command::Reset, r),
    {
        self.begin(Command::Reset)
    }

    /// Set the receive configuration.
    ///
    /// This will configure the driver for RX with the provided configuration and begin packet reception. Received packets can be read using [`CC1101::receive`].
    pub fn set_rx_config(&self, rx_config: &RXConfig) -> (r: (Operation, Step))
        ensures
            self.starts(Command::SetRxConfig(*rx_config), r),
    {
        self.begin(Command::SetRxConfig(*rx_config))
    }

    /// Get the transmit configuration currently set in the driver
    pub fn get_device_tx_config(&self) -> (r: (Operation, Step))
        ensures
            self.starts(Command::GetDeviceTxConfig, r),
    {
        self.begin(Command::GetDeviceTxConfig)
    }

    /// Get the receive configuration currently set in the driver
    ///
    /// Without exclusive access, this may differ from the value returned by [`CC1101::get_rx_config`] if another process has reconfigured the device.
    pub fn get_device_rx_config(&self) -> (r: (Operation, Step))
        ensures
            self.starts(Command::GetDeviceRxConfig, r),
    {
        self.begin(Command::GetDeviceRxConfig)
    }

    /// Get the set of hardware registers for RX/TX currently configured in the driver, or currently configured on the CC1101
    pub fn get_device_registers(&self, registers_type: RegistersType) -> (r: (Operation, Step))
        ensures
            self.starts(Command::GetDeviceRegisters(registers_type), r),
    {
        self.begin(Command::GetDeviceRegisters(registers_type))
    }

    /// Carry an operation on with the reply to its last request.
    ///
    /// Setting the receive configuration changes the configuration of the
    /// session when it succeeds, and nothing else ever does.
    pub fn advance(&mut self, operation: Operation, reply: Reply) -> (r: (Operation, Step))
        ensures
            r.0.command() == operation.command(),
            r.0.stage() == next(
                old(self).state(),
                operation.command(),
                operation.stage(),
                reply,
            ).stage,
            r.0.packets() == collected(operation.stage(), operation.packets(), reply),
            r.1 == next(old(self).state(), operation.command(), operation.stage(), reply).step,
            final(self).state() == next(
                old(self).state(),
                operation.command(),
                operation.stage(),
                reply,
            ).session,
            final(self).device() == old(self).device(),
    {
        let next = next_step(self.state, operation.command, operation.stage, &reply);
        let mut packets = operation.packets;
        let reading = match operation.stage {
            Stage::Reading => true,
            _ => false,
        };
        match reply {
            Reply::Packet(packet) => {
                if reading {
                    packets.push(packet);
                }
            },
            _ => {},
        }
        self.state = next.session;
        (Operation { command: operation.command, stage: next.stage, packets }, next.step)
    }
}

/// The step asks for the receive configuration to be set.
pub open spec fn is_push(step: Step) -> bool {
    step matches Step::Request(Request::SetRXConf(_))
}

/// The number of times that an operation asks for the receive configuration
/// to be set, from the transition `now` on, when the device answers with
/// `replies` in turn. Replies beyond the end of the operation are not looked
/// at.
pub open spec fn pushes(command: Command, now: Next, replies: Seq<Reply>) -> nat
    decreases replies.len(),
{
    let here: nat = if is_push(now.step) {
        1
    } else {
        0
    };
    if replies.len() == 0 || !(now.step is Request) {
        here
    } else {
        here + pushes(
            command,
            next(now.session, command, now.stage, replies[0]),
            replies.drop_first(),
        )
    }
}

/// The stage lies before the point at which the receive configuration can be
/// set.
pub open spec fn early(stage: Stage) -> bool {
    stage == Stage::Handle || stage == Stage::Version || stage == Stage::Live
}

/// Once an operation has come past the synchronization, it does not ask for
/// the receive configuration to be set again.
pub proof fn lemma_no_push_after_synchronization(command: Command, now: Next, replies: Seq<Reply>)
    requires
        !early(now.stage),
    ensures
        pushes(command, now, replies) == if is_push(now.step) {
            1nat
        } else {
            0nat
        },
    decreases replies.len(),
{
    if replies.len() > 0 && now.step is Request {
        let after = next(now.session, command, now.stage, replies[0]);
        assert(!early(after.stage));
        assert(!is_push(after.step));
        lemma_no_push_after_synchronization(command, after, replies.drop_first());
    }
}

/// Whatever the device answers, an operation that has not yet set the
/// receive configuration sets it at most once.
pub proof fn lemma_at_most_one_push_from(command: Command, now: Next, replies: Seq<Reply>)
    requires
        early(now.stage) ==> !is_push(now.step),
    ensures
        pushes(command, now, replies) <= 1,
    decreases replies.len(),
{
    if !early(now.stage) {
        lemma_no_push_after_synchronization(command, now, replies);
    } else if replies.len() > 0 && now.step is Request {
        let after = next(now.session, command, now.stage, replies[0]);
        lemma_at_most_one_push_from(command, after, replies.drop_first());
    }
}

/// Whatever the session, the command and the answers of the device: an
/// operation asks at most once for the receive configuration to be set.
pub proof fn lemma_at_most_one_push(session: Session, command: Command, replies: Seq<Reply>)
    ensures
        pushes(command, first(session, command), replies) <= 1,
{
    lemma_at_most_one_push_from(command, first(session, command), replies);
}

/// An exclusive session that is asked to receive, or to set the receive
/// configuration that it has applied already, never asks for the receive
/// configuration to be set, whatever the device answers.
pub proof fn lemma_exclusive_same_config_no_push(
    session: Session,
    config: RXConfig,
    command: Command,
    replies: Seq<Reply>,
)
    requires
        session.exclusive,
        session.rx_config == Some(config),
        command == Command::SetRxConfig(config) || command == Command::Receive,
    ensures
        pushes(command, first(session, command), replies) == 0,
{
    let start = first(session, command);
    assert(start == ask(session, Stage::Handle, Request::Duplicate));
    if replies.len() > 0 {
        let after = next(session, command, Stage::Handle, replies[0]);
        assert(!early(after.stage));
        assert(!is_push(after.step));
        lemma_no_push_after_synchronization(command, after, replies.drop_first());
    }
}

/// An exclusive session that is asked to set a receive configuration other
/// than the one it has applied asks for it to be set exactly once, as soon as
/// it has its handle, and whatever the device answers after that.
pub proof fn lemma_exclusive_other_config_one_push(
    session: Session,
    config: RXConfig,
    replies: Seq<Reply>,
)
    requires
        session.exclusive,
        session.rx_config != Some(config),
        replies.len() >= 1,
        replies[0] is Handle,
    ensures
        next(session, Command::SetRxConfig(config), Stage::Handle, replies[0]).step
            == Step::Request(Request::SetRXConf(config)),
        pushes(
            Command::SetRxConfig(config),
            first(session, Command::SetRxConfig(config)),
            replies,
        ) == 1,
{
    let command = Command::SetRxConfig(config);
    let start = first(session, command);
    assert(start == ask(session, Stage::Handle, Request::Duplicate));
    let after = next(session, command, Stage::Handle, replies[0]);
    assert(after == ask(session, Stage::Push, Request::SetRXConf(config)));
    lemma_no_push_after_synchronization(command, after, replies.drop_first());
}

/// A session that is not exclusive and is asked to receive, or to set the
/// receive configuration that it has applied already, reads the
/// configuration of the driver back. If another process has changed it, the
/// session asks for its own to be set exactly once; if not, never.
pub proof fn lemma_shared_same_config_restores(
    session: Session,
    config: RXConfig,
    command: Command,
    live: RXFields,
    replies: Seq<Reply>,
)
    requires
        !session.exclusive,
        session.rx_config == Some(config),
        command == Command::SetRxConfig(config) || command == Command::Receive,
        replies.len() >= 3,
        replies[0] is Handle,
        replies[1] == Reply::Version(0, VERSION),
        replies[2] == Reply::RXConf(0, live),
    ensures
        pushes(command, first(session, command), replies) == if live != config@ {
            1nat
        } else {
            0nat
        },
{
    let start = first(session, command);
    assert(start == ask(session, Stage::Handle, Request::Open));
    let opened = next(session, command, Stage::Handle, replies[0]);
    assert(opened == ask(session, Stage::Version, Request::GetVersion));
    let rest1 = replies.drop_first();
    assert(rest1[0] == replies[1]);
    let checked = next(session, command, Stage::Version, rest1[0]);
    assert(checked == ask(session, Stage::Live, Request::GetRXConf));
    let rest2 = rest1.drop_first();
    assert(rest2[0] == replies[2]);
    let compared = next(session, command, Stage::Live, rest2[0]);
    assert(!early(compared.stage));
    assert(is_push(compared.step) == (live != config@));
    lemma_no_push_after_synchronization(command, compared, rest2.drop_first());
    assert(pushes(command, checked, rest2) == pushes(command, compared, rest2.drop_first()));
    assert(pushes(command, opened, rest1) == pushes(command, checked, rest2));
    assert(pushes(command, start, replies) == pushes(command, opened, rest1));
}

/// Receiving on a session without a receive configuration fails at once with
/// `NoRXConfig`: no request is made of the device.
pub proof fn lemma_receive_without_config(session: Session)
    requires
        session.rx_config is None,
    ensures
        first(session, Command::Receive).step == Step::Failed(
            CC1101Error::Device(DeviceError::NoRXConfig),
        ),
        first(session, Command::Receive).stage == Stage::Finished,
        first(session, Command::Receive).session == session,
{
}

/// Only setting the receive configuration changes what a session knows, and
/// only when it succeeds: then the session holds the new configuration.
pub proof fn lemma_session_changes(session: Session, command: Command, stage: Stage, reply: Reply)
    ensures
        ({
            let after = next(session, command, stage, reply);
            &&& after.session.exclusive == session.exclusive
            &&& after.session.codes == session.codes
            &&& after.session.rx_config != session.rx_config ==> after.step == Step::Done(
                Output::Unit,
            ) && command is SetRxConfig && after.session.rx_config == Some(
                command->SetRxConfig_0,
            )
        }),
{
}

} // verus!
