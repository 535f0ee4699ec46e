use cc1101_rust::binary32::Binary32;
use cc1101_rust::config::{Modulation, RXConfig, Registers, RegistersType, TXConfig};
use cc1101_rust::errors::ErrorCodes;
use cc1101_rust::session::{Command, Operation, Output, Reply, Request, Stage, Step};
use cc1101_rust::{check_version, CC1101Error, DeviceError, CC1101, VERSION};

const CODES: ErrorCodes = ErrorCodes {
    eio: 5,
    efault: 14,
    einval: 22,
    enomem: 12,
    ebusy: 16,
    enomsg: 42,
    emsgsize: 90,
};

fn b(value: f32) -> Binary32 {
    Binary32::from_bits(value.to_bits())
}

fn rx(packet_length: u32) -> RXConfig {
    RXConfig::new(
        b(433.92),
        Modulation::OOK,
        b(1.0),
        packet_length,
        None,
        None,
        None,
        None,
        None,
        None,
        None,
    )
    .unwrap()
}

fn tx() -> TXConfig {
    TXConfig::new_raw(b(433.92), Modulation::OOK, b(1.0), 0x60, None, None).unwrap()
}

fn session(rx_config: Option<RXConfig>, blocking: bool) -> CC1101 {
    CC1101::with_error_codes("/dev/cc1101.0.0", rx_config, blocking, CODES)
}

fn failed(error: DeviceError) -> Step {
    Step::Failed(CC1101Error::Device(error))
}

/// Runs an operation against the replies of a device and gives the requests
/// that were made, the last step and the operation.
fn run(
    session: &mut CC1101,
    start: (Operation, Step),
    replies: Vec<Reply>,
) -> (Vec<Request>, Step, Operation) {
    let (mut operation, mut step) = start;
    let mut requests = Vec::new();
    let mut replies = replies.into_iter();
    loop {
        match step {
            Step::Request(request) => requests.push(request),
            _ => break,
        }
        match replies.next() {
            Some(reply) => {
                let (next_operation, next_step) = session.advance(operation, reply);
                operation = next_operation;
                step = next_step;
            }
            None => break,
        }
    }
    assert!(replies.next().is_none(), "the operation ended before all replies were used");
    (requests, step, operation)
}

fn pushes(requests: &[Request]) -> usize {
    requests.iter().filter(|r| matches!(r, Request::SetRXConf(_))).count()
}

#[test]
fn receive_without_a_receive_config_fails_without_any_request() {
    for blocking in [true, false] {
        let mut s = session(None, blocking);
        let start = s.receive();
        assert_eq!(start.1, failed(DeviceError::NoRXConfig));
        assert_eq!(start.0.get_stage(), Stage::Finished);
        let (requests, step, _) = run(&mut s, start, vec![]);
        assert!(requests.is_empty());
        assert_eq!(step, failed(DeviceError::NoRXConfig));
    }
}

#[test]
fn exclusive_session_with_the_same_config_pushes_nothing() {
    let c1 = rx(64);
    let mut s = session(Some(c1), true);
    let start = s.set_rx_config(&c1);
    let (requests, step, _) = run(&mut s, start, vec![Reply::Handle]);
    assert_eq!(requests, vec![Request::Duplicate]);
    assert_eq!(pushes(&requests), 0);
    assert_eq!(step, Step::Done(Output::Unit));
    assert_eq!(s.get_rx_config(), &Some(c1));
}

#[test]
fn exclusive_session_with_another_config_pushes_once() {
    let c1 = rx(64);
    let c2 = rx(32);
    let mut s = session(Some(c1), true);
    let start = s.set_rx_config(&c2);
    let (requests, step, _) = run(&mut s, start, vec![Reply::Handle, Reply::Status(0)]);
    assert_eq!(requests, vec![Request::Duplicate, Request::SetRXConf(c2)]);
    assert_eq!(pushes(&requests), 1);
    assert_eq!(step, Step::Done(Output::Unit));
    assert_eq!(s.get_rx_config(), &Some(c2));
}

#[test]
fn shared_session_restores_a_config_that_has_drifted() {
    let c1 = rx(64);
    let drifted = rx(16);
    let mut s = session(Some(c1), false);
    let start = s.set_rx_config(&c1);
    let (requests, step, _) = run(
        &mut s,
        start,
        vec![
            Reply::Handle,
            Reply::Version(0, VERSION),
            Reply::RXConf(0, drifted.to_fields()),
            Reply::Status(0),
        ],
    );
    assert_eq!(
        requests,
        vec![Request::Open, Request::GetVersion, Request::GetRXConf, Request::SetRXConf(c1)]
    );
    assert_eq!(pushes(&requests), 1);
    assert_eq!(step, Step::Done(Output::Unit));
    assert_eq!(s.get_rx_config(), &Some(c1));
}

#[test]
fn shared_session_leaves_a_config_that_has_not_drifted() {
    let c1 = rx(64);
    let mut s = session(Some(c1), false);
    let start = s.set_rx_config(&c1);
    let (requests, step, _) = run(
        &mut s,
        start,
        vec![Reply::Handle, Reply::Version(0, VERSION), Reply::RXConf(0, c1.to_fields())],
    );
    assert_eq!(requests, vec![Request::Open, Request::GetVersion, Request::GetRXConf]);
    assert_eq!(pushes(&requests), 0);
    assert_eq!(step, Step::Done(Output::Unit));
}

#[test]
fn first_config_of_a_session_is_pushed() {
    let c1 = rx(64);
    for blocking in [true, false] {
        let mut s = session(None, blocking);
        let start = s.set_rx_config(&c1);
        let mut replies = vec![Reply::Handle];
        if !blocking {
            replies.push(Reply::Version(0, VERSION));
        }
        replies.push(Reply::Status(0));
        let (requests, step, _) = run(&mut s, start, replies);
        assert_eq!(pushes(&requests), 1);
        assert_eq!(requests.last(), Some(&Request::SetRXConf(c1)));
        assert_eq!(step, Step::Done(Output::Unit));
        assert_eq!(s.get_rx_config(), &Some(c1));
    }
}

#[test]
fn config_is_not_taken_when_the_push_fails() {
    let c1 = rx(64);
    let c2 = rx(32);
    let cases = [
        (5, DeviceError::InvalidIOCTL),
        (14, DeviceError::Copy),
        (22, DeviceError::InvalidConfig),
        (12, DeviceError::OutOfMemory),
        (-1, DeviceError::Unknown),
    ];
    for (status, error) in cases {
        let mut s = session(Some(c1), true);
        let start = s.set_rx_config(&c2);
        let (_, step, operation) = run(&mut s, start, vec![Reply::Handle, Reply::Status(status)]);
        assert_eq!(step, failed(error));
        assert_eq!(operation.get_stage(), Stage::Finished);
        assert_eq!(s.get_rx_config(), &Some(c1));
    }
}

#[test]
fn connecting_checks_the_version_and_starts_reception() {
    let c1 = rx(64);
    for blocking in [true, false] {
        let mut s = session(Some(c1), blocking);
        assert_eq!(s.is_blocking(), blocking);
        assert_eq!(s.get_device(), "/dev/cc1101.0.0");
        let start = s.connect();
        let (requests, step, operation) = run(
            &mut s,
            start,
            vec![Reply::Handle, Reply::Version(0, VERSION), Reply::Status(0)],
        );
        assert_eq!(
            requests,
            vec![Request::Open, Request::GetVersion, Request::SetRXConf(c1)]
        );
        assert_eq!(step, Step::Done(Output::Unit));
        assert_eq!(operation.get_command(), Command::Connect);

        let mut s = session(None, blocking);
        let start = s.connect();
        let (requests, step, _) = run(&mut s, start, vec![Reply::Handle, Reply::Version(0, VERSION)]);
        assert_eq!(requests, vec![Request::Open, Request::GetVersion]);
        assert_eq!(step, Step::Done(Output::Unit));
    }
}

#[test]
fn connecting_fails_on_another_version() {
    let mut s = session(None, false);
    let start = s.connect();
    let (_, step, _) = run(&mut s, start, vec![Reply::Handle, Reply::Version(0, VERSION + 1)]);
    assert_eq!(step, failed(DeviceError::VersionMismatch));

    let mut s = session(None, false);
    let start = s.connect();
    let (_, step, _) = run(&mut s, start, vec![Reply::Handle, Reply::Version(5, VERSION)]);
    assert_eq!(step, failed(DeviceError::InvalidIOCTL));

    let mut s = session(None, false);
    let start = s.connect();
    let (_, step, _) = run(&mut s, start, vec![Reply::Handle, Reply::Version(1, VERSION)]);
    assert_eq!(step, failed(DeviceError::Unknown));

    assert_eq!(check_version(VERSION), Ok(()));
    assert_eq!(check_version(3), Err(CC1101Error::Device(DeviceError::VersionMismatch)));
}

#[test]
fn handle_failures_depend_on_how_the_handle_is_obtained() {
    let mut s = session(None, false);
    let start = s.reset();
    let (requests, step, _) = run(&mut s, start, vec![Reply::OsError(Some(16))]);
    assert_eq!(requests, vec![Request::Open]);
    assert_eq!(step, failed(DeviceError::Busy));

    let mut s = session(None, false);
    let start = s.reset();
    let (_, step, _) = run(&mut s, start, vec![Reply::OsError(Some(2))]);
    assert_eq!(step, failed(DeviceError::Unknown));

    let mut s = session(None, false);
    let start = s.reset();
    let (_, step, _) = run(&mut s, start, vec![Reply::OsError(None)]);
    assert_eq!(step, failed(DeviceError::Unknown));

    let mut s = session(None, true);
    let start = s.reset();
    let (requests, step, _) = run(&mut s, start, vec![Reply::OsError(Some(16))]);
    assert_eq!(requests, vec![Request::Duplicate]);
    assert_eq!(step, failed(DeviceError::FileHandleClone));
}

#[test]
fn receive_collects_packets_until_none_is_left() {
    let c1 = rx(4);
    let mut s = session(Some(c1), true);
    let start = s.receive();
    let (requests, step, operation) = run(
        &mut s,
        start,
        vec![
            Reply::Handle,
            Reply::Packet(vec![1, 2, 3, 4]),
            Reply::Packet(vec![5, 6, 7, 8]),
            Reply::OsError(Some(42)),
        ],
    );
    assert_eq!(
        requests,
        vec![Request::Duplicate, Request::Read(4), Request::Read(4), Request::Read(4)]
    );
    assert_eq!(step, Step::Done(Output::Packets));
    assert_eq!(operation.into_packets(), vec![vec![1, 2, 3, 4], vec![5, 6, 7, 8]]);

    let mut s = session(Some(c1), true);
    let start = s.receive();
    let (requests, step, operation) =
        run(&mut s, start, vec![Reply::Handle, Reply::OsError(Some(42))]);
    assert_eq!(requests, vec![Request::Duplicate, Request::Read(4)]);
    assert_eq!(step, Step::Done(Output::Packets));
    assert!(operation.into_packets().is_empty());
}

#[test]
fn receive_on_a_shared_session_synchronizes_first() {
    let c1 = rx(4);
    let drifted = rx(8);
    let mut s = session(Some(c1), false);
    let start = s.receive();
    let (requests, step, operation) = run(
        &mut s,
        start,
        vec![
            Reply::Handle,
            Reply::Version(0, VERSION),
            Reply::RXConf(0, drifted.to_fields()),
            Reply::Status(0),
            Reply::Packet(vec![9, 9, 9, 9]),
            Reply::OsError(Some(42)),
        ],
    );
    assert_eq!(
        requests,
        vec![
            Request::Open,
            Request::GetVersion,
            Request::GetRXConf,
            Request::SetRXConf(c1),
            Request::Read(4),
            Request::Read(4),
        ]
    );
    assert_eq!(pushes(&requests), 1);
    assert_eq!(step, Step::Done(Output::Packets));
    assert_eq!(operation.into_packets(), vec![vec![9, 9, 9, 9]]);
    assert_eq!(s.get_rx_config(), &Some(c1));
}

#[test]
fn receive_failures_are_classified() {
    let c1 = rx(4);
    let cases = [
        (Some(90), DeviceError::PacketSize),
        (Some(16), DeviceError::Busy),
        (Some(22), DeviceError::InvalidConfig),
        (Some(14), DeviceError::Copy),
        (Some(5), DeviceError::Unknown),
        (None, DeviceError::Unknown),
    ];
    for (code, error) in cases {
        let mut s = session(Some(c1), true);
        let start = s.receive();
        let (_, step, _) = run(
            &mut s,
            start,
            vec![Reply::Handle, Reply::Packet(vec![0; 4]), Reply::OsError(code)],
        );
        assert_eq!(step, failed(error));
    }
}

#[test]
fn transmit_sets_the_config_and_writes() {
    let config = tx();
    let mut s = session(Some(rx(4)), true);
    let start = s.transmit(&config);
    let (requests, step, _) = run(
        &mut s,
        start,
        vec![Reply::Handle, Reply::Status(0), Reply::Written],
    );
    assert_eq!(
        requests,
        vec![Request::Duplicate, Request::SetTXConf(config), Request::Write]
    );
    assert_eq!(step, Step::Done(Output::Unit));
    assert_eq!(s.get_rx_config(), &Some(rx(4)));

    let write_cases = [
        (Some(22), DeviceError::PacketSize),
        (Some(12), DeviceError::OutOfMemory),
        (Some(14), DeviceError::Copy),
        (Some(42), DeviceError::Unknown),
        (None, DeviceError::Unknown),
    ];
    for (code, error) in write_cases {
        let mut s = session(None, true);
        let start = s.transmit(&config);
        let (_, step, _) = run(
            &mut s,
            start,
            vec![Reply::Handle, Reply::Status(0), Reply::OsError(code)],
        );
        assert_eq!(step, failed(error));
    }

    let config_cases = [
        (5, DeviceError::InvalidIOCTL),
        (14, DeviceError::Copy),
        (22, DeviceError::InvalidConfig),
        (12, DeviceError::Unknown),
    ];
    for (status, error) in config_cases {
        let mut s = session(None, true);
        let start = s.transmit(&config);
        let (requests, step, _) = run(&mut s, start, vec![Reply::Handle, Reply::Status(status)]);
        assert_eq!(requests.len(), 2);
        assert_eq!(step, failed(error));
    }
}

#[test]
fn reset_leaves_the_receive_config_of_the_session() {
    let c1 = rx(4);
    let mut s = session(Some(c1), true);
    let start = s.reset();
    let (requests, step, _) = run(&mut s, start, vec![Reply::Handle, Reply::Status(0)]);
    assert_eq!(requests, vec![Request::Duplicate, Request::Reset]);
    assert_eq!(step, Step::Done(Output::Unit));
    assert_eq!(s.get_rx_config(), &Some(c1));

    let start = s.receive();
    let (requests, _, _) = run(&mut s, start, vec![Reply::Handle, Reply::OsError(Some(42))]);
    assert_eq!(requests, vec![Request::Duplicate, Request::Read(4)]);
}

#[test]
fn queries_hand_the_value_of_the_driver_out() {
    let c1 = rx(4);
    let config = tx();
    let registers = Registers { FREQ2: 0x10, FREQ1: 0xB0, FREQ0: 0x71, ..Registers::default() };

    let mut s = session(None, true);
    let start = s.get_rssi();
    let (requests, step, _) = run(&mut s, start, vec![Reply::Handle, Reply::RSSI(0, 0x80)]);
    assert_eq!(requests, vec![Request::Duplicate, Request::GetRSSI]);
    assert_eq!(step, Step::Done(Output::Rssi(0x80)));

    let start = s.get_max_packet_size();
    let (requests, step, _) =
        run(&mut s, start, vec![Reply::Handle, Reply::MaxPacketSize(0, 1024)]);
    assert_eq!(requests, vec![Request::Duplicate, Request::GetMaxPacketSize]);
    assert_eq!(step, Step::Done(Output::MaxPacketSize(1024)));

    let start = s.get_device_tx_config();
    let (requests, step, _) = run(&mut s, start, vec![Reply::Handle, Reply::TXConf(0, config.to_fields())]);
    assert_eq!(requests, vec![Request::Duplicate, Request::GetTXConf]);
    assert_eq!(step, Step::Done(Output::TxConfig(config)));

    let start = s.get_device_rx_config();
    let (requests, step, _) = run(&mut s, start, vec![Reply::Handle, Reply::RXConf(0, c1.to_fields())]);
    assert_eq!(requests, vec![Request::Duplicate, Request::GetRXConf]);
    assert_eq!(step, Step::Done(Output::RxConfig(c1)));
    assert_eq!(s.get_rx_config(), &None);

    for kind in [RegistersType::Device, RegistersType::Tx, RegistersType::Rx] {
        let start = s.get_device_registers(kind);
        let (requests, step, _) =
            run(&mut s, start, vec![Reply::Handle, Reply::Registers(0, registers)]);
        assert_eq!(requests, vec![Request::Duplicate, Request::GetRegisters(kind)]);
        assert_eq!(step, Step::Done(Output::Registers(registers)));
    }

    let start = s.get_rssi();
    let (_, step, _) = run(&mut s, start, vec![Reply::Handle, Reply::RSSI(5, 0)]);
    assert_eq!(step, failed(DeviceError::InvalidIOCTL));
    let start = s.get_rssi();
    let (_, step, _) = run(&mut s, start, vec![Reply::Handle, Reply::RSSI(22, 0)]);
    assert_eq!(step, failed(DeviceError::Unknown));
}

#[test]
fn replies_of_the_wrong_kind_end_the_operation() {
    let mut s = session(None, true);
    let start = s.get_rssi();
    let (_, step, operation) = run(&mut s, start, vec![Reply::Handle, Reply::Status(0)]);
    assert_eq!(step, failed(DeviceError::Unknown));
    let (operation, step) = s.advance(operation, Reply::Handle);
    assert_eq!(step, failed(DeviceError::Unknown));
    assert_eq!(operation.get_stage(), Stage::Finished);

    let start = s.reset();
    let (_, step, _) = run(&mut s, start, vec![Reply::Written]);
    assert_eq!(step, failed(DeviceError::Unknown));
}

#[test]
fn no_operation_pushes_more_than_once() {
    let c1 = rx(4);
    let c2 = rx(8);
    let replies = || {
        vec![
            Reply::Handle,
            Reply::Version(0, VERSION),
            Reply::RXConf(0, c2.to_fields()),
            Reply::Status(0),
            Reply::RXConf(0, c2.to_fields()),
            Reply::Status(0),
            Reply::Packet(vec![0; 4]),
            Reply::OsError(Some(42)),
        ]
    };
    for blocking in [true, false] {
        for cached in [None, Some(c1), Some(c2)] {
            for command in [
                Command::Connect,
                Command::Receive,
                Command::SetRxConfig(c1),
                Command::SetRxConfig(c2),
                Command::Reset,
                Command::GetDeviceRxConfig,
                Command::Transmit(tx()),
            ] {
                let mut s = session(cached, blocking);
                let (mut operation, mut step) = s.begin(command);
                let mut count = 0;
                for reply in replies() {
                    match step {
                        Step::Request(Request::SetRXConf(_)) => count += 1,
                        Step::Request(_) => {}
                        _ => break,
                    }
                    let (o, st) = s.advance(operation, reply);
                    operation = o;
                    step = st;
                }
                assert!(count <= 1, "{:?} pushed {} times", command, count);
            }
        }
    }
}

#[test]
fn platform_error_codes_classify_the_statuses_of_the_driver() {
    let mut s = CC1101::new("/dev/cc1101.0.0", None, true);
    let codes = s.get_error_codes();
    assert_eq!(codes.eio, libc::EIO);
    assert_eq!(codes.efault, libc::EFAULT);
    assert_eq!(codes.einval, libc::EINVAL);
    assert_eq!(codes.enomem, libc::ENOMEM);
    assert_eq!(codes.ebusy, libc::EBUSY);
    assert_eq!(codes.enomsg, libc::ENOMSG);
    assert_eq!(codes.emsgsize, libc::EMSGSIZE);

    let start = s.reset();
    let (_, step, _) = run(&mut s, start, vec![Reply::Handle, Reply::Status(libc::EIO)]);
    assert_eq!(step, failed(DeviceError::InvalidIOCTL));

    let mut s = CC1101::new("/dev/cc1101.0.0", Some(rx(4)), true);
    let start = s.receive();
    let (_, step, _) =
        run(&mut s, start, vec![Reply::Handle, Reply::OsError(Some(libc::ENOMSG))]);
    assert_eq!(step, Step::Done(Output::Packets));
    let start = s.receive();
    let (_, step, _) =
        run(&mut s, start, vec![Reply::Handle, Reply::OsError(Some(libc::EMSGSIZE))]);
    assert_eq!(step, failed(DeviceError::PacketSize));
}

#[test]
fn registers_that_are_no_configuration_count_as_drift() {
    let c1 = rx(4);
    let mut garbled = c1.to_fields();
    garbled.common.modulation = 2;
    let mut s = session(Some(c1), false);
    let start = s.set_rx_config(&c1);
    let (requests, step, _) = run(
        &mut s,
        start,
        vec![
            Reply::Handle,
            Reply::Version(0, VERSION),
            Reply::RXConf(0, garbled),
            Reply::Status(0),
        ],
    );
    assert_eq!(requests.last(), Some(&Request::SetRXConf(c1)));
    assert_eq!(step, Step::Done(Output::Unit));

    let mut s = session(None, true);
    let start = s.get_device_rx_config();
    let (_, step, _) = run(&mut s, start, vec![Reply::Handle, Reply::RXConf(0, garbled)]);
    assert_eq!(step, failed(DeviceError::Unknown));

    let mut empty = c1.to_fields();
    empty.packet_length = 0;
    let start = s.get_device_rx_config();
    let (_, step, _) = run(&mut s, start, vec![Reply::Handle, Reply::RXConf(0, empty)]);
    assert_eq!(step, failed(DeviceError::Unknown));

    let mut tx_fields = tx().to_fields();
    tx_fields.common.modulation = 5;
    let start = s.get_device_tx_config();
    let (_, step, _) = run(&mut s, start, vec![Reply::Handle, Reply::TXConf(0, tx_fields)]);
    assert_eq!(step, failed(DeviceError::Unknown));
}
