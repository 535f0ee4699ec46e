use cc1101_rust::binary32::Binary32;
use cc1101_rust::config::{Modulation, RXConfig, Registers, RegistersType, TXConfig};
use cc1101_rust::errors::{
    classify_ioctl, classify_open, classify_read, classify_write, ErrorCodes, Ioctl,
    DEVICE_CHARACTER,
};
use cc1101_rust::ioctl;
use cc1101_rust::{CC1101Error, DeviceError};

const CODES: ErrorCodes = ErrorCodes {
    eio: 5,
    efault: 14,
    einval: 22,
    enomem: 12,
    ebusy: 16,
    enomsg: 42,
    emsgsize: 90,
};

const REQUESTS: [Ioctl; 11] = [
    Ioctl::GetVersion,
    Ioctl::Reset,
    Ioctl::SetTXConf,
    Ioctl::SetRXConf,
    Ioctl::GetTXConf,
    Ioctl::GetTXRawConf,
    Ioctl::GetRXConf,
    Ioctl::GetRXRawConf,
    Ioctl::GetDevRawConf,
    Ioctl::GetRSSI,
    Ioctl::GetMaxPacketSize,
];

fn device(error: DeviceError) -> CC1101Error {
    CC1101Error::Device(error)
}

#[test]
fn requests_are_numbered_as_the_driver_numbers_them() {
    for (number, request) in REQUESTS.iter().enumerate() {
        assert_eq!(request.number() as usize, number);
    }
    assert_eq!(DEVICE_CHARACTER, b'c');
}

#[test]
fn status_zero_is_success_for_every_request() {
    for request in REQUESTS {
        assert_eq!(classify_ioctl(request, 0, &CODES), None);
    }
}

#[test]
fn input_output_error_is_an_invalid_request_for_every_request() {
    for request in REQUESTS {
        assert_eq!(classify_ioctl(request, 5, &CODES), Some(DeviceError::InvalidIOCTL));
    }
}

#[test]
fn only_the_setting_requests_know_more_failures() {
    for request in REQUESTS {
        let (copy, invalid, memory) = match request {
            Ioctl::SetRXConf => {
                (DeviceError::Copy, DeviceError::InvalidConfig, DeviceError::OutOfMemory)
            }
            Ioctl::SetTXConf => (DeviceError::Copy, DeviceError::InvalidConfig, DeviceError::Unknown),
            _ => (DeviceError::Unknown, DeviceError::Unknown, DeviceError::Unknown),
        };
        assert_eq!(classify_ioctl(request, 14, &CODES), Some(copy));
        assert_eq!(classify_ioctl(request, 22, &CODES), Some(invalid));
        assert_eq!(classify_ioctl(request, 12, &CODES), Some(memory));
        assert_eq!(classify_ioctl(request, -1, &CODES), Some(DeviceError::Unknown));
        assert_eq!(classify_ioctl(request, 42, &CODES), Some(DeviceError::Unknown));
        assert_eq!(classify_ioctl(request, i32::MAX, &CODES), Some(DeviceError::Unknown));
    }
}

#[test]
fn codes_are_tried_in_order_when_a_platform_numbers_two_alike() {
    let alike = ErrorCodes { eio: 7, efault: 7, einval: 7, enomem: 7, ebusy: 7, enomsg: 7, emsgsize: 7 };
    assert_eq!(classify_ioctl(Ioctl::SetRXConf, 7, &alike), Some(DeviceError::InvalidIOCTL));
    assert_eq!(classify_open(Some(7), &alike), DeviceError::Busy);
    assert_eq!(classify_read(Some(7), &alike), None);
    assert_eq!(classify_write(Some(7), &alike), DeviceError::PacketSize);
    let zero = ErrorCodes { eio: 0, ..CODES };
    assert_eq!(classify_ioctl(Ioctl::Reset, 0, &zero), None);
}

#[test]
fn open_read_and_write_failures_are_classified() {
    assert_eq!(classify_open(Some(16), &CODES), DeviceError::Busy);
    assert_eq!(classify_open(Some(13), &CODES), DeviceError::Unknown);
    assert_eq!(classify_open(None, &CODES), DeviceError::Unknown);

    assert_eq!(classify_read(Some(42), &CODES), None);
    assert_eq!(classify_read(Some(90), &CODES), Some(DeviceError::PacketSize));
    assert_eq!(classify_read(Some(16), &CODES), Some(DeviceError::Busy));
    assert_eq!(classify_read(Some(22), &CODES), Some(DeviceError::InvalidConfig));
    assert_eq!(classify_read(Some(14), &CODES), Some(DeviceError::Copy));
    assert_eq!(classify_read(Some(12), &CODES), Some(DeviceError::Unknown));
    assert_eq!(classify_read(None, &CODES), Some(DeviceError::Unknown));

    assert_eq!(classify_write(Some(22), &CODES), DeviceError::PacketSize);
    assert_eq!(classify_write(Some(12), &CODES), DeviceError::OutOfMemory);
    assert_eq!(classify_write(Some(14), &CODES), DeviceError::Copy);
    assert_eq!(classify_write(Some(16), &CODES), DeviceError::Unknown);
    assert_eq!(classify_write(None, &CODES), DeviceError::Unknown);
}

#[test]
fn control_requests_give_their_value_or_their_failure() {
    let b = |value: f32| Binary32::from_bits(value.to_bits());
    let rx = RXConfig::default();
    let tx = TXConfig::new_raw(b(868.0), Modulation::GFSK, b(38.4), 0xC0, None, None).unwrap();
    let registers = Registers { PKTLEN: 0xFF, ..Registers::default() };

    assert_eq!(ioctl::get_version(0, 4, &CODES), Ok(4));
    assert_eq!(ioctl::get_version(5, 4, &CODES), Err(device(DeviceError::InvalidIOCTL)));
    assert_eq!(ioctl::get_version(14, 4, &CODES), Err(device(DeviceError::Unknown)));

    assert_eq!(ioctl::reset(0, &CODES), Ok(()));
    assert_eq!(ioctl::reset(5, &CODES), Err(device(DeviceError::InvalidIOCTL)));
    assert_eq!(ioctl::reset(22, &CODES), Err(device(DeviceError::Unknown)));

    for kind in [RegistersType::Device, RegistersType::Tx, RegistersType::Rx] {
        assert_eq!(ioctl::get_registers(0, kind, registers, &CODES), Ok(registers));
        assert_eq!(
            ioctl::get_registers(5, kind, registers, &CODES),
            Err(device(DeviceError::InvalidIOCTL))
        );
        assert_eq!(
            ioctl::get_registers(12, kind, registers, &CODES),
            Err(device(DeviceError::Unknown))
        );
    }

    let tx_fields = tx.to_fields();
    assert_eq!(ioctl::get_tx_conf(0, &tx_fields, &CODES), Ok(tx));
    assert_eq!(ioctl::get_tx_conf(5, &tx_fields, &CODES), Err(device(DeviceError::InvalidIOCTL)));
    assert_eq!(ioctl::get_tx_conf(22, &tx_fields, &CODES), Err(device(DeviceError::Unknown)));
    let mut garbled = tx_fields;
    garbled.common.modulation = 6;
    assert_eq!(ioctl::get_tx_conf(0, &garbled, &CODES), Err(device(DeviceError::Unknown)));
    assert_eq!(ioctl::get_tx_conf(5, &garbled, &CODES), Err(device(DeviceError::InvalidIOCTL)));

    let rx_fields = rx.to_fields();
    assert_eq!(ioctl::get_rx_conf(0, &rx_fields, &CODES), Ok(rx));
    assert_eq!(ioctl::get_rx_conf(5, &rx_fields, &CODES), Err(device(DeviceError::InvalidIOCTL)));
    assert_eq!(ioctl::get_rx_conf(22, &rx_fields, &CODES), Err(device(DeviceError::Unknown)));
    let mut garbled = rx_fields;
    garbled.carrier_sense_mode = 9;
    assert_eq!(ioctl::get_rx_conf(0, &garbled, &CODES), Err(device(DeviceError::Unknown)));

    assert_eq!(ioctl::set_rx_conf(0, &CODES), Ok(()));
    assert_eq!(ioctl::set_rx_conf(5, &CODES), Err(device(DeviceError::InvalidIOCTL)));
    assert_eq!(ioctl::set_rx_conf(14, &CODES), Err(device(DeviceError::Copy)));
    assert_eq!(ioctl::set_rx_conf(22, &CODES), Err(device(DeviceError::InvalidConfig)));
    assert_eq!(ioctl::set_rx_conf(12, &CODES), Err(device(DeviceError::OutOfMemory)));
    assert_eq!(ioctl::set_rx_conf(1, &CODES), Err(device(DeviceError::Unknown)));

    assert_eq!(ioctl::set_tx_conf(0, &CODES), Ok(()));
    assert_eq!(ioctl::set_tx_conf(5, &CODES), Err(device(DeviceError::InvalidIOCTL)));
    assert_eq!(ioctl::set_tx_conf(14, &CODES), Err(device(DeviceError::Copy)));
    assert_eq!(ioctl::set_tx_conf(22, &CODES), Err(device(DeviceError::InvalidConfig)));
    assert_eq!(ioctl::set_tx_conf(12, &CODES), Err(device(DeviceError::Unknown)));

    assert_eq!(ioctl::get_rssi(0, 0x7F, &CODES), Ok(0x7F));
    assert_eq!(ioctl::get_rssi(5, 0x7F, &CODES), Err(device(DeviceError::InvalidIOCTL)));
    assert_eq!(ioctl::get_rssi(-5, 0x7F, &CODES), Err(device(DeviceError::Unknown)));

    assert_eq!(ioctl::get_max_packet_size(0, 1024, &CODES), Ok(1024));
    assert_eq!(
        ioctl::get_max_packet_size(5, 1024, &CODES),
        Err(device(DeviceError::InvalidIOCTL))
    );
    assert_eq!(ioctl::get_max_packet_size(90, 1024, &CODES), Err(device(DeviceError::Unknown)));
}

#[test]
fn register_snapshot_is_forty_seven_bytes_in_register_order() {
    let bytes: Vec<u8> = (0u8..47).collect();
    let registers = Registers::from_bytes(&bytes).unwrap();
    assert_eq!(registers.IOCFG2, 0);
    assert_eq!(registers.IOCFG1, 1);
    assert_eq!(registers.IOCFG0, 2);
    assert_eq!(registers.FIFOTHR, 3);
    assert_eq!(registers.SYNC1, 4);
    assert_eq!(registers.SYNC0, 5);
    assert_eq!(registers.PKTLEN, 6);
    assert_eq!(registers.FREQ2, 13);
    assert_eq!(registers.FREQ1, 14);
    assert_eq!(registers.FREQ0, 15);
    assert_eq!(registers.MDMCFG4, 16);
    assert_eq!(registers.DEVIATN, 21);
    assert_eq!(registers.AGCCTRL2, 27);
    assert_eq!(registers.FREND0, 34);
    assert_eq!(registers.FSCAL0, 38);
    assert_eq!(registers.TEST2, 44);
    assert_eq!(registers.TEST1, 45);
    assert_eq!(registers.TEST0, 46);
    assert_eq!(registers.to_bytes(), bytes);

    assert_eq!(Registers::from_bytes(&bytes[..46]), None);
    assert_eq!(Registers::from_bytes(&[0u8; 48]), None);
    assert_eq!(Registers::from_bytes(&[]), None);
    assert_eq!(Registers::default().to_bytes(), vec![0u8; 47]);
    assert_eq!(Registers::from_bytes(&[0u8; 47]), Some(Registers::default()));
}
