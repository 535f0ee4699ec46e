#![allow(clippy::excessive_precision)]
use cc1101_rust::binary32::Binary32;
use cc1101_rust::config::{CommonConfig, Modulation, RXConfig};
use cc1101_rust::{CC1101Error, ConfigError};

fn b(value: f32) -> Binary32 {
    Binary32::from_bits(value.to_bits())
}

fn f(value: Binary32) -> f32 {
    f32::from_bits(value.to_bits())
}

#[test]
fn test_freq() -> Result<(), CC1101Error> {
    assert_eq!(CommonConfig::frequency_to_config(b(315.0))?, 0x000C1D89);
    assert_eq!(CommonConfig::frequency_to_config(b(433.0))?, 0x0010A762);
    assert_eq!(CommonConfig::frequency_to_config(b(868.0))?, 0x00216276);
    assert_eq!(CommonConfig::frequency_to_config(b(915.0))?, 0x0023313B);

    assert_eq!(CommonConfig::frequency_to_config(b(299.999756))?, 0x000B89D8);
    assert_eq!(CommonConfig::frequency_to_config(b(347.999939))?, 0x000D6276);
    assert_eq!(CommonConfig::frequency_to_config(b(386.999939))?, 0x000EE276);
    assert_eq!(CommonConfig::frequency_to_config(b(463.999786))?, 0x0011D89D);
    assert_eq!(CommonConfig::frequency_to_config(b(778.999878))?, 0x001DF627);
    assert_eq!(CommonConfig::frequency_to_config(b(928.000000))?, 0x0023B13B);

    assert_eq!(f(CommonConfig::config_to_frequency(0x000B89D8)), 299.999756);
    assert_eq!(f(CommonConfig::config_to_frequency(0x000D6276)), 347.999939);
    assert_eq!(f(CommonConfig::config_to_frequency(0x000EE276)), 386.999939);
    assert_eq!(f(CommonConfig::config_to_frequency(0x0011D89D)), 463.999786);
    assert_eq!(f(CommonConfig::config_to_frequency(0x001DF627)), 778.999878);
    assert_eq!(f(CommonConfig::config_to_frequency(0x0023B13B)), 928.000000);

    assert_eq!(f(CommonConfig::config_to_frequency(0x000C1D89)), 314.999664);
    assert_eq!(f(CommonConfig::config_to_frequency(0x0010A762)), 432.999817);
    assert_eq!(f(CommonConfig::config_to_frequency(0x00216276)), 867.999939);
    assert_eq!(f(CommonConfig::config_to_frequency(0x0023313B)), 915.000000);

    assert!(CommonConfig::frequency_to_config(b(0.0)).is_err());
    assert!(CommonConfig::frequency_to_config(b(464.0)).is_err());
    assert!(CommonConfig::frequency_to_config(b(999.0)).is_err());

    Ok(())
}

#[test]
fn test_baud_rate() -> Result<(), CC1101Error> {
    assert_eq!(
        CommonConfig::baud_rate_to_config(Modulation::FSK2, b(0.6))?,
        (0x83, 0x04)
    );
    assert_eq!(
        CommonConfig::baud_rate_to_config(Modulation::FSK2, b(0.599742))?,
        (0x83, 0x04)
    );

    assert_eq!(
        CommonConfig::baud_rate_to_config(Modulation::FSK2, b(26.0))?,
        (0x06, 0x0A)
    );
    assert_eq!(
        CommonConfig::baud_rate_to_config(Modulation::FSK2, b(25.9857))?,
        (0x06, 0x0A)
    );

    assert_eq!(
        CommonConfig::baud_rate_to_config(Modulation::FSK2, b(250.0))?,
        (0x3B, 0x0D)
    );
    assert_eq!(
        CommonConfig::baud_rate_to_config(Modulation::FSK2, b(249.939))?,
        (0x3B, 0x0D)
    );

    assert_eq!(
        CommonConfig::baud_rate_to_config(Modulation::FSK2, b(300.0))?,
        (0x7A, 0x0D)
    );
    assert_eq!(
        CommonConfig::baud_rate_to_config(Modulation::FSK2, b(299.927))?,
        (0x7A, 0x0D)
    );

    assert_eq!(
        CommonConfig::baud_rate_to_config(Modulation::FSK2, b(500.0))?,
        (0x3B, 0x0E)
    );
    assert_eq!(
        CommonConfig::baud_rate_to_config(Modulation::FSK2, b(499.878))?,
        (0x3B, 0x0E)
    );

    assert_eq!(
        CommonConfig::baud_rate_to_config(Modulation::FSK2, b(115.051))?,
        (0x22, 0x0C)
    );

    assert_eq!(f(CommonConfig::config_to_baud_rate(0x83, 0x04)), 0.599742);
    assert_eq!(f(CommonConfig::config_to_baud_rate(0x06, 0x0A)), 25.98572);
    assert_eq!(f(CommonConfig::config_to_baud_rate(0x3B, 0x0D)), 249.93896);
    assert_eq!(f(CommonConfig::config_to_baud_rate(0x7A, 0x0D)), 299.92676);
    assert_eq!(f(CommonConfig::config_to_baud_rate(0x3B, 0x0E)), 499.87793);
    assert_eq!(f(CommonConfig::config_to_baud_rate(0x22, 0x0C)), 115.05126);

    assert!(CommonConfig::baud_rate_to_config(Modulation::FSK2, b(0.0)).is_err());
    assert!(CommonConfig::baud_rate_to_config(Modulation::FSK2, b(999.0)).is_err());

    Ok(())
}

#[test]
fn test_deviation() -> Result<(), CC1101Error> {
    assert_eq!(CommonConfig::deviation_to_config(b(1.586914))?, (0x00, 0x00));
    assert_eq!(CommonConfig::deviation_to_config(b(380.85938))?, (0x07, 0x07));
    assert_eq!(f(CommonConfig::config_to_deviation(0x00, 0x00)), 1.586914);
    assert_eq!(f(CommonConfig::config_to_deviation(0x07, 0x07)), 380.859375);
    assert!(CommonConfig::deviation_to_config(b(0.0)).is_err());
    assert!(CommonConfig::deviation_to_config(b(400.0)).is_err());

    Ok(())
}

#[test]
fn test_sync_word() -> Result<(), CC1101Error> {
    CommonConfig::sync_word_to_config(0x00000000)?;
    CommonConfig::sync_word_to_config(0x0000FFFF)?;
    CommonConfig::sync_word_to_config(0xFFFFFFFF)?;

    assert!(CommonConfig::sync_word_to_config(0xFFFF0000).is_err());
    assert!(CommonConfig::sync_word_to_config(0xAAAABBBB).is_err());
    Ok(())
}

#[test]
fn test_bandwidth() -> Result<(), CC1101Error> {
    assert_eq!(RXConfig::bandwidth_to_config(812)?, (0x00, 0x00));
    assert_eq!(RXConfig::bandwidth_to_config(58)?, (0x03, 0x03));

    assert_eq!(RXConfig::config_to_bandwidth(0x00, 0x00), 812);
    assert_eq!(RXConfig::config_to_bandwidth(0x03, 0x03), 58);

    assert!(RXConfig::bandwidth_to_config(0).is_err());
    assert!(RXConfig::bandwidth_to_config(400).is_err());

    Ok(())
}

#[test]
fn bandwidth_rejects_with_invalid_bandwidth() {
    assert_eq!(
        RXConfig::bandwidth_to_config(400),
        Err(CC1101Error::Config(ConfigError::InvalidBandwidth))
    );
}

use cc1101_rust::config::{CarrierSense, TXConfig};
use cc1101_rust::patable::{PowerLevel, PowerTables};

fn level(byte: u8, dbm: f32) -> PowerLevel {
    PowerLevel { byte, dbm: b(dbm) }
}

/// Power tables of a few rows per band, for the tests of the lookups.
fn sample_tables() -> PowerTables {
    PowerTables {
        mhz_315: vec![
            level(0xC2, 10.0),
            level(0xCB, 7.0),
            level(0x85, 5.0),
            level(0x51, 0.0),
            level(0x34, -10.0),
            level(0x1C, -15.0),
            level(0x0D, -20.0),
            level(0x12, -30.0),
        ],
        mhz_433: vec![
            level(0xC0, 10.0),
            level(0xC8, 7.0),
            level(0x84, 5.0),
            level(0x60, 0.1),
            level(0x34, -10.0),
            level(0x1D, -15.0),
            level(0x0E, -20.0),
            level(0x12, -30.0),
        ],
        mhz_868: vec![
            level(0xC0, 12.0),
            level(0xC5, 10.0),
            level(0xCD, 7.0),
            level(0x86, 5.0),
            level(0x50, 0.0),
            level(0x37, -6.0),
            level(0x26, -10.0),
            level(0x1D, -15.0),
            level(0x17, -20.0),
            level(0x03, -30.0),
        ],
        mhz_915: vec![
            level(0xC0, 11.0),
            level(0xC3, 10.0),
            level(0xCC, 7.0),
            level(0x84, 5.0),
            level(0x8E, 0.0),
            level(0x38, -6.0),
            level(0x27, -10.0),
            level(0x1E, -15.0),
            level(0x0E, -20.0),
            level(0x03, -30.0),
        ],
    }
}

#[test]
fn test_tx_power() -> Result<(), CC1101Error> {
    let tables = sample_tables();
    assert!(TXConfig::config_to_tx_power(&tables, b(123.0), 0xFF).is_err());
    assert!(TXConfig::config_to_tx_power(&tables, b(433.0), 0xFF).is_err());
    assert!(TXConfig::tx_power_to_config(&tables, b(433.0), b(-1.0)).is_err());

    for frequency in [315.0, 433.0, 868.0, 915.0] {
        let power_table = TXConfig::get_power_table(&tables, b(frequency))?;
        for row in power_table {
            assert_eq!(
                f(TXConfig::config_to_tx_power(&tables, b(frequency), row.byte)?),
                f(row.dbm)
            );
            assert_eq!(
                TXConfig::tx_power_to_config(&tables, b(frequency), row.dbm)?,
                row.byte
            );
        }
    }

    Ok(())
}

#[test]
fn tx_power_errors_name_the_cause() {
    let tables = sample_tables();
    assert_eq!(
        TXConfig::config_to_tx_power(&tables, b(123.0), 0xC0).map(f),
        Err(CC1101Error::Config(ConfigError::InvalidFrequency))
    );
    assert_eq!(
        TXConfig::tx_power_to_config(&tables, b(500.0), b(10.0)),
        Err(CC1101Error::Config(ConfigError::InvalidFrequency))
    );
    assert_eq!(
        TXConfig::config_to_tx_power(&tables, b(433.0), 0xFF).map(f),
        Err(CC1101Error::Config(ConfigError::InvalidTXPower))
    );
    assert_eq!(
        TXConfig::tx_power_to_config(&tables, b(433.0), b(-1.0)),
        Err(CC1101Error::Config(ConfigError::InvalidTXPower))
    );
    assert_eq!(
        TXConfig::tx_power_to_config(&tables, b(f32::NAN), b(10.0)),
        Err(CC1101Error::Config(ConfigError::InvalidFrequency))
    );
}

#[test]
fn tx_config_looks_its_power_up_in_the_band_of_its_frequency() -> Result<(), CC1101Error> {
    let tables = sample_tables();
    let config = TXConfig::new(b(433.92), Modulation::OOK, b(1.0), b(0.1), None, None, &tables)?;
    assert_eq!(config.get_tx_power_raw(), 0x60);
    assert_eq!(f(config.get_tx_power(&tables)?), 0.1);
    assert_eq!(config.get_common_config().get_modulation(), Modulation::OOK);

    let config = TXConfig::new(b(868.3), Modulation::GFSK, b(38.4), b(-30.0), None, None, &tables)?;
    assert_eq!(config.get_tx_power_raw(), 0x03);

    // 440 MHz is a legal frequency, but no band of the tables is near it.
    assert_eq!(
        TXConfig::new(b(440.0), Modulation::OOK, b(1.0), b(0.1), None, None, &tables).map(|_| ()),
        Err(CC1101Error::Config(ConfigError::InvalidFrequency))
    );
    assert_eq!(
        TXConfig::new(b(433.92), Modulation::OOK, b(1.0), b(0.2), None, None, &tables).map(|_| ()),
        Err(CC1101Error::Config(ConfigError::InvalidTXPower))
    );
    // The shared arguments are checked before the power.
    assert_eq!(
        TXConfig::new(b(433.92), Modulation::OOK, b(0.1), b(0.2), None, None, &tables).map(|_| ()),
        Err(CC1101Error::Config(ConfigError::InvalidBaudRate))
    );
    Ok(())
}

#[test]
fn tx_config_with_a_raw_power_accepts_any_legal_frequency() -> Result<(), CC1101Error> {
    let mut config = TXConfig::new_raw(b(440.0), Modulation::OOK, b(1.0), 0x60, None, None)?;
    assert_eq!(config.get_tx_power_raw(), 0x60);
    config.set_tx_power_raw(0x12);
    assert_eq!(config.get_tx_power_raw(), 0x12);
    let tables = sample_tables();
    assert_eq!(
        config.get_tx_power(&tables).map(f),
        Err(CC1101Error::Config(ConfigError::InvalidFrequency))
    );
    assert_eq!(
        config.set_tx_power(b(10.0), &tables),
        Err(CC1101Error::Config(ConfigError::InvalidFrequency))
    );
    assert_eq!(config.get_tx_power_raw(), 0x12);
    assert_eq!(
        TXConfig::new_raw(b(10.0), Modulation::OOK, b(1.0), 0x60, None, None).map(|_| ()),
        Err(CC1101Error::Config(ConfigError::InvalidFrequency))
    );
    Ok(())
}

#[test]
fn defaults_are_mid_band_on_off_keying_at_one_kilobaud() {
    let common = CommonConfig::default();
    let fields = common.to_fields();
    assert_eq!(fields.frequency, 0x10B071);
    assert_eq!(f(common.get_frequency()), 433.91983);
    assert_eq!(common.get_modulation(), Modulation::OOK);
    assert_eq!(fields.modulation, 3);
    assert_eq!((fields.baud_rate_mantissa, fields.baud_rate_exponent), (0x43, 0x05));
    assert_eq!(f(common.get_baud_rate()), 1.00112);
    assert_eq!((fields.deviation_mantissa, fields.deviation_exponent), (0x07, 0x04));
    assert_eq!(f(common.get_deviation()), 47.607422);
    assert_eq!(common.get_sync_word(), 0);

    let rx = RXConfig::default();
    assert_eq!(rx.get_common_config(), &common);
    assert_eq!(rx.get_bandwith(), 203);
    assert_eq!(rx.get_max_lna_gain(), 0);
    assert_eq!(rx.get_max_dvga_gain(), 0);
    assert_eq!(rx.get_magn_target(), 33);
    assert_eq!(rx.get_carrier_sense(), Some(CarrierSense::Relative(6)));
    assert_eq!(rx.get_packet_length(), 1024);

    let tx = TXConfig::default();
    assert_eq!(tx.get_common_config(), &common);
    assert_eq!(tx.get_tx_power_raw(), 0);
}

#[test]
fn common_config_converts_in_order_and_reports_the_first_refusal() -> Result<(), CC1101Error> {
    let config = CommonConfig::new(b(433.92), Modulation::OOK, b(1.0), None, None)?;
    assert_eq!(config, CommonConfig::default());

    let config =
        CommonConfig::new(b(868.0), Modulation::FSK2, b(250.0), Some(b(380.85938)), Some(0x0f0f0f0f))?;
    let fields = config.to_fields();
    assert_eq!(fields.frequency, 0x00216276);
    assert_eq!(fields.modulation, 0);
    assert_eq!((fields.baud_rate_mantissa, fields.baud_rate_exponent), (0x3B, 0x0D));
    assert_eq!((fields.deviation_mantissa, fields.deviation_exponent), (0x07, 0x07));
    assert_eq!(fields.sync_word, 0x0f0f0f0f);

    let refused = |r: Result<CommonConfig, CC1101Error>| r.map(|_| ());
    assert_eq!(
        refused(CommonConfig::new(b(100.0), Modulation::OOK, b(0.1), Some(b(1.0)), Some(0x10000))),
        Err(CC1101Error::Config(ConfigError::InvalidFrequency))
    );
    assert_eq!(
        refused(CommonConfig::new(b(433.92), Modulation::OOK, b(0.1), Some(b(1.0)), Some(0x10000))),
        Err(CC1101Error::Config(ConfigError::InvalidBaudRate))
    );
    assert_eq!(
        refused(CommonConfig::new(b(433.92), Modulation::OOK, b(1.0), Some(b(1.0)), Some(0x10000))),
        Err(CC1101Error::Config(ConfigError::InvalidSyncWord))
    );
    assert_eq!(
        refused(CommonConfig::new(b(433.92), Modulation::OOK, b(1.0), Some(b(1.0)), Some(0xFFFF))),
        Err(CC1101Error::Config(ConfigError::InvalidDeviation))
    );
    Ok(())
}

#[test]
fn baud_rate_limits_depend_on_the_modulation() {
    let accepted = |m: Modulation, rate: f32| CommonConfig::baud_rate_to_config(m, b(rate)).is_ok();
    let above = |rate: f32| f32::from_bits(rate.to_bits() + 1);
    for m in [Modulation::FSK2, Modulation::GFSK, Modulation::OOK, Modulation::FSK4] {
        assert!(accepted(m, 0.599742));
        assert!(accepted(m, 0.6));
        assert!(!accepted(m, 0.59974));
        assert!(accepted(m, 249.939));
        assert!(accepted(m, 250.0));
    }
    for m in [Modulation::GFSK, Modulation::OOK] {
        assert!(!accepted(m, above(250.0)));
        assert!(!accepted(m, 300.0));
    }
    assert!(accepted(Modulation::FSK4, 299.927));
    assert!(accepted(Modulation::FSK4, 300.0));
    assert!(!accepted(Modulation::FSK4, above(300.0)));
    assert!(accepted(Modulation::FSK2, 500.0));
    assert!(!accepted(Modulation::FSK2, above(500.0)));
    assert!(!accepted(Modulation::FSK2, 500.1));
    assert!(!accepted(Modulation::MSK, 25.0));
    assert!(accepted(Modulation::FSK2, 25.0));
    assert!(!accepted(Modulation::MSK, 25.98));
    assert!(accepted(Modulation::MSK, 25.9857));
    assert!(accepted(Modulation::MSK, 26.0));
    assert!(accepted(Modulation::MSK, 499.878));
    assert!(accepted(Modulation::MSK, 500.0));
    assert!(!accepted(Modulation::MSK, above(500.0)));
    for m in [Modulation::FSK2, Modulation::GFSK, Modulation::OOK, Modulation::FSK4, Modulation::MSK]
    {
        assert!(!accepted(m, 0.0));
        assert!(!accepted(m, 999.0));
        assert!(!accepted(m, f32::NAN));
        assert!(!accepted(m, -1.0));
        assert!(!accepted(m, f32::INFINITY));
    }
    assert_eq!(
        CommonConfig::baud_rate_to_config(Modulation::MSK, b(1.0)),
        Err(CC1101Error::Config(ConfigError::InvalidBaudRate))
    );
}

#[test]
fn highest_rate_of_each_modulation_has_registers() {
    assert_eq!(
        CommonConfig::baud_rate_to_config(Modulation::MSK, b(500.0)),
        Ok((0x3B, 0x0E))
    );
    assert_eq!(
        CommonConfig::baud_rate_to_config(Modulation::FSK2, b(500.0)),
        Ok((0x3B, 0x0E))
    );
    assert_eq!(
        CommonConfig::baud_rate_to_config(Modulation::GFSK, b(250.0)),
        Ok((0x3B, 0x0D))
    );
    assert_eq!(
        CommonConfig::baud_rate_to_config(Modulation::OOK, b(250.0)),
        Ok((0x3B, 0x0D))
    );
    assert_eq!(
        CommonConfig::baud_rate_to_config(Modulation::FSK4, b(300.0)),
        Ok((0x7A, 0x0D))
    );
    let mut common = CommonConfig::default();
    assert_eq!(common.set_modulation_and_baud_rate(Modulation::MSK, b(500.0)), Ok(()));
    assert_eq!(common.get_modulation(), Modulation::MSK);
    assert_eq!(f(common.get_baud_rate()), 499.87793);
}

#[test]
fn packet_length_is_never_zero() {
    let mut rx = RXConfig::default();
    assert!(rx.get_packet_length() > 0);
    rx.set_packet_length(1);
    assert_eq!(rx.get_packet_length(), 1);
    rx.set_packet_length(u32::MAX);
    assert_eq!(rx.get_packet_length(), u32::MAX);
    let mut fields = rx.to_fields();
    assert_eq!(RXConfig::from_fields(&fields), Some(rx));
    fields.packet_length = 0;
    assert_eq!(RXConfig::from_fields(&fields), None);
    fields.packet_length = 7;
    assert_eq!(RXConfig::from_fields(&fields).map(|c| c.get_packet_length()), Some(7));
}

#[test]
fn baud_rate_at_a_power_of_two_takes_the_higher_exponent() {
    // 406.25 kBaud is 2^14 times the crystal frequency over 2^20.
    assert_eq!(
        CommonConfig::baud_rate_to_config(Modulation::FSK2, b(406.25)),
        Ok((0x00, 0x0E))
    );
    // Just below it the mantissa would round to 256 and is held at 255.
    assert_eq!(
        CommonConfig::baud_rate_to_config(Modulation::FSK2, b(406.2)),
        Ok((0xFF, 0x0D))
    );
}

#[test]
fn baud_rates_that_the_registers_hold_come_back_exactly() -> Result<(), CC1101Error> {
    for exponent in 5u8..=13 {
        for mantissa in [1u8, 0x22, 0x3B, 0x7A, 0x83, 0xFE, 0xFF] {
            let rate = CommonConfig::config_to_baud_rate(mantissa, exponent);
            assert_eq!(
                CommonConfig::baud_rate_to_config(Modulation::FSK2, rate)?,
                (mantissa, exponent),
                "mantissa {} exponent {}",
                mantissa,
                exponent
            );
        }
    }
    Ok(())
}

#[test]
fn encoded_baud_rates_decode_to_within_one_part_in_five_hundred() -> Result<(), CC1101Error> {
    for rate in [0.6f32, 1.0, 2.4, 9.6, 38.4, 76.8, 100.0, 115.051, 250.0, 499.0] {
        let (mantissa, exponent) = CommonConfig::baud_rate_to_config(Modulation::FSK2, b(rate))?;
        let back = f(CommonConfig::config_to_baud_rate(mantissa, exponent));
        assert!((back - rate).abs() <= rate / 500.0, "{} came back as {}", rate, back);
    }
    Ok(())
}

#[test]
fn frequency_words_are_the_floor_of_the_datasheet_formula() -> Result<(), CC1101Error> {
    let bands: [(f32, f32); 3] =
        [(299.99976, 347.99994), (386.99994, 463.9998), (778.9999, 928.0)];
    for (low, high) in bands {
        let mut bits = low.to_bits();
        while bits <= high.to_bits() {
            let frequency = f32::from_bits(bits);
            let expected = (frequency as f64 * 65536.0 / 26.0).floor() as u32;
            assert_eq!(CommonConfig::frequency_to_config(b(frequency))?, expected);
            bits += 997;
        }
        assert!(CommonConfig::frequency_to_config(Binary32::from_bits(low.to_bits() - 1)).is_err());
        assert!(CommonConfig::frequency_to_config(Binary32::from_bits(high.to_bits() + 1)).is_err());
        assert!(CommonConfig::frequency_to_config(b(low)).is_ok());
        assert!(CommonConfig::frequency_to_config(b(high)).is_ok());
    }
    assert_eq!(
        CommonConfig::frequency_to_config(b(f32::NAN)),
        Err(CC1101Error::Config(ConfigError::InvalidFrequency))
    );
    assert!(CommonConfig::frequency_to_config(b(-315.0)).is_err());
    Ok(())
}

#[test]
fn frequencies_come_back_within_one_step() -> Result<(), CC1101Error> {
    let step: f64 = 26.0 / 65536.0;
    let bands: [(f32, f32); 3] =
        [(299.99976, 347.99994), (386.99994, 463.9998), (778.9999, 928.0)];
    for (low, high) in bands {
        let mut bits = low.to_bits();
        while bits <= high.to_bits() {
            let frequency = f32::from_bits(bits);
            let word = CommonConfig::frequency_to_config(b(frequency))?;
            let back = f(CommonConfig::config_to_frequency(word));
            assert!(back <= frequency);
            assert!((frequency as f64) - (back as f64) < step);
            bits += 1013;
        }
    }
    assert_eq!(CommonConfig::frequency_to_config(b(315.0))?, 0x000C1D89);
    assert_eq!(f(CommonConfig::config_to_frequency(0x000C1D89)), 314.999664);
    Ok(())
}

#[test]
fn every_deviation_of_the_radio_comes_back_exactly() -> Result<(), CC1101Error> {
    let mut seen: Vec<u32> = Vec::new();
    for mantissa in 0u8..8 {
        for exponent in 0u8..8 {
            let deviation = CommonConfig::config_to_deviation(mantissa, exponent);
            assert!(!seen.contains(&deviation.to_bits()));
            seen.push(deviation.to_bits());
            let (m, e) = CommonConfig::deviation_to_config(deviation)?;
            assert_eq!((m, e), (mantissa, exponent));
            assert_eq!(
                CommonConfig::config_to_deviation(m, e).to_bits(),
                deviation.to_bits()
            );
        }
    }
    assert_eq!(
        CommonConfig::deviation_to_config(b(400.0)),
        Err(CC1101Error::Config(ConfigError::InvalidDeviation))
    );
    assert!(CommonConfig::deviation_to_config(b(f32::NAN)).is_err());
    assert!(CommonConfig::deviation_to_config(b(-1.586914)).is_err());
    Ok(())
}

#[test]
fn every_bandwidth_of_the_radio_comes_back_exactly() -> Result<(), CC1101Error> {
    let valid = [58, 67, 81, 101, 116, 135, 162, 203, 232, 270, 325, 406, 464, 541, 650, 812];
    for mantissa in 0u8..4 {
        for exponent in 0u8..4 {
            let bandwidth = RXConfig::config_to_bandwidth(mantissa, exponent);
            assert!(valid.contains(&bandwidth));
            assert_eq!(RXConfig::bandwidth_to_config(bandwidth)?, (mantissa, exponent));
        }
    }
    for bandwidth in 0u32..1000 {
        assert_eq!(
            RXConfig::bandwidth_to_config(bandwidth).is_ok(),
            valid.contains(&bandwidth)
        );
    }
    Ok(())
}

#[test]
fn sync_words_of_sixteen_bits_or_of_two_equal_halves_are_valid() {
    for word in [0u32, 1, 0x1234, 0xFFFF, 0x0f0f0f0f, 0x00010001, 0xFFFFFFFF] {
        assert_eq!(CommonConfig::sync_word_to_config(word), Ok(word));
    }
    for word in [0x10000u32, 0xFFFF0000, 0xAAAABBBB, 0x00010002, 0x80000000] {
        assert_eq!(
            CommonConfig::sync_word_to_config(word),
            Err(CC1101Error::Config(ConfigError::InvalidSyncWord))
        );
    }
}

#[test]
fn setters_leave_the_configuration_alone_when_they_refuse() -> Result<(), CC1101Error> {
    let mut common = CommonConfig::new(b(315.0), Modulation::GFSK, b(38.4), Some(b(1.586914)), Some(0xD391))?;
    let before = common;
    assert!(common.set_frequency(b(500.0)).is_err());
    assert!(common.set_modulation_and_baud_rate(Modulation::MSK, b(1.0)).is_err());
    assert!(common.set_deviation(b(2.0)).is_err());
    assert!(common.set_sync_word(0xFFFF0000).is_err());
    assert_eq!(common, before);

    common.set_frequency(b(915.0))?;
    assert_eq!(f(common.get_frequency()), 915.0);
    common.set_modulation_and_baud_rate(Modulation::MSK, b(26.0))?;
    assert_eq!(common.get_modulation(), Modulation::MSK);
    assert_eq!(f(common.get_baud_rate()), 25.98572);
    common.set_deviation(b(380.85938))?;
    assert_eq!(f(common.get_deviation()), 380.859375);
    common.set_sync_word(0xFFFFFFFF)?;
    assert_eq!(common.get_sync_word(), 0xFFFFFFFF);

    let mut rx = RXConfig::default();
    let before = rx;
    assert_eq!(rx.set_bandwidth(400), Err(CC1101Error::Config(ConfigError::InvalidBandwidth)));
    assert_eq!(
        rx.set_carrier_sense(Some(CarrierSense::Relative(7))),
        Err(CC1101Error::Config(ConfigError::InvalidCarrierSense))
    );
    assert_eq!(
        rx.set_carrier_sense(Some(CarrierSense::Absolute(8))),
        Err(CC1101Error::Config(ConfigError::InvalidCarrierSense))
    );
    assert_eq!(
        rx.set_carrier_sense(Some(CarrierSense::Absolute(-8))),
        Err(CC1101Error::Config(ConfigError::InvalidCarrierSense))
    );
    assert_eq!(rx.set_max_lna_gain(1), Err(CC1101Error::Config(ConfigError::InvalidMaxLNAGain)));
    assert_eq!(rx.set_max_dvga_gain(3), Err(CC1101Error::Config(ConfigError::InvalidMaxDVGAGain)));
    assert_eq!(rx.set_magn_target(25), Err(CC1101Error::Config(ConfigError::InvalidMagnTarget)));
    assert_eq!(rx, before);
    Ok(())
}

#[test]
fn receive_settings_are_stored_as_given() -> Result<(), CC1101Error> {
    let mut rx = RXConfig::default();
    for gain in [0u8, 3, 6, 7, 9, 12, 15, 17] {
        rx.set_max_lna_gain(gain)?;
        assert_eq!(rx.get_max_lna_gain(), gain);
    }
    for gain in [0u8, 6, 12, 18] {
        rx.set_max_dvga_gain(gain)?;
        assert_eq!(rx.get_max_dvga_gain(), gain);
    }
    for target in [24u8, 27, 30, 33, 36, 38, 40, 42] {
        rx.set_magn_target(target)?;
        assert_eq!(rx.get_magn_target(), target);
    }
    for step in [6i8, 10, 14] {
        rx.set_carrier_sense(Some(CarrierSense::Relative(step)))?;
        assert_eq!(rx.get_carrier_sense(), Some(CarrierSense::Relative(step)));
    }
    for offset in -7i8..=7 {
        rx.set_carrier_sense(Some(CarrierSense::Absolute(offset)))?;
        assert_eq!(rx.get_carrier_sense(), Some(CarrierSense::Absolute(offset)));
    }
    rx.set_carrier_sense(None)?;
    assert_eq!(rx.get_carrier_sense(), None);
    assert_eq!(rx.to_fields().carrier_sense_mode, 0);
    assert_eq!(rx.to_fields().carrier_sense, 0);
    rx.set_bandwidth(812)?;
    assert_eq!(rx.get_bandwith(), 812);
    rx.set_packet_length(64);
    assert_eq!(rx.get_packet_length(), 64);
    rx.get_common_config_mut().set_sync_word(0x1234)?;
    assert_eq!(rx.get_common_config().get_sync_word(), 0x1234);
    Ok(())
}

#[test]
fn receive_config_sets_in_order_and_reports_the_first_refusal() -> Result<(), CC1101Error> {
    let rx = RXConfig::new(
        b(433.92),
        Modulation::OOK,
        b(1.0),
        64,
        None,
        None,
        None,
        None,
        None,
        None,
        None,
    )?;
    assert_eq!(rx.get_packet_length(), 64);
    assert_eq!(rx.get_carrier_sense(), None);
    assert_eq!(rx.get_bandwith(), 203);
    assert_eq!(rx.get_magn_target(), 33);

    let rx = RXConfig::new(
        b(868.0),
        Modulation::GFSK,
        b(38.4),
        32,
        Some(b(19.042969)),
        Some(0xD391),
        Some(101),
        Some(CarrierSense::Absolute(-3)),
        Some(17),
        Some(18),
        Some(42),
    )?;
    assert_eq!(rx.get_bandwith(), 101);
    assert_eq!(rx.get_carrier_sense(), Some(CarrierSense::Absolute(-3)));
    assert_eq!(rx.get_max_lna_gain(), 17);
    assert_eq!(rx.get_max_dvga_gain(), 18);
    assert_eq!(rx.get_magn_target(), 42);
    assert_eq!(rx.get_common_config().get_sync_word(), 0xD391);

    let build = |frequency: f32,
                 bandwidth: u32,
                 sense: i8,
                 lna: u8,
                 dvga: u8,
                 magn: u8| {
        RXConfig::new(
            b(frequency),
            Modulation::OOK,
            b(1.0),
            64,
            None,
            None,
            Some(bandwidth),
            Some(CarrierSense::Relative(sense)),
            Some(lna),
            Some(dvga),
            Some(magn),
        )
        .map(|_| ())
    };
    assert_eq!(build(1.0, 1, 1, 1, 1, 1), Err(CC1101Error::Config(ConfigError::InvalidFrequency)));
    assert_eq!(
        build(315.0, 1, 1, 1, 1, 1),
        Err(CC1101Error::Config(ConfigError::InvalidCarrierSense))
    );
    assert_eq!(build(315.0, 1, 6, 1, 1, 1), Err(CC1101Error::Config(ConfigError::InvalidBandwidth)));
    assert_eq!(
        build(315.0, 58, 6, 1, 1, 1),
        Err(CC1101Error::Config(ConfigError::InvalidMaxLNAGain))
    );
    assert_eq!(
        build(315.0, 58, 6, 3, 1, 1),
        Err(CC1101Error::Config(ConfigError::InvalidMaxDVGAGain))
    );
    assert_eq!(
        build(315.0, 58, 6, 3, 6, 1),
        Err(CC1101Error::Config(ConfigError::InvalidMagnTarget))
    );
    assert_eq!(build(315.0, 58, 6, 3, 6, 24), Ok(()));
    Ok(())
}

#[test]
fn configurations_pass_through_their_register_image() -> Result<(), CC1101Error> {
    let rx = RXConfig::new(
        b(868.0),
        Modulation::MSK,
        b(100.0),
        32,
        None,
        Some(0xD391),
        Some(58),
        Some(CarrierSense::Relative(10)),
        None,
        None,
        None,
    )?;
    let fields = rx.to_fields();
    assert_eq!(fields.common.modulation, 7);
    assert_eq!(fields.carrier_sense_mode, 1);
    assert_eq!(fields.carrier_sense, 10);
    assert_eq!(fields.packet_length, 32);
    assert_eq!(RXConfig::from_fields(&fields), Some(rx));

    let mut broken = fields;
    broken.common.modulation = 2;
    assert_eq!(RXConfig::from_fields(&broken), None);
    let mut broken = fields;
    broken.carrier_sense_mode = 3;
    assert_eq!(RXConfig::from_fields(&broken), None);

    let tx = TXConfig::new_raw(b(433.92), Modulation::FSK4, b(10.0), 0xC0, None, None)?;
    assert_eq!(tx.to_fields().common.modulation, 4);
    assert_eq!(TXConfig::from_fields(&tx.to_fields()), Some(tx));
    assert_eq!(CommonConfig::from_fields(&tx.to_fields().common), Some(*tx.get_common_config()));

    for code in 0u8..=255 {
        match Modulation::from_code(code) {
            Some(m) => assert_eq!(m.code(), code),
            None => assert!(![0u8, 1, 3, 4, 7].contains(&code)),
        }
    }
    Ok(())
}

#[test]
fn deviations_are_whole_multiples_of_their_unit() {
    // In units of 2^-23 kHz.
    let units = |mantissa: u8, exponent: u8| {
        f(CommonConfig::config_to_deviation(mantissa, exponent)) as f64 * 8_388_608.0
    };
    assert_eq!(units(0, 0), 13_311_999.0);
    assert_eq!(units(1, 0), 14_975_997.0);
    assert_eq!(units(7, 0), 24_960_002.0);
    assert_eq!(units(0, 1), 26_623_998.0);
    assert_eq!(units(7, 4), 399_360_000.0);
    assert_eq!(units(7, 7), 3_194_880_000.0);
    let mut last = 0.0;
    for exponent in 0u8..8 {
        for mantissa in 0u8..8 {
            let now = units(mantissa, exponent);
            assert!(now > last);
            last = now;
        }
    }
}
