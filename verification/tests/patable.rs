use cc1101_rust::binary32::Binary32;
use cc1101_rust::config::TXConfig;
use cc1101_rust::patable::{
    byte_to_power, get_band, is_frequency_near, is_within_epsilon, power_to_byte, Band, PowerLevel,
    PowerTables,
};
use cc1101_rust::{CC1101Error, ConfigError};

fn b(value: f32) -> Binary32 {
    Binary32::from_bits(value.to_bits())
}

fn native_near(frequency: f32, target: f32) -> bool {
    (frequency - target).abs() < 1.0
}

fn native_epsilon(a: f32, c: f32) -> bool {
    (a - c).abs() < f32::EPSILON
}

const BANDS: [(Band, f32); 4] =
    [(Band::MHz315, 315.0), (Band::MHz433, 433.0), (Band::MHz868, 868.0), (Band::MHz915, 915.0)];

#[test]
fn nearness_agrees_with_hardware_arithmetic() {
    for (band, center) in BANDS {
        for edge in [center - 1.0, center + 1.0, center] {
            let bits = edge.to_bits();
            for offset in -3i32..=3 {
                let frequency = f32::from_bits((bits as i32 + offset) as u32);
                assert_eq!(
                    is_frequency_near(&b(frequency), band),
                    native_near(frequency, center),
                    "{} near {}",
                    frequency,
                    center
                );
            }
        }
        for frequency in [0.0f32, -center, 1.0e-40, f32::MAX, f32::INFINITY, f32::NAN, 433.92] {
            assert_eq!(
                TXConfig::frequency_near(b(frequency), band),
                native_near(frequency, center)
            );
        }
    }
}

#[test]
fn band_is_the_one_whose_centre_is_less_than_one_megahertz_away() {
    assert_eq!(get_band(&b(315.0)), Ok(Band::MHz315));
    assert_eq!(get_band(&b(314.5)), Ok(Band::MHz315));
    assert_eq!(get_band(&b(433.92)), Ok(Band::MHz433));
    assert_eq!(get_band(&b(868.3)), Ok(Band::MHz868));
    assert_eq!(get_band(&b(915.99)), Ok(Band::MHz915));
    for frequency in [314.0f32, 316.0, 434.0, 867.0, 916.0, 123.0, 0.0, -433.0, f32::NAN] {
        assert_eq!(
            get_band(&b(frequency)),
            Err(CC1101Error::Config(ConfigError::InvalidFrequency))
        );
    }
}

#[test]
fn tolerance_agrees_with_hardware_arithmetic() {
    let values: [f32; 22] = [
        0.0,
        -0.0,
        0.1,
        -0.1,
        0.5,
        1.0,
        -1.0,
        2.0,
        10.6,
        -30.0,
        1.0e-7,
        -1.0e-7,
        1.1920929e-7,
        5.9604645e-8,
        1.0e-20,
        1.0e-40,
        3.0e38,
        -3.0e38,
        1.0e30,
        f32::INFINITY,
        f32::NEG_INFINITY,
        f32::NAN,
    ];
    for x in values {
        for y in values {
            assert_eq!(
                is_within_epsilon(&b(x), &b(y)),
                native_epsilon(x, y),
                "{} and {}",
                x,
                y
            );
        }
        if x.is_finite() {
            for offset in [-40i32, -17, -16, -15, -9, -8, -7, -2, -1, 1, 2, 7, 8, 9, 15, 16, 17, 40] {
                let neighbour = f32::from_bits((x.to_bits() as i32).wrapping_add(offset) as u32);
                assert_eq!(
                    is_within_epsilon(&b(x), &b(neighbour)),
                    native_epsilon(x, neighbour),
                    "{} and {}",
                    x,
                    neighbour
                );
                assert_eq!(
                    is_within_epsilon(&b(neighbour), &b(x)),
                    native_epsilon(neighbour, x)
                );
            }
        }
    }
}

#[test]
fn lookups_find_the_first_row() {
    let table = vec![
        PowerLevel { byte: 0xC0, dbm: b(10.0) },
        PowerLevel { byte: 0x60, dbm: b(0.1) },
        PowerLevel { byte: 0x61, dbm: b(0.1) },
        PowerLevel { byte: 0xC0, dbm: b(-3.0) },
        PowerLevel { byte: 0x12, dbm: b(-30.0) },
    ];
    assert_eq!(power_to_byte(&table, &b(10.0)), Ok(0xC0));
    assert_eq!(power_to_byte(&table, &b(0.1)), Ok(0x60));
    assert_eq!(power_to_byte(&table, &b(-30.0)), Ok(0x12));
    assert_eq!(
        power_to_byte(&table, &b(0.2)),
        Err(CC1101Error::Config(ConfigError::InvalidTXPower))
    );
    assert_eq!(
        power_to_byte(&table, &b(f32::NAN)),
        Err(CC1101Error::Config(ConfigError::InvalidTXPower))
    );
    assert_eq!(byte_to_power(&table, 0xC0).map(|p| p.to_bits()), Ok(10.0f32.to_bits()));
    assert_eq!(byte_to_power(&table, 0x61).map(|p| p.to_bits()), Ok(0.1f32.to_bits()));
    assert_eq!(
        byte_to_power(&table, 0xFF).map(|p| p.to_bits()),
        Err(CC1101Error::Config(ConfigError::InvalidTXPower))
    );
    let empty: Vec<PowerLevel> = Vec::new();
    assert!(power_to_byte(&empty, &b(0.0)).is_err());
    assert!(byte_to_power(&empty, 0).is_err());
}

#[test]
fn a_power_within_the_tolerance_of_a_row_finds_it() {
    let table = vec![PowerLevel { byte: 0x60, dbm: b(0.1) }, PowerLevel { byte: 0x50, dbm: b(0.0) }];
    let nearly = f32::from_bits(0.1f32.to_bits() + 3);
    assert_eq!(power_to_byte(&table, &b(nearly)), Ok(0x60));
    assert_eq!(power_to_byte(&table, &b(1.0e-8)), Ok(0x50));
    assert_eq!(power_to_byte(&table, &b(-0.0)), Ok(0x50));
    assert!(power_to_byte(&table, &b(2.0e-7)).is_err());
}

#[test]
fn every_row_of_a_table_with_distinct_rows_comes_back() {
    let tables = PowerTables {
        mhz_315: vec![PowerLevel { byte: 1, dbm: b(1.5) }, PowerLevel { byte: 2, dbm: b(-1.5) }],
        mhz_433: vec![PowerLevel { byte: 3, dbm: b(0.0) }],
        mhz_868: vec![
            PowerLevel { byte: 4, dbm: b(12.0) },
            PowerLevel { byte: 5, dbm: b(11.9) },
            PowerLevel { byte: 6, dbm: b(11.8) },
        ],
        mhz_915: vec![],
    };
    for (band, center) in BANDS {
        let table = tables.table(band);
        assert!(std::ptr::eq(TXConfig::get_power_table(&tables, b(center)).unwrap(), table));
        for row in table {
            assert_eq!(TXConfig::tx_power_to_config(&tables, b(center), row.dbm), Ok(row.byte));
            assert_eq!(
                TXConfig::config_to_tx_power(&tables, b(center), row.byte).map(|p| p.to_bits()),
                Ok(row.dbm.to_bits())
            );
        }
    }
    assert_eq!(
        TXConfig::tx_power_to_config(&tables, b(915.0), b(0.0)),
        Err(CC1101Error::Config(ConfigError::InvalidTXPower))
    );
}
