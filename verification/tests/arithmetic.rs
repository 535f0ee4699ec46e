use cc1101_rust::binary32::Binary32;
use cc1101_rust::config::{CommonConfig, RXConfig};

fn bits(value: Binary32) -> u32 {
    value.to_bits()
}

fn round6(value: f32) -> f32 {
    let m = 10_f32.powi(6);
    (value * m).round() / m
}

fn native_baud_rate(mantissa: u8, exponent: u8) -> f32 {
    let xtal_freq: f32 = 26.0 * 1000000.0;
    let r_data = ((((256 + mantissa as u32) as f32) * 2_f32.powi(exponent as i32))
        / 2_f32.powi(28))
        * xtal_freq;
    round6(r_data / 1000.0)
}

fn native_deviation(mantissa: u8, exponent: u8) -> f32 {
    let xtal_freq: f32 = 26.0 * 1000000.0;
    let dev = (xtal_freq / 2_f32.powi(17))
        * (mantissa as u32 + 8) as f32
        * 2_f32.powi(exponent as i32);
    round6(dev / 1000.0)
}

fn native_frequency(config: u32) -> f32 {
    (26.0 / 2.0_f32.powi(16)) * config as f32
}

fn native_bandwidth(mantissa: u8, exponent: u8) -> u32 {
    let xtal_freq: f32 = 26.0 * 1000000.0;
    let bw_channel = xtal_freq / (8.0 * (mantissa as f32 + 4.0) * 2_f32.powi(exponent as i32));
    (bw_channel / 1000.0) as u32
}

#[test]
fn baud_rate_agrees_with_hardware_arithmetic_on_every_register_pair() {
    for mantissa in 0..=255u8 {
        for exponent in 0..=255u8 {
            assert_eq!(
                bits(CommonConfig::config_to_baud_rate(mantissa, exponent)),
                native_baud_rate(mantissa, exponent).to_bits(),
                "mantissa {} exponent {}",
                mantissa,
                exponent
            );
        }
    }
}

#[test]
fn deviation_agrees_with_hardware_arithmetic_on_every_register_pair() {
    for mantissa in 0..=255u8 {
        for exponent in 0..=255u8 {
            assert_eq!(
                bits(CommonConfig::config_to_deviation(mantissa, exponent)),
                native_deviation(mantissa, exponent).to_bits(),
                "mantissa {} exponent {}",
                mantissa,
                exponent
            );
        }
    }
}

#[test]
fn frequency_agrees_with_hardware_arithmetic() {
    let mut word: u32 = 0;
    loop {
        assert_eq!(
            bits(CommonConfig::config_to_frequency(word)),
            native_frequency(word).to_bits(),
            "word {}",
            word
        );
        match word.checked_add(65_521) {
            Some(next) => word = next,
            None => break,
        }
    }
    for word in [1u32, 0x00FF_FFFF, 0x0100_0000, 0x0100_0001, 0x0100_0003, u32::MAX] {
        assert_eq!(
            bits(CommonConfig::config_to_frequency(word)),
            native_frequency(word).to_bits()
        );
    }
    for word in 0x000B_89D8u32..0x000B_89D8 + 50_000 {
        assert_eq!(
            bits(CommonConfig::config_to_frequency(word)),
            native_frequency(word).to_bits()
        );
    }
    for word in 0x0023_0000u32..0x0023_0000 + 50_000 {
        assert_eq!(
            bits(CommonConfig::config_to_frequency(word)),
            native_frequency(word).to_bits()
        );
    }
}

#[test]
fn bandwidth_agrees_with_hardware_arithmetic_on_every_register_pair() {
    for mantissa in 0..=255u8 {
        for exponent in 0..=255u8 {
            assert_eq!(
                RXConfig::config_to_bandwidth(mantissa, exponent),
                native_bandwidth(mantissa, exponent)
            );
        }
    }
}

#[test]
fn integers_convert_as_hardware_arithmetic_converts_them() {
    let mut word: u32 = 0;
    loop {
        assert_eq!(bits(Binary32::from_u32(word)), (word as f32).to_bits());
        match word.checked_add(48_611) {
            Some(next) => word = next,
            None => break,
        }
    }
    for shift in 0..32u32 {
        for delta in [0u32, 1, 2, 3] {
            let word = (1u32 << shift).wrapping_add(delta);
            assert_eq!(bits(Binary32::from_u32(word)), (word as f32).to_bits());
            let word = (1u32 << shift).wrapping_sub(delta);
            assert_eq!(bits(Binary32::from_u32(word)), (word as f32).to_bits());
        }
    }
    assert_eq!(bits(Binary32::from_u32(u32::MAX)), (u32::MAX as f32).to_bits());
}

#[test]
fn comparisons_agree_with_hardware_arithmetic() {
    let samples: [f32; 14] = [
        0.0,
        -0.0,
        1.0,
        -1.0,
        0.599742,
        315.0,
        -315.0,
        f32::MIN_POSITIVE,
        1.0e-45,
        f32::MAX,
        f32::INFINITY,
        f32::NEG_INFINITY,
        f32::NAN,
        2.5,
    ];
    for x in samples {
        for y in samples {
            let a = Binary32::from_bits(x.to_bits());
            let c = Binary32::from_bits(y.to_bits());
            assert_eq!(a.le(&c), x <= y, "{} <= {}", x, y);
            assert_eq!(a.lt(&c), x < y, "{} < {}", x, y);
            assert_eq!(a.eq_value(&c), x == y, "{} == {}", x, y);
        }
        let a = Binary32::from_bits(x.to_bits());
        assert_eq!(a.is_nan(), x.is_nan());
        assert_eq!(a.is_finite(), x.is_finite());
        assert_eq!(a.is_sign_negative(), x.is_sign_negative());
    }
}

#[test]
fn numbers_unpack_into_significand_and_shift() {
    let unpack = |value: f32| Binary32::from_bits(value.to_bits()).unpack();
    assert_eq!(unpack(0.0), (0, 0));
    assert_eq!(unpack(1.0), (0x80_0000, 126));
    assert_eq!(unpack(-1.0), (0x80_0000, 126));
    assert_eq!(unpack(1.5), (0xC0_0000, 126));
    assert_eq!(unpack(433.92), (0xD8_F5C3, 134));
    assert_eq!(unpack(f32::MIN_POSITIVE), (0x80_0000, 0));
    assert_eq!(unpack(f32::from_bits(1)), (1, 0));
    assert_eq!(unpack(f32::from_bits(0x007F_FFFF)), (0x7F_FFFF, 0));
    assert_eq!(unpack(f32::MAX), (0xFF_FFFF, 253));
    for value in [1.0f32, 0.1, 433.92, 1.0e-40, 3.0e38, 26.0e6] {
        let (significand, shift) = unpack(value);
        let exact = significand as f64 * 2f64.powi(shift as i32 - 149);
        assert_eq!(exact, value as f64);
    }
}

#[test]
fn ranges_include_or_exclude_their_ends() {
    let number = |value: f32| Binary32::from_bits(value.to_bits());
    let low = 314.0f32.to_bits();
    let high = 316.0f32.to_bits();
    assert!(number(314.0).is_within(low, high));
    assert!(number(316.0).is_within(low, high));
    assert!(number(315.0).is_within(low, high));
    assert!(!number(313.99997).is_within(low, high));
    assert!(!number(316.00003).is_within(low, high));
    assert!(!number(f32::NAN).is_within(low, high));
    assert!(!number(-315.0).is_within(low, high));
    assert!(!number(314.0).is_strictly_within(low, high));
    assert!(!number(316.0).is_strictly_within(low, high));
    assert!(number(315.0).is_strictly_within(low, high));
    assert!(number(314.00003).is_strictly_within(low, high));
    assert!(!number(f32::NAN).is_strictly_within(low, high));
    assert_eq!(number(2.5).to_bits(), 0x4020_0000);
}

/// A sequence of bit patterns that is the same on every run.
fn patterns(count: usize, seed: u64) -> Vec<u32> {
    let mut state = seed;
    let mut out = Vec::with_capacity(count);
    for _ in 0..count {
        state = state.wrapping_mul(6364136223846793005).wrapping_add(1442695040888963407);
        out.push((state >> 32) as u32);
    }
    out
}

/// Bit patterns of numbers that are not negative, many of them near the
/// ends of the exponent range.
fn operands(count: usize, seed: u64) -> Vec<u32> {
    let mut out = vec![
        0,
        1,
        2,
        0x007F_FFFF,
        0x0080_0000,
        0x0080_0001,
        0x3F80_0000,
        0x3F7F_FFFF,
        0x3F80_0001,
        0x4000_0000,
        0x7F7F_FFFF,
        0x7F80_0000,
        0x3400_0000,
        0x3380_0000,
        0x4B00_0000,
        0x4B80_0000,
    ];
    for (i, bits) in patterns(count, seed).into_iter().enumerate() {
        let bits = bits & 0x7FFF_FFFF;
        out.push(match i % 4 {
            0 => bits % 0x7F80_0001,
            1 => bits % 0x0200_0000,
            2 => 0x3000_0000 + bits % 0x2000_0000,
            _ => 0x7000_0000 + bits % 0x0F80_0001,
        });
    }
    out
}

#[test]
fn products_agree_with_hardware_arithmetic() {
    let values = operands(700, 1);
    for &x in &values {
        for &y in &values {
            let (a, c) = (Binary32::from_bits(x), Binary32::from_bits(y));
            let native = f32::from_bits(x) * f32::from_bits(y);
            match a.checked_mul(&c) {
                Some(product) => assert_eq!(
                    product.to_bits(),
                    native.to_bits(),
                    "{:#x} times {:#x}",
                    x,
                    y
                ),
                None => assert!(native.is_nan(), "{:#x} times {:#x}", x, y),
            }
        }
    }
    let nan = Binary32::from_bits(f32::NAN.to_bits());
    let minus = Binary32::from_bits((-1.0f32).to_bits());
    let one = Binary32::from_bits(1.0f32.to_bits());
    assert!(nan.checked_mul(&one).is_none());
    assert!(one.checked_mul(&nan).is_none());
    assert!(minus.checked_mul(&one).is_none());
    assert!(one.checked_mul(&minus).is_none());
}

#[test]
fn quotients_agree_with_hardware_arithmetic() {
    let values = operands(700, 2);
    let mut computed = 0;
    for &x in &values {
        for &y in &values {
            let (a, c) = (Binary32::from_bits(x), Binary32::from_bits(y));
            if let Some(quotient) = a.checked_div(&c) {
                let native = f32::from_bits(x) / f32::from_bits(y);
                assert_eq!(quotient.to_bits(), native.to_bits(), "{:#x} over {:#x}", x, y);
                computed += 1;
            }
        }
    }
    assert!(computed > 100_000);
    let number = |value: f32| Binary32::from_bits(value.to_bits());
    assert_eq!(number(1.0).checked_div(&number(3.0)).map(|q| q.to_bits()), Some((1.0f32 / 3.0).to_bits()));
    assert_eq!(number(0.0).checked_div(&number(3.0)).map(|q| q.to_bits()), Some(0));
    assert_eq!(
        number(f32::INFINITY).checked_div(&number(3.0)).map(|q| q.to_bits()),
        Some(f32::INFINITY.to_bits())
    );
    assert!(number(1.0).checked_div(&number(0.0)).is_none());
    assert!(number(1.0).checked_div(&number(f32::INFINITY)).is_none());
    assert!(number(1.0).checked_div(&number(1.0e-40)).is_none());
    assert!(number(1.0e-40).checked_div(&number(1.0)).is_none());
    assert!(number(-1.0).checked_div(&number(1.0)).is_none());
    assert!(number(f32::NAN).checked_div(&number(1.0)).is_none());
}

#[test]
fn rounding_to_whole_numbers_agrees_with_hardware_arithmetic() {
    let mut values = operands(200_000, 3);
    for whole in 0u32..200 {
        for quarter in 0u32..4 {
            values.push((whole as f32 + quarter as f32 * 0.25).to_bits());
        }
    }
    for halves in [8_388_607.5f32, 8_388_606.5, 4_194_303.5, 0.5, 0.49999997, 1.5, 2.5] {
        values.push(halves.to_bits());
    }
    for x in values {
        let rounded = Binary32::from_bits(x).checked_round().unwrap();
        assert_eq!(rounded.to_bits(), f32::from_bits(x).round().to_bits(), "{:#x}", x);
    }
    assert!(Binary32::from_bits((-0.5f32).to_bits()).checked_round().is_none());
    assert!(Binary32::from_bits(f32::NAN.to_bits()).checked_round().is_none());
}
