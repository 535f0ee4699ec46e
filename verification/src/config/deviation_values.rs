//! The sixty-four deviations of the radio, value by value.
//!
//! The deviation of a register pair is the outcome of a chain of binary32
//! operations. Here each of the sixty-four outcomes is worked out, with the
//! roundings that lead to it, and they are found to differ from one another:
//! a deviation of the radio has one register pair only.
use vstd::prelude::*;
use vstd::arithmetic::power2::*;

use crate::binary32::{infinity_in_ticks, one_in_ticks, Binary32};
use crate::config::deviation::{
    deviation_hertz_ticks, deviation_matches, deviation_registers, deviation_ticks,
    lemma_deviation_hertz, valid_deviation,
};
use crate::nearest::{
    lemma_nearest_certified, lemma_nearest_scale, product_ticks, quotient_ticks, round_ticks,
    rounds_to,
};

verus! {

/// The quotient of a number by a whole number, by the rounding of its
/// significand: `a_sig * 2^k` over `divisor` rounds to `r`, so that
/// `a_sig * 2^(k + shift)` ticks over `divisor` is `r * 2^shift` ticks.
pub proof fn lemma_quotient_certified(
    a_sig: nat,
    k: nat,
    power: nat,
    divisor: nat,
    r: nat,
    shift: nat,
)
    requires
        pow2(k) == power,
        0 < divisor < 0x10_0000,
        0x80_0000 < r < 0x100_0000,
        rounds_to(a_sig * power, divisor, r),
        shift <= 200,
    ensures
        quotient_ticks(a_sig * pow2(k + shift), divisor * one_in_ticks()) == r * pow2(shift),
{
    let one = one_in_ticks();
    let ps = pow2(shift);
    let a = a_sig * pow2(k + shift);
    let scaled = a_sig * power;
    lemma2_to64();
    lemma_pow2_pos(149);
    lemma_pow2_pos(shift);
    lemma_pow2_adds(k, shift);
    lemma_pow2_adds(24, shift);
    lemma_pow2_adds(45, shift);
    lemma_pow2_adds(32, 13);
    if shift < 200 {
        lemma_pow2_strictly_increases(45 + shift, 245);
    }
    lemma_pow2_strictly_increases(245, 277);
    lemma_pow2_strictly_increases(24 + shift, 277);
    assert(a == scaled * ps) by (nonlinear_arith)
        requires
            a == a_sig * pow2(k + shift),
            pow2(k + shift) == power * ps,
            scaled == a_sig * power,
    ;
    // The dividend is finite.
    let rb = r * divisor;
    assert(rb < 0x100_0000 * 0x10_0000) by (nonlinear_arith)
        requires
            rb == r * divisor,
            r < 0x100_0000,
            0 < divisor < 0x10_0000,
    ;
    assert(2 * scaled <= 2 * rb + divisor);
    assert(scaled < pow2(45));
    assert(a < pow2(45) * ps) by (nonlinear_arith)
        requires
            a == scaled * ps,
            scaled < pow2(45),
            ps > 0,
    ;
    assert(a < infinity_in_ticks());
    lemma_nearest_scale(a, divisor, one);
    lemma_nearest_certified(scaled, divisor, r, shift);
    assert(r * ps < pow2(24) * ps) by (nonlinear_arith)
        requires
            r < pow2(24),
            ps > 0,
    ;
}

/// The product of a number with a whole number, by the rounding of the
/// product of the significands: `a_sig * factor` over `2^s` rounds to `r`, so
/// that `a_sig * 2^shift` ticks times `factor` is `r * 2^(shift + s)` ticks.
pub proof fn lemma_product_certified(
    a_sig: nat,
    shift: nat,
    factor: nat,
    s: nat,
    power: nat,
    r: nat,
)
    requires
        pow2(s) == power,
        a_sig < 0x100_0000,
        factor < 0x100_0000,
        0x80_0000 < r < 0x100_0000,
        rounds_to(a_sig * factor, power, r),
        shift + s <= 200,
    ensures
        product_ticks(a_sig * pow2(shift), factor * one_in_ticks()) == r * pow2(shift + s),
{
    let one = one_in_ticks();
    let a = a_sig * pow2(shift);
    let b = factor * one;
    let product = a_sig * factor;
    lemma2_to64();
    lemma_pow2_pos(149);
    lemma_pow2_pos(shift);
    lemma_pow2_pos(s);
    lemma_pow2_pos(shift + s);
    lemma_pow2_adds(shift, s);
    lemma_pow2_adds(24, shift);
    lemma_pow2_adds(24, 149);
    lemma_pow2_adds(24, shift + s);
    lemma_pow2_strictly_increases(24 + shift, 277);
    lemma_pow2_strictly_increases(173, 277);
    lemma_pow2_strictly_increases(24 + shift + s, 277);
    assert(a < pow2(24) * pow2(shift)) by (nonlinear_arith)
        requires
            a == a_sig * pow2(shift),
            a_sig < pow2(24),
            pow2(shift) > 0,
    ;
    assert(b < pow2(24) * one) by (nonlinear_arith)
        requires
            b == factor * one,
            factor < pow2(24),
            one > 0,
    ;
    let n = product * pow2(shift);
    assert(a * b == n * one) by (nonlinear_arith)
        requires
            a == a_sig * pow2(shift),
            b == factor * one,
            n == product * pow2(shift),
            product == a_sig * factor,
    ;
    lemma_nearest_scale(n, 1, one);
    assert(1 * one == one);
    lemma_nearest_scale(n, 1, power);
    assert(1 * power == power);
    assert(n * power == product * pow2(shift + s)) by (nonlinear_arith)
        requires
            n == product * pow2(shift),
            pow2(shift + s) == pow2(shift) * power,
    ;
    lemma_nearest_certified(product, power, r, shift + s);
    assert(r * pow2(shift + s) < pow2(24) * pow2(shift + s)) by (nonlinear_arith)
        requires
            r < pow2(24),
            pow2(shift + s) > 0,
    ;
}

/// A number of less than twenty-four bits with `k` bits after the point,
/// rounded to a whole number, halves away from zero.
pub proof fn lemma_round_certified(a_sig: nat, k: nat, power: nat, whole: nat)
    requires
        1 <= k <= 149,
        pow2(k) == power,
        a_sig < 0x100_0000,
        whole * (2 * power) <= 2 * a_sig + power < whole * (2 * power) + 2 * power,
    ensures
        round_ticks(a_sig * pow2((149 - k) as nat)) == whole * one_in_ticks(),
{
    let one = one_in_ticks();
    let c = pow2((149 - k) as nat);
    let a = a_sig * c;
    lemma2_to64();
    lemma_pow2_pos(149);
    lemma_pow2_pos((149 - k) as nat);
    lemma_pow2_adds((149 - k) as nat, k);
    lemma_pow2_adds(24, (149 - k) as nat);
    lemma_pow2_strictly_increases((173 - k) as nat, 277);
    assert(a < pow2(24) * c) by (nonlinear_arith)
        requires
            a == a_sig * c,
            a_sig < pow2(24),
            c > 0,
    ;
    assert(one == c * power);
    assert(2 * a + one == (2 * a_sig + power) * c) by (nonlinear_arith)
        requires
            a == a_sig * c,
            one == c * power,
    ;
    assert(2 * one == (2 * power) * c) by (nonlinear_arith)
        requires
            one == c * power,
    ;
    vstd::arithmetic::div_mod::lemma_div_multiples_vanish_quotient(
        c as int,
        (2 * a_sig + power) as int,
        (2 * power) as int,
    );
    assert(c * (2 * a_sig + power) == (2 * a_sig + power) * c) by (nonlinear_arith);
    assert(c * (2 * power) == (2 * power) * c) by (nonlinear_arith);
    let rest = 2 * a_sig + power - whole * (2 * power);
    assert(0 <= rest < 2 * power) by (nonlinear_arith)
        requires
            rest == 2 * a_sig + power - whole * (2 * power),
            whole * (2 * power) <= 2 * a_sig + power < whole * (2 * power) + 2 * power,
    ;
    vstd::arithmetic::div_mod::lemma_fundamental_div_mod_converse(
        (2 * a_sig + power) as int,
        (2 * power) as int,
        whole as int,
        rest,
    );
}

/// A whole number of less than twenty-four bits times a power of two is its
/// own rounding to a whole number.
pub proof fn lemma_round_whole(a_sig: nat, j: nat, power: nat, whole: nat)
    requires
        j <= 100,
        pow2(j) == power,
        a_sig < 0x100_0000,
        whole == a_sig * power,
    ensures
        round_ticks(a_sig * pow2(149 + j)) == whole * one_in_ticks(),
{
    let one = one_in_ticks();
    let a = a_sig * pow2(149 + j);
    lemma2_to64();
    lemma_pow2_pos(149);
    lemma_pow2_pos(149 + j);
    lemma_pow2_adds(j, 149);
    lemma_pow2_adds(24, 149 + j);
    lemma_pow2_strictly_increases(173 + j, 277);
    assert(a < pow2(24) * pow2(149 + j)) by (nonlinear_arith)
        requires
            a == a_sig * pow2(149 + j),
            a_sig < pow2(24),
            pow2(149 + j) > 0,
    ;
    assert(a == whole * one) by (nonlinear_arith)
        requires
            a == a_sig * pow2(149 + j),
            pow2(149 + j) == power * one,
            whole == a_sig * power,
    ;
    assert(2 * a + one == whole * (2 * one) + one) by (nonlinear_arith)
        requires
            a == whole * one,
    ;
    vstd::arithmetic::div_mod::lemma_fundamental_div_mod_converse(
        (2 * a + one) as int,
        (2 * one) as int,
        whole as int,
        one as int,
    );
}

/// The deviations of the exponent 0 in units of 2^-23 kHz, by mantissa.
pub open spec fn deviation_units_0(mantissa: u8) -> nat {
    if mantissa == 0 {
        13311999
    } else if mantissa == 1 {
        14975997
    } else if mantissa == 2 {
        16640004
    } else if mantissa == 3 {
        18304002
    } else if mantissa == 4 {
        19968000
    } else if mantissa == 5 {
        21631998
    } else if mantissa == 6 {
        23296004
    } else {
        24960002
    }
}

/// The deviations of the exponent 1 in units of 2^-23 kHz, by mantissa.
pub open spec fn deviation_units_1(mantissa: u8) -> nat {
    if mantissa == 0 {
        26623998
    } else if mantissa == 1 {
        29952004
    } else if mantissa == 2 {
        33279998
    } else if mantissa == 3 {
        36608004
    } else if mantissa == 4 {
        39936000
    } else if mantissa == 5 {
        43264004
    } else if mantissa == 6 {
        46592000
    } else {
        49920004
    }
}

/// The deviations of the exponent 2 in units of 2^-23 kHz, by mantissa.
pub open spec fn deviation_units_2(mantissa: u8) -> nat {
    if mantissa == 0 {
        53247996
    } else if mantissa == 1 {
        59904008
    } else if mantissa == 2 {
        66560004
    } else if mantissa == 3 {
        73216000
    } else if mantissa == 4 {
        79872000
    } else if mantissa == 5 {
        86528000
    } else if mantissa == 6 {
        93184000
    } else {
        99840000
    }
}

/// The deviations of the exponent 3 in units of 2^-23 kHz, by mantissa.
pub open spec fn deviation_units_3(mantissa: u8) -> nat {
    if mantissa == 0 {
        106495992
    } else if mantissa == 1 {
        119808000
    } else if mantissa == 2 {
        133120000
    } else if mantissa == 3 {
        146432000
    } else if mantissa == 4 {
        159744000
    } else if mantissa == 5 {
        173056000
    } else if mantissa == 6 {
        186368000
    } else {
        199680000
    }
}

/// The deviations of the exponent 4 in units of 2^-23 kHz, by mantissa.
pub open spec fn deviation_units_4(mantissa: u8) -> nat {
    if mantissa == 0 {
        212991984
    } else if mantissa == 1 {
        239616000
    } else if mantissa == 2 {
        266240000
    } else if mantissa == 3 {
        292864000
    } else if mantissa == 4 {
        319488000
    } else if mantissa == 5 {
        346112000
    } else if mantissa == 6 {
        372736000
    } else {
        399360000
    }
}

/// The deviations of the exponent 5 in units of 2^-23 kHz, by mantissa.
pub open spec fn deviation_units_5(mantissa: u8) -> nat {
    if mantissa == 0 {
        425983968
    } else if mantissa == 1 {
        479232000
    } else if mantissa == 2 {
        532480000
    } else if mantissa == 3 {
        585728000
    } else if mantissa == 4 {
        638976000
    } else if mantissa == 5 {
        692224000
    } else if mantissa == 6 {
        745472000
    } else {
        798720000
    }
}

/// The deviations of the exponent 6 in units of 2^-23 kHz, by mantissa.
pub open spec fn deviation_units_6(mantissa: u8) -> nat {
    if mantissa == 0 {
        851967936
    } else if mantissa == 1 {
        958464000
    } else if mantissa == 2 {
        1064960000
    } else if mantissa == 3 {
        1171456000
    } else if mantissa == 4 {
        1277952000
    } else if mantissa == 5 {
        1384448000
    } else if mantissa == 6 {
        1490944000
    } else {
        1597440000
    }
}

/// The deviations of the exponent 7 in units of 2^-23 kHz, by mantissa.
pub open spec fn deviation_units_7(mantissa: u8) -> nat {
    if mantissa == 0 {
        1703935872
    } else if mantissa == 1 {
        1916928000
    } else if mantissa == 2 {
        2129920000
    } else if mantissa == 3 {
        2342912000
    } else if mantissa == 4 {
        2555904000
    } else if mantissa == 5 {
        2768896000
    } else if mantissa == 6 {
        2981888000
    } else {
        3194880000
    }
}

/// The deviation of a register pair of three bits each in units of 2^-23
/// kHz.
pub open spec fn deviation_units(mantissa: u8, exponent: u8) -> nat {
    if exponent == 0 {
        deviation_units_0(mantissa)
    } else if exponent == 1 {
        deviation_units_1(mantissa)
    } else if exponent == 2 {
        deviation_units_2(mantissa)
    } else if exponent == 3 {
        deviation_units_3(mantissa)
    } else if exponent == 4 {
        deviation_units_4(mantissa)
    } else if exponent == 5 {
        deviation_units_5(mantissa)
    } else if exponent == 6 {
        deviation_units_6(mantissa)
    } else {
        deviation_units_7(mantissa)
    }
}

/// The deviation of a register pair, by the roundings that lead to it: the
/// division of the deviation in Hz by a thousand gives the significand
/// `kilo`, the multiplication by a million the significand `scaled`, the
/// rounding to a whole number `whole`, and the division by a million the
/// significand `last`.
proof fn lemma_deviation_value(
    mantissa: u8,
    exponent: u8,
    k1: nat,
    p1: nat,
    kilo: nat,
    scaled: nat,
    is_whole: bool,
    k3: nat,
    p3: nat,
    whole: nat,
    k4: nat,
    p4: nat,
    last: nat,
    p5: nat,
)
    requires
        mantissa < 8,
        exponent < 8,
        12 <= k1 <= 13,
        pow2(k1) == p1,
        0x80_0000 < kilo < 0x100_0000,
        rounds_to((203125 * (mantissa + 8) * p1) as nat, 1000, kilo),
        0x80_0000 < scaled < 0x100_0000,
        rounds_to(kilo * 1_000_000, 0x10_0000, scaled),
        pow2(k3) == p3,
        k3 <= 20,
        is_whole ==> 159 + exponent - k1 == 149 + k3 && whole == scaled * p3,
        !is_whole ==> 159 + exponent - k1 + k3 == 149 && k3 >= 1 && whole * (2 * p3) <= 2
            * scaled + p3 < whole * (2 * p3) + 2 * p3,
        15 <= k4 <= 23,
        pow2(k4) == p4,
        0x80_0000 < last < 0x100_0000,
        rounds_to(whole * p4, 1_000_000, last),
        pow2((23 - k4) as nat) == p5,
    ensures
        deviation_ticks(mantissa, exponent) == (last * p5) * pow2(126),
{
    let one = one_in_ticks();
    let e = exponent as nat;
    let count = (203125 * (mantissa + 8)) as nat;
    lemma2_to64();
    lemma_deviation_hertz(mantissa, exponent);
    let hertz = deviation_hertz_ticks(mantissa, exponent);
    // Over a thousand.
    let kilo_shift = (139 + e - k1) as nat;
    assert(count * pow2(139 + e) == hertz) by (nonlinear_arith)
        requires
            hertz == 203125 * (mantissa + 8) * pow2(139 + e),
            count == 203125 * (mantissa + 8),
    ;
    assert(count * p1 == 203125 * (mantissa + 8) * p1) by (nonlinear_arith)
        requires
            count == 203125 * (mantissa + 8),
    ;
    lemma_quotient_certified(count, k1, p1, 1000, kilo, kilo_shift);
    assert(k1 + kilo_shift == 139 + e);
    let in_kilo = quotient_ticks(hertz, 1000 * one);
    assert(in_kilo == kilo * pow2(kilo_shift));
    // Times a million.
    lemma_product_certified(kilo, kilo_shift, 1_000_000, 20, 0x10_0000, scaled);
    let scaled_shift = kilo_shift + 20;
    let in_micro = product_ticks(in_kilo, 1_000_000 * one);
    assert(in_micro == scaled * pow2(scaled_shift));
    // To a whole number.
    if is_whole {
        assert(scaled_shift == 149 + k3);
        lemma_round_whole(scaled, k3, p3, whole);
    } else {
        assert(scaled_shift == 149 - k3);
        lemma_round_certified(scaled, k3, p3, whole);
    }
    let rounded = round_ticks(in_micro);
    assert(rounded == whole * one);
    // Over a million.
    let last_shift = (149 - k4) as nat;
    lemma_quotient_certified(whole, k4, p4, 1_000_000, last, last_shift);
    assert(k4 + last_shift == 149);
    assert(quotient_ticks(rounded, 1_000_000 * one) == last * pow2(last_shift));
    assert(deviation_ticks(mantissa, exponent) == last * pow2(last_shift));
    lemma_pow2_adds((23 - k4) as nat, 126);
    assert(last * pow2(last_shift) == (last * p5) * pow2(126)) by (nonlinear_arith)
        requires
            pow2(last_shift) == p5 * pow2(126),
    ;
}

/// The sixty-four deviations of the radio are those of the table.
pub proof fn lemma_deviation_table()
    ensures
        forall|mantissa: u8, exponent: u8|
            mantissa < 8 && exponent < 8 ==> #[trigger] deviation_ticks(mantissa, exponent)
                == deviation_units(mantissa, exponent) * pow2(126),
{
    lemma_deviation_table_low();
    lemma_deviation_table_high();
    assert forall|mantissa: u8, exponent: u8| mantissa < 8 && exponent < 8 implies #[trigger]
        deviation_ticks(mantissa, exponent) == deviation_units(mantissa, exponent) * pow2(
        126,
    ) by {
        if exponent < 4 {
            assert(deviation_low(mantissa, exponent));
        } else {
            assert(deviation_high(mantissa, exponent));
        }
    }
}

/// The deviation of a register pair is that of the table.
pub open spec fn deviation_tabled(mantissa: u8, exponent: u8) -> bool {
    deviation_ticks(mantissa, exponent) == deviation_units(mantissa, exponent) * pow2(126)
}

spec fn deviation_low(mantissa: u8, exponent: u8) -> bool {
    mantissa < 8 && exponent < 4 ==> deviation_tabled(mantissa, exponent)
}

spec fn deviation_high(mantissa: u8, exponent: u8) -> bool {
    mantissa < 8 && 4 <= exponent < 8 ==> deviation_tabled(mantissa, exponent)
}

/// The deviations of the exponent 0.
proof fn lemma_deviation_row_0()
    ensures
        forall|mantissa: u8| mantissa < 8 ==> deviation_tabled(mantissa, 0),
{
    lemma2_to64();
    lemma_deviation_value(0, 0, 13, 8192, 13312000, 12695312, false, 3, 8, 1586914, 23, 8388608, 13311999, 1);
    lemma_deviation_value(1, 0, 13, 8192, 14976000, 14282227, false, 3, 8, 1785278, 23, 8388608, 14975997, 1);
    lemma_deviation_value(2, 0, 13, 8192, 16640000, 15869141, false, 3, 8, 1983643, 23, 8388608, 16640004, 1);
    lemma_deviation_value(3, 0, 12, 4096, 9152000, 8728027, false, 2, 4, 2182007, 22, 4194304, 9152001, 2);
    lemma_deviation_value(4, 0, 12, 4096, 9984000, 9521484, false, 2, 4, 2380371, 22, 4194304, 9984000, 2);
    lemma_deviation_value(5, 0, 12, 4096, 10816000, 10314941, false, 2, 4, 2578735, 22, 4194304, 10815999, 2);
    lemma_deviation_value(6, 0, 12, 4096, 11648000, 11108398, false, 2, 4, 2777100, 22, 4194304, 11648002, 2);
    lemma_deviation_value(7, 0, 12, 4096, 12480000, 11901855, false, 2, 4, 2975464, 22, 4194304, 12480001, 2);
    assert forall|mantissa: u8| mantissa < 8 implies deviation_tabled(mantissa, 0) by {
        assert(mantissa == 0 || mantissa == 1 || mantissa == 2 || mantissa == 3 || mantissa == 4
            || mantissa == 5 || mantissa == 6 || mantissa == 7);
    }
}

/// The deviations of the exponent 1.
proof fn lemma_deviation_row_1()
    ensures
        forall|mantissa: u8| mantissa < 8 ==> deviation_tabled(mantissa, 1),
{
    lemma2_to64();
    lemma_deviation_value(0, 1, 13, 8192, 13312000, 12695312, false, 2, 4, 3173828, 22, 4194304, 13311999, 2);
    lemma_deviation_value(1, 1, 13, 8192, 14976000, 14282227, false, 2, 4, 3570557, 22, 4194304, 14976002, 2);
    lemma_deviation_value(2, 1, 13, 8192, 16640000, 15869141, false, 2, 4, 3967285, 22, 4194304, 16639999, 2);
    lemma_deviation_value(3, 1, 12, 4096, 9152000, 8728027, false, 1, 2, 4364014, 21, 2097152, 9152001, 4);
    lemma_deviation_value(4, 1, 12, 4096, 9984000, 9521484, false, 1, 2, 4760742, 21, 2097152, 9984000, 4);
    lemma_deviation_value(5, 1, 12, 4096, 10816000, 10314941, false, 1, 2, 5157471, 21, 2097152, 10816001, 4);
    lemma_deviation_value(6, 1, 12, 4096, 11648000, 11108398, false, 1, 2, 5554199, 21, 2097152, 11648000, 4);
    lemma_deviation_value(7, 1, 12, 4096, 12480000, 11901855, false, 1, 2, 5950928, 21, 2097152, 12480001, 4);
    assert forall|mantissa: u8| mantissa < 8 implies deviation_tabled(mantissa, 1) by {
        assert(mantissa == 0 || mantissa == 1 || mantissa == 2 || mantissa == 3 || mantissa == 4
            || mantissa == 5 || mantissa == 6 || mantissa == 7);
    }
}

/// The deviations of the exponent 2.
proof fn lemma_deviation_row_2()
    ensures
        forall|mantissa: u8| mantissa < 8 ==> deviation_tabled(mantissa, 2),
{
    lemma2_to64();
    lemma_deviation_value(0, 2, 13, 8192, 13312000, 12695312, false, 1, 2, 6347656, 21, 2097152, 13311999, 4);
    lemma_deviation_value(1, 2, 13, 8192, 14976000, 14282227, false, 1, 2, 7141114, 21, 2097152, 14976002, 4);
    lemma_deviation_value(2, 2, 13, 8192, 16640000, 15869141, false, 1, 2, 7934571, 21, 2097152, 16640001, 4);
    lemma_deviation_value(3, 2, 12, 4096, 9152000, 8728027, true, 0, 1, 8728027, 20, 1048576, 9152000, 8);
    lemma_deviation_value(4, 2, 12, 4096, 9984000, 9521484, true, 0, 1, 9521484, 20, 1048576, 9984000, 8);
    lemma_deviation_value(5, 2, 12, 4096, 10816000, 10314941, true, 0, 1, 10314941, 20, 1048576, 10816000, 8);
    lemma_deviation_value(6, 2, 12, 4096, 11648000, 11108398, true, 0, 1, 11108398, 20, 1048576, 11648000, 8);
    lemma_deviation_value(7, 2, 12, 4096, 12480000, 11901855, true, 0, 1, 11901855, 20, 1048576, 12480000, 8);
    assert forall|mantissa: u8| mantissa < 8 implies deviation_tabled(mantissa, 2) by {
        assert(mantissa == 0 || mantissa == 1 || mantissa == 2 || mantissa == 3 || mantissa == 4
            || mantissa == 5 || mantissa == 6 || mantissa == 7);
    }
}

/// The deviations of the exponent 3.
proof fn lemma_deviation_row_3()
    ensures
        forall|mantissa: u8| mantissa < 8 ==> deviation_tabled(mantissa, 3),
{
    lemma2_to64();
    lemma_deviation_value(0, 3, 13, 8192, 13312000, 12695312, true, 0, 1, 12695312, 20, 1048576, 13311999, 8);
    lemma_deviation_value(1, 3, 13, 8192, 14976000, 14282227, true, 0, 1, 14282227, 20, 1048576, 14976000, 8);
    lemma_deviation_value(2, 3, 13, 8192, 16640000, 15869141, true, 0, 1, 15869141, 20, 1048576, 16640000, 8);
    lemma_deviation_value(3, 3, 12, 4096, 9152000, 8728027, true, 1, 2, 17456054, 19, 524288, 9152000, 16);
    lemma_deviation_value(4, 3, 12, 4096, 9984000, 9521484, true, 1, 2, 19042968, 19, 524288, 9984000, 16);
    lemma_deviation_value(5, 3, 12, 4096, 10816000, 10314941, true, 1, 2, 20629882, 19, 524288, 10816000, 16);
    lemma_deviation_value(6, 3, 12, 4096, 11648000, 11108398, true, 1, 2, 22216796, 19, 524288, 11648000, 16);
    lemma_deviation_value(7, 3, 12, 4096, 12480000, 11901855, true, 1, 2, 23803710, 19, 524288, 12480000, 16);
    assert forall|mantissa: u8| mantissa < 8 implies deviation_tabled(mantissa, 3) by {
        assert(mantissa == 0 || mantissa == 1 || mantissa == 2 || mantissa == 3 || mantissa == 4
            || mantissa == 5 || mantissa == 6 || mantissa == 7);
    }
}

/// The deviations of the exponent 4.
proof fn lemma_deviation_row_4()
    ensures
        forall|mantissa: u8| mantissa < 8 ==> deviation_tabled(mantissa, 4),
{
    lemma2_to64();
    lemma_deviation_value(0, 4, 13, 8192, 13312000, 12695312, true, 1, 2, 25390624, 19, 524288, 13311999, 16);
    lemma_deviation_value(1, 4, 13, 8192, 14976000, 14282227, true, 1, 2, 28564454, 19, 524288, 14976000, 16);
    lemma_deviation_value(2, 4, 13, 8192, 16640000, 15869141, true, 1, 2, 31738282, 19, 524288, 16640000, 16);
    lemma_deviation_value(3, 4, 12, 4096, 9152000, 8728027, true, 2, 4, 34912108, 18, 262144, 9152000, 32);
    lemma_deviation_value(4, 4, 12, 4096, 9984000, 9521484, true, 2, 4, 38085936, 18, 262144, 9984000, 32);
    lemma_deviation_value(5, 4, 12, 4096, 10816000, 10314941, true, 2, 4, 41259764, 18, 262144, 10816000, 32);
    lemma_deviation_value(6, 4, 12, 4096, 11648000, 11108398, true, 2, 4, 44433592, 18, 262144, 11648000, 32);
    lemma_deviation_value(7, 4, 12, 4096, 12480000, 11901855, true, 2, 4, 47607420, 18, 262144, 12480000, 32);
    assert forall|mantissa: u8| mantissa < 8 implies deviation_tabled(mantissa, 4) by {
        assert(mantissa == 0 || mantissa == 1 || mantissa == 2 || mantissa == 3 || mantissa == 4
            || mantissa == 5 || mantissa == 6 || mantissa == 7);
    }
}

/// The deviations of the exponent 5.
proof fn lemma_deviation_row_5()
    ensures
        forall|mantissa: u8| mantissa < 8 ==> deviation_tabled(mantissa, 5),
{
    lemma2_to64();
    lemma_deviation_value(0, 5, 13, 8192, 13312000, 12695312, true, 2, 4, 50781248, 18, 262144, 13311999, 32);
    lemma_deviation_value(1, 5, 13, 8192, 14976000, 14282227, true, 2, 4, 57128908, 18, 262144, 14976000, 32);
    lemma_deviation_value(2, 5, 13, 8192, 16640000, 15869141, true, 2, 4, 63476564, 18, 262144, 16640000, 32);
    lemma_deviation_value(3, 5, 12, 4096, 9152000, 8728027, true, 3, 8, 69824216, 17, 131072, 9152000, 64);
    lemma_deviation_value(4, 5, 12, 4096, 9984000, 9521484, true, 3, 8, 76171872, 17, 131072, 9984000, 64);
    lemma_deviation_value(5, 5, 12, 4096, 10816000, 10314941, true, 3, 8, 82519528, 17, 131072, 10816000, 64);
    lemma_deviation_value(6, 5, 12, 4096, 11648000, 11108398, true, 3, 8, 88867184, 17, 131072, 11648000, 64);
    lemma_deviation_value(7, 5, 12, 4096, 12480000, 11901855, true, 3, 8, 95214840, 17, 131072, 12480000, 64);
    assert forall|mantissa: u8| mantissa < 8 implies deviation_tabled(mantissa, 5) by {
        assert(mantissa == 0 || mantissa == 1 || mantissa == 2 || mantissa == 3 || mantissa == 4
            || mantissa == 5 || mantissa == 6 || mantissa == 7);
    }
}

/// The deviations of the exponent 6.
proof fn lemma_deviation_row_6()
    ensures
        forall|mantissa: u8| mantissa < 8 ==> deviation_tabled(mantissa, 6),
{
    lemma2_to64();
    lemma_deviation_value(0, 6, 13, 8192, 13312000, 12695312, true, 3, 8, 101562496, 17, 131072, 13311999, 64);
    lemma_deviation_value(1, 6, 13, 8192, 14976000, 14282227, true, 3, 8, 114257816, 17, 131072, 14976000, 64);
    lemma_deviation_value(2, 6, 13, 8192, 16640000, 15869141, true, 3, 8, 126953128, 17, 131072, 16640000, 64);
    lemma_deviation_value(3, 6, 12, 4096, 9152000, 8728027, true, 4, 16, 139648432, 16, 65536, 9152000, 128);
    lemma_deviation_value(4, 6, 12, 4096, 9984000, 9521484, true, 4, 16, 152343744, 16, 65536, 9984000, 128);
    lemma_deviation_value(5, 6, 12, 4096, 10816000, 10314941, true, 4, 16, 165039056, 16, 65536, 10816000, 128);
    lemma_deviation_value(6, 6, 12, 4096, 11648000, 11108398, true, 4, 16, 177734368, 16, 65536, 11648000, 128);
    lemma_deviation_value(7, 6, 12, 4096, 12480000, 11901855, true, 4, 16, 190429680, 16, 65536, 12480000, 128);
    assert forall|mantissa: u8| mantissa < 8 implies deviation_tabled(mantissa, 6) by {
        assert(mantissa == 0 || mantissa == 1 || mantissa == 2 || mantissa == 3 || mantissa == 4
            || mantissa == 5 || mantissa == 6 || mantissa == 7);
    }
}

/// The deviations of the exponent 7.
proof fn lemma_deviation_row_7()
    ensures
        forall|mantissa: u8| mantissa < 8 ==> deviation_tabled(mantissa, 7),
{
    lemma2_to64();
    lemma_deviation_value(0, 7, 13, 8192, 13312000, 12695312, true, 4, 16, 203124992, 16, 65536, 13311999, 128);
    lemma_deviation_value(1, 7, 13, 8192, 14976000, 14282227, true, 4, 16, 228515632, 16, 65536, 14976000, 128);
    lemma_deviation_value(2, 7, 13, 8192, 16640000, 15869141, true, 4, 16, 253906256, 16, 65536, 16640000, 128);
    lemma_deviation_value(3, 7, 12, 4096, 9152000, 8728027, true, 5, 32, 279296864, 15, 32768, 9152000, 256);
    lemma_deviation_value(4, 7, 12, 4096, 9984000, 9521484, true, 5, 32, 304687488, 15, 32768, 9984000, 256);
    lemma_deviation_value(5, 7, 12, 4096, 10816000, 10314941, true, 5, 32, 330078112, 15, 32768, 10816000, 256);
    lemma_deviation_value(6, 7, 12, 4096, 11648000, 11108398, true, 5, 32, 355468736, 15, 32768, 11648000, 256);
    lemma_deviation_value(7, 7, 12, 4096, 12480000, 11901855, true, 5, 32, 380859360, 15, 32768, 12480000, 256);
    assert forall|mantissa: u8| mantissa < 8 implies deviation_tabled(mantissa, 7) by {
        assert(mantissa == 0 || mantissa == 1 || mantissa == 2 || mantissa == 3 || mantissa == 4
            || mantissa == 5 || mantissa == 6 || mantissa == 7);
    }
}

proof fn lemma_deviation_table_low()
    ensures
        forall|mantissa: u8, exponent: u8| #[trigger] deviation_low(mantissa, exponent),
{
    lemma_deviation_row_0();
    lemma_deviation_row_1();
    lemma_deviation_row_2();
    lemma_deviation_row_3();
    assert forall|mantissa: u8, exponent: u8| #[trigger]
        deviation_low(mantissa, exponent) by {
        assert(exponent < 4 ==> exponent == 0 || exponent == 1 || exponent == 2 || exponent == 3);
    }
}

proof fn lemma_deviation_table_high()
    ensures
        forall|mantissa: u8, exponent: u8| #[trigger] deviation_high(mantissa, exponent),
{
    lemma_deviation_row_4();
    lemma_deviation_row_5();
    lemma_deviation_row_6();
    lemma_deviation_row_7();
    assert forall|mantissa: u8, exponent: u8| #[trigger]
        deviation_high(mantissa, exponent) by {
        assert(4 <= exponent < 8 ==> exponent == 4 || exponent == 5 || exponent == 6 || exponent
            == 7);
    }
}

/// The deviations of the table grow with the exponent, and within an
/// exponent with the mantissa.
pub proof fn lemma_deviation_units_increase(m1: u8, e1: u8, m2: u8, e2: u8)
    requires
        m1 < 8,
        e1 < 8,
        m2 < 8,
        e2 < 8,
        e1 < e2 || (e1 == e2 && m1 < m2),
    ensures
        deviation_units(m1, e1) < deviation_units(m2, e2),
{
    lemma_deviation_row_bounds(m1, e1);
    lemma_deviation_row_bounds(m2, e2);
    if e1 == e2 {
        lemma_deviation_row_increase(m1, m2, e1);
    }
}

/// The deviations of an exponent lie between one and two times
/// `13311999 * 2^exponent` units.
proof fn lemma_deviation_row_bounds(mantissa: u8, exponent: u8)
    requires
        mantissa < 8,
        exponent < 8,
    ensures
        exponent == 0 ==> 13311999 <= deviation_units(mantissa, exponent) < 26623998,
        exponent == 1 ==> 26623998 <= deviation_units(mantissa, exponent) < 53247996,
        exponent == 2 ==> 53247996 <= deviation_units(mantissa, exponent) < 106495992,
        exponent == 3 ==> 106495992 <= deviation_units(mantissa, exponent) < 212991984,
        exponent == 4 ==> 212991984 <= deviation_units(mantissa, exponent) < 425983968,
        exponent == 5 ==> 425983968 <= deviation_units(mantissa, exponent) < 851967936,
        exponent == 6 ==> 851967936 <= deviation_units(mantissa, exponent) < 1703935872,
        exponent == 7 ==> 1703935872 <= deviation_units(mantissa, exponent) < 3407871744,
{
}

/// Within an exponent the deviations grow with the mantissa.
proof fn lemma_deviation_row_increase(m1: u8, m2: u8, exponent: u8)
    requires
        m1 < m2 < 8,
        exponent < 8,
    ensures
        deviation_units(m1, exponent) < deviation_units(m2, exponent),
{
}

/// No two register pairs of three bits each have the same deviation.
pub proof fn lemma_deviations_distinct(m1: u8, e1: u8, m2: u8, e2: u8)
    requires
        m1 < 8,
        e1 < 8,
        m2 < 8,
        e2 < 8,
        deviation_ticks(m1, e1) == deviation_ticks(m2, e2),
    ensures
        m1 == m2,
        e1 == e2,
{
    lemma_deviation_table();
    lemma_pow2_pos(126);
    let unit = pow2(126);
    let u1 = deviation_units(m1, e1);
    let u2 = deviation_units(m2, e2);
    assert(deviation_ticks(m1, e1) == u1 * unit);
    assert(deviation_ticks(m2, e2) == u2 * unit);
    assert(u1 == u2) by (nonlinear_arith)
        requires
            u1 * unit == u2 * unit,
            unit > 0,
    ;
    if e1 < e2 || (e1 == e2 && m1 < m2) {
        lemma_deviation_units_increase(m1, e1, m2, e2);
    }
    if e2 < e1 || (e1 == e2 && m2 < m1) {
        lemma_deviation_units_increase(m2, e2, m1, e1);
    }
}

/// Each of the sixty-four deviations of the radio is valid and has one
/// register pair only: the registers that are found for the deviation of a
/// pair are that pair.
pub proof fn lemma_deviation_registers_unique(
    mantissa: u8,
    exponent: u8,
    deviation: Binary32,
    found_mantissa: u8,
    found_exponent: u8,
)
    requires
        mantissa < 8,
        exponent < 8,
        !deviation.nan(),
        deviation.ticks() == deviation_ticks(mantissa, exponent),
        deviation_registers(deviation, found_mantissa, found_exponent),
    ensures
        valid_deviation(deviation),
        found_mantissa == mantissa,
        found_exponent == exponent,
{
    assert(deviation_matches(deviation, mantissa, exponent));
    lemma_deviations_distinct(mantissa, exponent, found_mantissa, found_exponent);
}

} // verus!
