//! Rounding to the nearest binary32 number, as a function on fractions.
//!
//! A non-negative real number is given as a fraction `n / d` of tick counts
//! (see [`crate::binary32`]). [`nearest`] is the tick count of the binary32
//! number that IEEE 754 rounds it to in the default mode: the closest number
//! with a significand of twenty-four bits, and of two equally close ones the
//! one whose significand is even. The exponent range is not limited here;
//! [`saturate`] maps what lies beyond the largest finite number to infinity.
use vstd::prelude::*;
use vstd::arithmetic::power2::*;
use vstd::arithmetic::mul::*;
use vstd::arithmetic::div_mod::*;

use crate::binary32::{infinity_in_ticks, one_in_ticks};

verus! {

/// The integer nearest to `n / d`; of two equally near integers the even one.
pub open spec fn tie_even(n: nat, d: nat) -> nat
    recommends
        d > 0,
{
    let q = n / d;
    let r = n % d;
    if 2 * r < d {
        q
    } else if 2 * r > d {
        q + 1
    } else if q % 2 == 0 {
        q
    } else {
        q + 1
    }
}

/// The number of low bits of `q` that a significand of twenty-four bits
/// cannot hold.
pub open spec fn excess_bits(q: nat) -> nat
    decreases q,
{
    if q < 0x100_0000 {
        0
    } else {
        1 + excess_bits(q / 2)
    }
}

/// The tick count of the binary32 number nearest to `n / d` ticks, were the
/// exponent unbounded.
pub open spec fn nearest(n: nat, d: nat) -> nat
    recommends
        d > 0,
{
    let s = excess_bits(n / d);
    pow2(s) * tie_even(n, d * pow2(s))
}

/// A tick count beyond the largest finite number stands for infinity.
pub open spec fn saturate(t: nat) -> nat {
    if t >= infinity_in_ticks() {
        infinity_in_ticks()
    } else {
        t
    }
}

/// The product of two numbers, rounded. Either may be infinite, when the
/// other is not zero.
pub open spec fn product_ticks(a: nat, b: nat) -> nat {
    if a >= infinity_in_ticks() || b >= infinity_in_ticks() {
        infinity_in_ticks()
    } else {
        saturate(nearest(a * b, one_in_ticks()))
    }
}

/// The quotient of two numbers, rounded. `a` may be infinite; `b` is finite
/// and not zero.
pub open spec fn quotient_ticks(a: nat, b: nat) -> nat {
    if a >= infinity_in_ticks() {
        infinity_in_ticks()
    } else {
        saturate(nearest(a * one_in_ticks(), b))
    }
}

/// A number rounded to a whole number, halves away from zero.
pub open spec fn round_ticks(a: nat) -> nat {
    if a >= infinity_in_ticks() {
        infinity_in_ticks()
    } else {
        ((2 * a + one_in_ticks()) / (2 * one_in_ticks())) * one_in_ticks()
    }
}

/// A common factor of numerator and denominator does not change the rounded
/// integer.
pub proof fn lemma_tie_even_scale(n: nat, d: nat, c: nat)
    requires
        d > 0,
        c > 0,
    ensures
        tie_even(n * c, d * c) == tie_even(n, d),
{
    lemma_div_multiples_vanish_quotient(c as int, n as int, d as int);
    lemma_truncate_middle(n as int, c as int, d as int);
    lemma_mul_is_commutative(n as int, c as int);
    lemma_mul_is_commutative(d as int, c as int);
    let r = n % d;
    assert((n * c) % (d * c) == c * r);
    assert((n * c) / (d * c) == n / d);
    assert(2 * r < d <==> 2 * (c * r) < d * c) by (nonlinear_arith)
        requires
            c > 0,
    ;
    assert(2 * r > d <==> 2 * (c * r) > d * c) by (nonlinear_arith)
        requires
            c > 0,
    ;
}

/// A whole multiple of the denominator rounds to the multiplier.
pub proof fn lemma_tie_even_exact(k: nat, d: nat)
    requires
        d > 0,
    ensures
        tie_even(k * d, d) == k,
{
    lemma_fundamental_div_mod_converse((k * d) as int, d as int, k as int, 0);
}

/// The rounded integer of `(q * d + r) / (d * 2^s)`, read off the low `s`
/// bits of `q` and the remainder `r`.
pub proof fn lemma_tie_even_split(q: nat, r: nat, d: nat, s: nat)
    requires
        d > 0,
        r < d,
        s >= 1,
    ensures
        ({
            let hi = q / pow2(s);
            let low = q % pow2(s);
            let half = pow2((s - 1) as nat);
            let up = low > half || (low == half && (r > 0 || hi % 2 == 1));
            tie_even(q * d + r, d * pow2(s)) == if up {
                hi + 1
            } else {
                hi
            }
        }),
{
    let p = pow2(s);
    let hi = q / p;
    let low = q % p;
    let half = pow2((s - 1) as nat);
    lemma_pow2_pos(s);
    lemma_pow2_pos((s - 1) as nat);
    lemma_pow2_unfold(s);
    assert(p == 2 * half);
    lemma_fundamental_div_mod(q as int, p as int);
    assert(q == p * hi + low);
    let n = q * d + r;
    let dd = d * p;
    let rem = low * d + r;
    assert(n == hi * dd + rem) by (nonlinear_arith)
        requires
            n == q * d + r,
            q == p * hi + low,
            dd == d * p,
            rem == low * d + r,
    ;
    assert(rem < dd) by (nonlinear_arith)
        requires
            rem == low * d + r,
            dd == d * p,
            low < p,
            r < d,
            low >= 0,
    ;
    assert(dd > 0) by (nonlinear_arith)
        requires
            dd == d * p,
            d > 0,
            p > 0,
    ;
    lemma_fundamental_div_mod_converse(n as int, dd as int, hi as int, rem as int);
    assert(n / dd == hi);
    assert(n % dd == rem);
    if low > half {
        assert(2 * rem > dd) by (nonlinear_arith)
            requires
                rem == low * d + r,
                dd == d * p,
                p == 2 * half,
                low >= half + 1,
                d > 0,
                r >= 0,
        ;
    } else if low == half {
        assert(2 * rem == dd + 2 * r) by (nonlinear_arith)
            requires
                rem == low * d + r,
                dd == d * p,
                p == 2 * half,
                low == half,
        ;
    } else {
        assert(2 * rem < dd) by (nonlinear_arith)
            requires
                rem == low * d + r,
                dd == d * p,
                p == 2 * half,
                low + 1 <= half,
                r < d,
                d > 0,
        ;
    }
}

/// Shifting a number of at least twenty-four bits to the left adds as many
/// excess bits as the shift is wide, whatever fills the low bits.
pub proof fn lemma_excess_bits_shift(q: nat, e: nat, x: nat)
    requires
        q >= 0x100_0000,
        x < pow2(e),
    ensures
        excess_bits(q * pow2(e) + x) == excess_bits(q) + e,
    decreases e,
{
    lemma2_to64();
    if e == 0 {
        assert(q * pow2(0) + x == q) by (nonlinear_arith)
            requires
                pow2(0) == 1,
                x == 0,
        ;
    } else {
        let h = pow2((e - 1) as nat);
        lemma_pow2_unfold(e);
        lemma_pow2_pos((e - 1) as nat);
        let v = q * pow2(e) + x;
        assert(v == 2 * (q * h) + x) by (nonlinear_arith)
            requires
                v == q * pow2(e) + x,
                pow2(e) == 2 * h,
        ;
        assert(q * h >= 0x100_0000) by (nonlinear_arith)
            requires
                q >= 0x100_0000,
                h >= 1,
        ;
        assert(v / 2 == q * h + x / 2);
        assert(x / 2 < h);
        lemma_excess_bits_shift(q, (e - 1) as nat, x / 2);
    }
}

/// A number of at most twenty-four bits, shifted to the left, has no more
/// excess bits than the shift is wide.
pub proof fn lemma_excess_bits_small(k: nat, e: nat)
    requires
        k < 0x100_0000,
    ensures
        excess_bits(k * pow2(e)) <= e,
    decreases e,
{
    lemma2_to64();
    if e == 0 {
        assert(k * pow2(0) == k) by (nonlinear_arith)
            requires
                pow2(0) == 1,
        ;
    } else {
        let h = pow2((e - 1) as nat);
        lemma_pow2_unfold(e);
        let v = k * pow2(e);
        assert(v == 2 * (k * h)) by (nonlinear_arith)
            requires
                v == k * pow2(e),
                pow2(e) == 2 * h,
        ;
        assert(v / 2 == k * h);
        lemma_excess_bits_small(k, (e - 1) as nat);
    }
}

/// A number of at least `24 + j` bits has at least `j` bits in excess.
pub proof fn lemma_excess_bits_least(q: nat, j: nat)
    requires
        q >= pow2(23 + j),
    ensures
        excess_bits(q) >= j,
    decreases j,
{
    lemma2_to64();
    if j > 0 {
        lemma_pow2_unfold(23 + j);
        lemma_pow2_strictly_increases(23, 23 + j);
        assert(q / 2 >= pow2((23 + j - 1) as nat));
        lemma_excess_bits_least(q / 2, (j - 1) as nat);
    }
}

/// A common factor of numerator and denominator does not change the rounded
/// number.
pub proof fn lemma_nearest_scale(n: nat, d: nat, c: nat)
    requires
        d > 0,
        c > 0,
    ensures
        nearest(n * c, d * c) == nearest(n, d),
{
    lemma_div_multiples_vanish_quotient(c as int, n as int, d as int);
    lemma_mul_is_commutative(n as int, c as int);
    lemma_mul_is_commutative(d as int, c as int);
    assert((n * c) / (d * c) == n / d);
    let s = excess_bits(n / d);
    let p = pow2(s);
    lemma_pow2_pos(s);
    assert(d * p > 0) by (nonlinear_arith)
        requires
            d > 0,
            p > 0,
    ;
    lemma_tie_even_scale(n, d * p, c);
    assert((d * p) * c == (d * c) * p) by (nonlinear_arith);
}

/// A number with a significand of at most twenty-four bits rounds to itself:
/// `k * 2^e` ticks, given over any denominator.
pub proof fn lemma_nearest_exact(k: nat, e: nat, d: nat)
    requires
        k < 0x100_0000,
        d > 0,
    ensures
        nearest(k * pow2(e) * d, d) == k * pow2(e),
{
    let v = k * pow2(e);
    lemma_fundamental_div_mod_converse((v * d) as int, d as int, v as int, 0);
    assert((v * d) / d == v);
    let s = excess_bits(v);
    lemma_excess_bits_small(k, e);
    assert(s <= e);
    let p = pow2(s);
    let rest = pow2((e - s) as nat);
    lemma_pow2_adds(s, (e - s) as nat);
    lemma_pow2_pos(s);
    assert(pow2(e) == p * rest);
    assert(v * d == (k * rest) * (d * p)) by (nonlinear_arith)
        requires
            v == k * pow2(e),
            pow2(e) == p * rest,
    ;
    assert(d * p > 0) by (nonlinear_arith)
        requires
            d > 0,
            p > 0,
    ;
    lemma_tie_even_exact(k * rest, d * p);
    assert(p * (k * rest) == v) by (nonlinear_arith)
        requires
            v == k * pow2(e),
            pow2(e) == p * rest,
    ;
}

/// The rounded number of `(q + r / d) * 2^e` ticks when `q` has at least
/// twenty-four bits: the low bits of `q` beyond the twenty-fourth and the
/// remainder decide the direction.
pub proof fn lemma_nearest_split(q: nat, r: nat, d: nat, e: nat)
    requires
        d > 0,
        r < d,
        q >= 0x100_0000,
    ensures
        ({
            let s = excess_bits(q);
            let hi = q / pow2(s);
            let low = q % pow2(s);
            let half = pow2((s - 1) as nat);
            let up = low > half || (low == half && (r > 0 || hi % 2 == 1));
            &&& s >= 1
            &&& nearest((q * d + r) * pow2(e), d) == pow2(s + e) * if up {
                (hi + 1) as nat
            } else {
                hi
            }
        }),
{
    let s = excess_bits(q);
    let pe = pow2(e);
    let n = (q * d + r) * pe;
    lemma_pow2_pos(e);
    lemma_pow2_pos(s);
    lemma_pow2_pos(s + e);
    lemma_pow2_adds(s, e);
    // The whole part of the fraction is q * 2^e plus less than 2^e.
    let x = (r * pe) / d;
    assert(n == (q * pe) * d + r * pe) by (nonlinear_arith)
        requires
            n == (q * d + r) * pe,
    ;
    lemma_fundamental_div_mod((r * pe) as int, d as int);
    assert(r * pe < d * pe) by (nonlinear_arith)
        requires
            r < d,
            pe > 0,
    ;
    assert(x < pe) by (nonlinear_arith)
        requires
            r * pe == d * x + (r * pe) % d,
            (r * pe) % d >= 0,
            r * pe < d * pe,
            d > 0,
    ;
    assert(n == (q * pe + x) * d + (r * pe) % d) by (nonlinear_arith)
        requires
            n == (q * pe) * d + r * pe,
            r * pe == d * x + (r * pe) % d,
    ;
    lemma_fundamental_div_mod_converse(
        n as int,
        d as int,
        (q * pe + x) as int,
        ((r * pe) % d) as int,
    );
    assert(n / d == q * pe + x);
    lemma_excess_bits_shift(q, e, x);
    assert(excess_bits(n / d) == s + e);
    // Take the factor 2^e out of numerator and denominator.
    assert(d * pow2(s + e) == (d * pow2(s)) * pe) by (nonlinear_arith)
        requires
            pow2(s + e) == pow2(s) * pe,
    ;
    assert(d * pow2(s) > 0) by (nonlinear_arith)
        requires
            d > 0,
            pow2(s) > 0,
    ;
    lemma_tie_even_scale(q * d + r, d * pow2(s), pe);
    lemma_tie_even_split(q, r, d, s);
}

/// Halving a number as often as it has bits in excess leaves a number of
/// at most twenty-four bits.
pub proof fn lemma_excess_bits_removed(q: nat)
    ensures
        q / pow2(excess_bits(q)) < 0x100_0000,
    decreases q,
{
    lemma2_to64();
    if q < 0x100_0000 {
        assert(q / pow2(0) == q);
    } else {
        let s = excess_bits(q / 2);
        lemma_excess_bits_removed(q / 2);
        lemma_pow2_pos(s);
        lemma_pow2_unfold(s + 1);
        lemma_div_denominator(q as int, 2, pow2(s) as int);
        assert(2 * pow2(s) == pow2(s + 1));
    }
}

/// The rounded integer of a fraction lies within one half of the fraction.
pub proof fn lemma_tie_even_is_near(n: nat, d: nat)
    requires
        d > 0,
    ensures
        2 * (tie_even(n, d) * d) - d <= 2 * n <= 2 * (tie_even(n, d) * d) + d,
        n / d <= tie_even(n, d) <= n / d + 1,
{
    lemma_fundamental_div_mod(n as int, d as int);
    let q = n / d;
    let r = n % d;
    assert(n == d * q + r);
    assert((q + 1) * d == d * q + d) by (nonlinear_arith);
    assert(q * d == d * q) by (nonlinear_arith);
}

/// What [`nearest`] gives is a rounding to the nearest number with a
/// significand of twenty-four bits: with `s` the number of bits in excess of
/// the whole part of `n / d`, it is 2^s times a significand of at most 2^24,
/// and it lies within one half of 2^s of `n / d`.
pub proof fn lemma_nearest_is_near(n: nat, d: nat)
    requires
        d > 0,
    ensures
        ({
            let unit = pow2(excess_bits(n / d));
            let significand = tie_even(n, d * unit);
            &&& nearest(n, d) == unit * significand
            &&& significand <= 0x100_0000
            &&& 2 * (nearest(n, d) * d) - unit * d <= 2 * n <= 2 * (nearest(n, d) * d) + unit * d
        }),
{
    let q = n / d;
    let s = excess_bits(q);
    let unit = pow2(s);
    lemma_pow2_pos(s);
    let dd = d * unit;
    assert(dd > 0) by (nonlinear_arith)
        requires
            dd == d * unit,
            d > 0,
            unit > 0,
    ;
    let t = tie_even(n, dd);
    lemma_tie_even_is_near(n, dd);
    lemma_div_denominator(n as int, d as int, unit as int);
    assert(n / dd == q / unit);
    lemma_excess_bits_removed(q);
    assert((unit * t) * d == t * dd) by (nonlinear_arith)
        requires
            dd == d * unit,
    ;
    assert(unit * d == dd) by (nonlinear_arith)
        requires
            dd == d * unit,
    ;
}

/// The integer `r` is the rounding of `a / b`: the fraction lies within one
/// half of it, and where it lies exactly one half away, `r` is even.
pub open spec fn rounds_to(a: nat, b: nat, r: nat) -> bool {
    let doubled = 2 * a as int;
    let low = 2 * (r * b) - b;
    let high = 2 * (r * b) + b;
    low < doubled < high || ((doubled == low || doubled == high) && r % 2 == 0)
}

/// An integer that is the rounding of a fraction is what [`tie_even`] gives.
pub proof fn lemma_tie_even_certified(a: nat, b: nat, r: nat)
    requires
        b > 0,
        r >= 1,
        rounds_to(a, b, r),
    ensures
        tie_even(a, b) == r,
        r - 1 <= a / b <= r,
{
    let rb = r * b;
    assert((r - 1) * b == rb - b) by (nonlinear_arith)
        requires
            rb == r * b,
    ;
    assert((r + 1) * b == rb + b) by (nonlinear_arith)
        requires
            rb == r * b,
    ;
    if a >= rb {
        let rest = (a - rb) as nat;
        assert(rest < b);
        lemma_fundamental_div_mod_converse(a as int, b as int, r as int, rest as int);
    } else {
        let rest = (a - (rb - b)) as nat;
        assert(0 <= a - (rb - b) < b);
        lemma_fundamental_div_mod_converse(a as int, b as int, r - 1, rest as int);
        assert(a / b == r - 1);
        assert(a % b == rest);
        if 2 * rest == b {
            assert(r % 2 == 0);
            assert((r - 1) % 2 == 1);
        }
    }
}

/// A number of exactly twenty-four bits, shifted to the left, has as many
/// excess bits as the shift is wide, whatever fills the low bits.
pub proof fn lemma_excess_bits_full(q: nat, e: nat, x: nat)
    requires
        0x80_0000 <= q < 0x100_0000,
        x < pow2(e),
    ensures
        excess_bits(q * pow2(e) + x) == e,
    decreases e,
{
    lemma2_to64();
    if e == 0 {
        assert(q * pow2(0) + x == q) by (nonlinear_arith)
            requires
                pow2(0) == 1,
                x == 0,
        ;
    } else {
        let h = pow2((e - 1) as nat);
        lemma_pow2_unfold(e);
        lemma_pow2_pos((e - 1) as nat);
        let v = q * pow2(e) + x;
        assert(v == 2 * (q * h) + x) by (nonlinear_arith)
            requires
                v == q * pow2(e) + x,
                pow2(e) == 2 * h,
        ;
        assert(q * h >= 0x80_0000) by (nonlinear_arith)
            requires
                q >= 0x80_0000,
                h >= 1,
        ;
        assert(v / 2 == q * h + x / 2);
        assert(x / 2 < h);
        lemma_excess_bits_full(q, (e - 1) as nat, x / 2);
    }
}

/// A significand of twenty-four bits that is the rounding of `a / b` gives
/// the number nearest to `a / b` at every shift.
pub proof fn lemma_nearest_certified(a: nat, b: nat, r: nat, shift: nat)
    requires
        b > 0,
        0x80_0000 < r < 0x100_0000,
        rounds_to(a, b, r),
    ensures
        nearest(a * pow2(shift), b) == r * pow2(shift),
{
    let p = pow2(shift);
    lemma_pow2_pos(shift);
    lemma_tie_even_certified(a, b, r);
    let q0 = a / b;
    let n = a * p;
    // The whole part of the fraction is q0 * 2^shift plus less than 2^shift.
    lemma_fundamental_div_mod(a as int, b as int);
    let rest = a % b;
    let x = (rest * p) / b;
    lemma_fundamental_div_mod((rest * p) as int, b as int);
    assert(rest * p < b * p) by (nonlinear_arith)
        requires
            rest < b,
            p > 0,
    ;
    assert(x < p) by (nonlinear_arith)
        requires
            rest * p == b * x + (rest * p) % b,
            (rest * p) % b >= 0,
            rest * p < b * p,
            b > 0,
    ;
    assert(n == (q0 * p + x) * b + (rest * p) % b) by (nonlinear_arith)
        requires
            n == a * p,
            a == b * q0 + rest,
            rest * p == b * x + (rest * p) % b,
    ;
    lemma_fundamental_div_mod_converse(
        n as int,
        b as int,
        (q0 * p + x) as int,
        ((rest * p) % b) as int,
    );
    lemma_excess_bits_full(q0, shift, x);
    lemma_tie_even_scale(a, b, p);
    assert(p * r == r * p) by (nonlinear_arith);
}

} // verus!
