//! Arithmetic on non-negative binary32 numbers, computed on integers and
//! rounded as IEEE 754 prescribes.
//!
//! Each operation states its result as a tick count: the exact result of the
//! operation on the operands' values, rounded by [`crate::nearest::nearest`].
use vstd::prelude::*;
use vstd::arithmetic::power2::*;
use vstd::arithmetic::div_mod::*;

use crate::binary32::{infinity_in_ticks, one_in_ticks, Binary32};
use crate::nearest::{
    excess_bits, lemma_excess_bits_least, lemma_nearest_exact, lemma_nearest_scale,
    lemma_nearest_split, nearest, product_ticks, quotient_ticks, round_ticks, saturate, tie_even,
};

verus! {

/// The integer `w` as a number: the nearest binary32 number to it.
pub open spec fn integer_ticks(w: nat) -> nat {
    saturate(nearest(w * one_in_ticks(), 1))
}

/// 2^e as a machine integer.
fn power_of_two(e: u32) -> (r: u64)
    requires
        e < 64,
    ensures
        r == pow2(e as nat),
        r >= 1,
{
    proof {
        lemma2_to64();
        lemma2_to64_rest();
        lemma_pow2_pos(e as nat);
        if e < 63 {
            lemma_pow2_strictly_increases(e as nat, 63);
        }
        vstd::bits::lemma_u64_shl_is_mul(1, e as u64);
    }
    1u64 << (e as u64)
}

/// The magnitude of a finite number lies below the tick count of infinity.
pub proof fn lemma_finite_below_infinity(a: Binary32)
    requires
        a.finite(),
    ensures
        a.magnitude() < infinity_in_ticks(),
{
    let sig = a.significand();
    let sh = a.shift();
    lemma2_to64();
    lemma_pow2_adds(24, 253);
    lemma_pow2_pos(sh);
    if sh < 253 {
        lemma_pow2_strictly_increases(sh, 253);
    }
    assert(sig * pow2(sh) < pow2(24) * pow2(253)) by (nonlinear_arith)
        requires
            sig < pow2(24),
            0 < pow2(sh) <= pow2(253),
    ;
}

/// The number with significand `m` and shift `x`: `m * 2^x` ticks, or
/// infinity where that is out of reach.
pub(crate) fn pack(m: u32, x: u32) -> (res: Binary32)
    requires
        m <= 0x100_0000,
        x <= 2000,
    ensures
        res.positive_number(),
        res.ticks() == saturate(m as nat * pow2(x as nat)),
        m == 0 ==> res.bits == 0,
        m > 0 && x >= 23 && res.finite() ==> res.normal() && res.shift() + 23 >= x,
        m >= 0x80_0000 && res.finite() ==> res.normal() && res.shift() >= x,
        0x80_0000 <= m < 0x100_0000 && x < 254 ==> res.finite() && res.normal()
            && res.significand() == m && res.shift() == x,
{
    proof {
        lemma2_to64();
        lemma_pow2_pos(x as nat);
        lemma_pow2_strictly_increases(23, 277);
    }
    if m == 0 {
        proof {
            assert(0 * pow2(x as nat) == 0) by (nonlinear_arith);
            assert(0 * pow2(0) == 0) by (nonlinear_arith);
        }
        return Binary32 { bits: 0 };
    }
    let mut sig: u32 = m;
    let mut sh: u32 = x;
    if sig == 0x100_0000 {
        sig = 0x80_0000;
        sh = sh + 1;
        proof {
            lemma_pow2_unfold((x + 1) as nat);
            assert(0x80_0000 * pow2((x + 1) as nat) == 0x100_0000 * pow2(x as nat))
                by (nonlinear_arith)
                requires
                    pow2((x + 1) as nat) == 2 * pow2(x as nat),
            ;
        }
    }
    while sig < 0x80_0000 && sh > 0
        invariant
            0 < sig < 0x100_0000,
            sh <= x + 1,
            sig as nat * pow2(sh as nat) == m as nat * pow2(x as nat),
            pow2((x + 1 - sh) as nat) <= 2 * sig,
            0x80_0000 <= m < 0x100_0000 ==> sig == m && sh == x,
            m >= 0x80_0000 ==> sig >= 0x80_0000 && sh >= x,
        decreases sh,
    {
        proof {
            lemma_pow2_unfold(sh as nat);
            lemma_pow2_unfold((x + 2 - sh) as nat);
            assert((2 * sig) * pow2((sh - 1) as nat) == sig * pow2(sh as nat)) by (nonlinear_arith)
                requires
                    pow2(sh as nat) == 2 * pow2((sh - 1) as nat),
            ;
        }
        sig = sig * 2;
        sh = sh - 1;
    }
    proof {
        // At most twenty-three doublings took place.
        if x + 1 - sh >= 25 {
            lemma_pow2_strictly_increases(24, (x + 1 - sh) as nat);
            if x + 1 - sh > 25 {
                lemma_pow2_strictly_increases(25, (x + 1 - sh) as nat);
            }
            assert(false);
        }
        if x >= 23 && sig < 0x80_0000 {
            // No doubling was left undone.
            assert(sh == 0);
            assert(sig as nat * pow2(0) == sig) by (nonlinear_arith)
                requires
                    pow2(0) == 1,
            ;
            if x > 23 {
                lemma_pow2_strictly_increases(23, x as nat);
            }
            assert(m as nat * pow2(x as nat) >= pow2(x as nat)) by (nonlinear_arith)
                requires
                    m >= 1,
            ;
            assert(false);
        }
    }
    if sig < 0x80_0000 {
        let res = Binary32 { bits: sig };
        proof {
            assert(res.exponent_field() == 0);
            assert(res.fraction_field() == sig);
            assert(sig as nat * pow2(0) == sig) by (nonlinear_arith)
                requires
                    pow2(0) == 1,
            ;
        }
        res
    } else if sh >= 254 {
        let res = Binary32 { bits: 0x7f80_0000 };
        proof {
            assert(res.exponent_field() == 255);
            assert(res.fraction_field() == 0);
            lemma_pow2_adds(23, 254);
            assert(res.magnitude() == infinity_in_ticks());
            if sh > 254 {
                lemma_pow2_strictly_increases(254, sh as nat);
            }
            assert(sig as nat * pow2(sh as nat) >= pow2(23) * pow2(254)) by (nonlinear_arith)
                requires
                    sig >= pow2(23),
                    pow2(sh as nat) >= pow2(254),
            ;
        }
        res
    } else {
        let res = Binary32 { bits: (sh + 1) * 0x80_0000 + (sig - 0x80_0000) };
        proof {
            assert(res.exponent_field() == sh + 1);
            assert(res.fraction_field() == sig - 0x80_0000);
            assert(res.significand() == sig);
            assert(res.shift() == sh);
            lemma_finite_below_infinity(res);
        }
        res
    }
}

/// The number nearest to `(q + r / d) * 2^e` ticks.
pub(crate) fn round_fraction(q: u64, r: u64, d: u64, e: u32) -> (res: Binary32)
    requires
        d > 0,
        r < d,
        e <= 1000,
        r == 0 || e == 0 || q >= 0x100_0000,
    ensures
        res.positive_number(),
        res.ticks() == saturate(
            nearest(((q as nat * d as nat + r as nat) * pow2(e as nat)) as nat, d as nat),
        ),
        q == 0 && r == 0 ==> res.bits == 0,
        q > 0 && e >= 23 && res.finite() ==> res.normal() && res.shift() + 23 >= e,
        q >= 0x100_0000 && res.finite() ==> res.normal() && res.shift() >= e + excess_bits(
            q as nat,
        ),
{
    let ghost n = ((q as nat * d as nat + r as nat) * pow2(e as nat)) as nat;
    let mut hi: u64 = q;
    let mut s: u32 = 0;
    proof {
        lemma2_to64();
        lemma2_to64_rest();
        assert(q as nat / pow2(0) == q);
    }
    while hi >= 0x100_0000
        invariant
            s <= 40,
            hi == q as nat / pow2(s as nat),
            excess_bits(q as nat) == s + excess_bits(hi as nat),
            hi as nat * pow2(s as nat) <= q,
        decreases hi,
    {
        proof {
            lemma_pow2_pos(s as nat);
            lemma_pow2_unfold((s + 1) as nat);
            lemma_div_denominator(q as int, pow2(s as nat) as int, 2);
            assert(pow2(s as nat) * 2 == pow2((s + 1) as nat));
            assert((hi / 2) as nat * pow2((s + 1) as nat) <= hi as nat * pow2(s as nat))
                by (nonlinear_arith)
                requires
                    pow2((s + 1) as nat) == 2 * pow2(s as nat),
                    2 * (hi / 2) <= hi,
            ;
            if s == 40 {
                let ps = pow2(s as nat);
                assert(hi as nat * ps >= 0x100_0000 * ps) by (nonlinear_arith)
                    requires
                        hi >= 0x100_0000,
                ;
                lemma2_to64();
                lemma_pow2_adds(24, 40);
                assert(pow2(24) * ps == pow2(64));
                assert(false);
            }
        }
        hi = hi / 2;
        s = s + 1;
    }
    if s == 0 {
        if r == 0 {
            proof {
                lemma_nearest_exact(q as nat, e as nat, d as nat);
                assert(q as nat * pow2(e as nat) * d as nat == n) by (nonlinear_arith)
                    requires
                        n == (q as nat * d as nat + r as nat) * pow2(e as nat),
                        r == 0,
                ;
            }
            pack(q as u32, e)
        } else {
            let up: bool = r > d - r || (r == d - r && q % 2 == 1);
            let m: u32 = if up {
                (q + 1) as u32
            } else {
                q as u32
            };
            proof {
                lemma_pow2_pos(0);
                assert(n == q as nat * d as nat + r as nat) by (nonlinear_arith)
                    requires
                        n == (q as nat * d as nat + r as nat) * pow2(e as nat),
                        pow2(e as nat) == 1,
                ;
                lemma_fundamental_div_mod_converse(n as int, d as int, q as int, r as int);
                assert(d as nat * pow2(0) == d);
                assert(pow2(0) * m as nat == m);
                assert(m as nat * pow2(0) == m);
            }
            pack(m, 0)
        }
    } else {
        let scale: u64 = power_of_two(s);
        let half: u64 = power_of_two(s - 1);
        let low: u64 = q % scale;
        let up: bool = low > half || (low == half && (r > 0 || hi % 2 == 1));
        proof {
            lemma_nearest_split(q as nat, r as nat, d as nat, e as nat);
            assert(excess_bits(hi as nat) == 0);
            assert(hi < 0x100_0000);
        }
        let m: u32 = if up {
            (hi + 1) as u32
        } else {
            hi as u32
        };
        proof {
            assert(pow2((s + e) as nat) * m as nat == m as nat * pow2((s + e) as nat))
                by (nonlinear_arith);
            // The significand that is left has twenty-four bits.
            if hi < 0x80_0000 {
                let prev = q as nat / pow2((s - 1) as nat);
                lemma_pow2_pos((s - 1) as nat);
                lemma_pow2_unfold(s as nat);
                lemma_div_denominator(q as int, pow2((s - 1) as nat) as int, 2);
                assert(pow2((s - 1) as nat) * 2 == pow2(s as nat));
                assert(hi == prev / 2);
                lemma_excess_bits_prefix(q as nat, (s - 1) as nat);
                assert(false);
            }
        }
        pack(m, s + e)
    }
}

/// While bits are in excess, each halving removes one of them.
proof fn lemma_excess_bits_prefix(q: nat, j: nat)
    requires
        j < excess_bits(q),
    ensures
        q / pow2(j) >= 0x100_0000,
        excess_bits(q) == j + excess_bits(q / pow2(j)),
    decreases j,
{
    lemma2_to64();
    if j == 0 {
        assert(q / pow2(0) == q);
    } else {
        lemma_excess_bits_prefix(q, (j - 1) as nat);
        let prev = q / pow2((j - 1) as nat);
        lemma_pow2_pos((j - 1) as nat);
        lemma_pow2_unfold(j);
        lemma_div_denominator(q as int, pow2((j - 1) as nat) as int, 2);
        assert(pow2((j - 1) as nat) * 2 == pow2(j));
        assert(q / pow2(j) == prev / 2);
        assert(excess_bits(prev) == 1 + excess_bits(prev / 2));
        assert(excess_bits(prev / 2) >= 1);
    }
}

impl Binary32 {
    /// The number with significand `k` and shift `x`: `k * 2^x` ticks.
    pub(crate) fn exact(k: u32, x: u32) -> (res: Binary32)
        requires
            k < 0x100_0000,
            x <= 1000,
        ensures
            res.positive_number(),
            res.ticks() == saturate(k as nat * pow2(x as nat)),
            k == 0 ==> res.bits == 0,
            0x80_0000 <= k && x < 254 ==> res.finite() && res.normal() && res.significand() == k
                && res.shift() == x,
    {
        pack(k, x)
    }

    /// The nearest number to an integer.
    pub fn from_u32(w: u32) -> (res: Binary32)
        ensures
            res.positive_number(),
            res.finite(),
            res.ticks() == integer_ticks(w as nat),
            w < 0x100_0000 ==> res.ticks() == w * one_in_ticks(),
            w == 0 ==> res.bits == 0,
            w > 0 ==> res.normal() && res.shift() >= 126,
    {
        let res = round_fraction(w as u64, 0, 1, 149);
        proof {
            lemma2_to64();
            assert((w as nat * 1 + 0) * pow2(149) == w as nat * one_in_ticks()) by (nonlinear_arith);
            if w < 0x100_0000 {
                lemma_nearest_exact(w as nat, 149, 1);
                assert(w as nat * pow2(149) * 1 == w as nat * one_in_ticks()) by (nonlinear_arith);
                lemma_pow2_adds(24, 149);
                lemma_pow2_strictly_increases(173, 277);
                lemma_pow2_pos(149);
                assert(w as nat * pow2(149) < pow2(24) * pow2(149)) by (nonlinear_arith)
                    requires
                        w < pow2(24),
                        pow2(149) > 0,
                ;
            }
            lemma_integer_finite(w as nat);
            lemma_infinite_at_infinity(res);
        }
        res
    }

    /// Whether the product of two numbers is computed here: neither is
    /// negative or a NaN, and an infinity is not multiplied by zero.
    pub open spec fn multiplies(self, rhs: Binary32) -> bool {
        &&& self.positive_number()
        &&& rhs.positive_number()
        &&& self.finite() || rhs.bits != 0
        &&& rhs.finite() || self.bits != 0
    }

    /// Whether the quotient of two numbers is computed here: neither is
    /// negative or a NaN, the divisor is normal, and the dividend is zero,
    /// infinite, or normal with a shift of no more than 109 below that of the
    /// divisor.
    pub open spec fn divides(self, rhs: Binary32) -> bool {
        &&& self.positive_number()
        &&& rhs.positive_number()
        &&& rhs.normal()
        &&& !self.finite() || self.bits == 0 || (self.normal() && self.shift() + 109
            >= rhs.shift())
    }

    /// The product of two numbers, rounded to the nearest number, where it is
    /// computed here.
    pub fn checked_mul(&self, rhs: &Binary32) -> (r: Option<Binary32>)
        ensures
            r is Some <==> self.multiplies(*rhs),
            r matches Some(product) ==> product.positive_number() && product.ticks()
                == product_ticks(self.magnitude(), rhs.magnitude()),
    {
        if self.is_nan() || rhs.is_nan() || self.is_sign_negative() || rhs.is_sign_negative() {
            return None;
        }
        if (!self.is_finite() && rhs.bits == 0) || (!rhs.is_finite() && self.bits == 0) {
            return None;
        }
        Some(self.mul(rhs))
    }

    /// The quotient of two numbers, rounded to the nearest number, where it
    /// is computed here.
    pub fn checked_div(&self, rhs: &Binary32) -> (r: Option<Binary32>)
        ensures
            r is Some <==> self.divides(*rhs),
            r matches Some(quotient) ==> quotient.positive_number() && quotient.ticks()
                == quotient_ticks(self.magnitude(), rhs.magnitude()),
    {
        if self.is_nan() || rhs.is_nan() || self.is_sign_negative() || rhs.is_sign_negative() {
            return None;
        }
        let (_sb, shb) = rhs.unpack();
        let (eb, _fb) = rhs.fields();
        if eb == 0 || eb == 255 {
            return None;
        }
        if self.is_finite() && self.bits != 0 {
            let (ea, _fa) = self.fields();
            let (_sa, sha) = self.unpack();
            if ea == 0 || sha + 109 < shb {
                return None;
            }
        }
        Some(self.div(rhs))
    }

    /// A number that is not negative, rounded to the nearest whole number,
    /// halves away from zero.
    pub fn checked_round(&self) -> (r: Option<Binary32>)
        ensures
            r is Some <==> self.positive_number(),
            r matches Some(whole) ==> whole.positive_number() && whole.ticks() == round_ticks(
                self.magnitude(),
            ),
    {
        if self.is_nan() || self.is_sign_negative() {
            return None;
        }
        Some(self.round())
    }

    /// The product of two numbers that are not negative. An infinity is not
    /// multiplied by zero.
    pub(crate) fn mul(&self, rhs: &Binary32) -> (res: Binary32)
        requires
            self.positive_number(),
            rhs.positive_number(),
            self.finite() || rhs.bits != 0,
            rhs.finite() || self.bits != 0,
        ensures
            res.positive_number(),
            res.ticks() == product_ticks(self.magnitude(), rhs.magnitude()),
            self.regular() && rhs.regular() && (self.finite() && rhs.finite() ==> self.shift()
                + rhs.shift() >= 149) ==> res.regular() && (res.finite() ==> self.finite()
                && rhs.finite() && res.shift() + 126 >= self.shift() + rhs.shift()),
    {
        if !self.is_finite() || !rhs.is_finite() {
            proof {
                lemma_infinite_at_infinity(*self);
                lemma_infinite_at_infinity(*rhs);
            }
            return Binary32 { bits: 0x7f80_0000 };
        }
        let (sa, sha) = self.unpack();
        let (sb, shb) = rhs.unpack();
        assert(sa as u64 * sb as u64 <= 0xFF_FFFF * 0xFF_FFFF) by (nonlinear_arith)
            requires
                sa <= 0xFF_FFFF,
                sb <= 0xFF_FFFF,
        ;
        let p: u64 = (sa as u64) * (sb as u64);
        let ghost a = self.magnitude();
        let ghost b = rhs.magnitude();
        let ghost one = one_in_ticks();
        proof {
            lemma_finite_below_infinity(*self);
            lemma_finite_below_infinity(*rhs);
            lemma_pow2_pos(149);
            lemma_pow2_adds(sha as nat, shb as nat);
            assert(a * b == p as nat * pow2((sha + shb) as nat)) by (nonlinear_arith)
                requires
                    a == sa as nat * pow2(sha as nat),
                    b == sb as nat * pow2(shb as nat),
                    p == sa * sb,
                    pow2((sha + shb) as nat) == pow2(sha as nat) * pow2(shb as nat),
            ;
        }
        if sha + shb >= 149 {
            let e: u32 = sha + shb - 149;
            let res = round_fraction(p, 0, 1, e);
            proof {
                lemma_pow2_adds(e as nat, 149);
                let n = p as nat * pow2(e as nat);
                assert(a * b == n * one) by (nonlinear_arith)
                    requires
                        a * b == p as nat * pow2((sha + shb) as nat),
                        pow2((sha + shb) as nat) == pow2(e as nat) * one,
                        n == p as nat * pow2(e as nat),
                ;
                lemma_nearest_scale(n, 1, one);
                assert(1 * one == one);
                assert((p as nat * 1 + 0) * pow2(e as nat) == n) by (nonlinear_arith)
                    requires
                        n == p as nat * pow2(e as nat),
                ;
                if self.normal() && rhs.normal() {
                    lemma2_to64();
                    lemma2_to64_rest();
                    assert(p >= 0x80_0000 * 0x80_0000) by (nonlinear_arith)
                        requires
                            p == sa * sb,
                            sa >= 0x80_0000,
                            sb >= 0x80_0000,
                    ;
                    lemma_pow2_adds(23, 23);
                    lemma_excess_bits_least(p as nat, 23);
                }
            }
            res
        } else {
            let k: u32 = 149 - (sha + shb);
            proof {
                lemma_pow2_adds((sha + shb) as nat, k as nat);
                lemma_pow2_pos((sha + shb) as nat);
                lemma_pow2_pos(k as nat);
                let c = pow2((sha + shb) as nat);
                lemma_nearest_scale(p as nat, pow2(k as nat), c);
                assert(a * b == p as nat * c);
                assert(one == pow2(k as nat) * c) by (nonlinear_arith)
                    requires
                        one == c * pow2(k as nat),
                ;
            }
            if k >= 50 {
                proof {
                    lemma2_to64();
                    lemma2_to64_rest();
                    assert(p < 0x1_0000_0000_0000) by (nonlinear_arith)
                        requires
                            p == sa * sb,
                            sa < 0x100_0000,
                            sb < 0x100_0000,
                    ;
                    if k > 50 {
                        lemma_pow2_strictly_increases(50, k as nat);
                    }
                    let d = pow2(k as nat);
                    lemma_pow2_adds(48, 2);
                    assert(pow2(50) == 4 * pow2(48));
                    lemma_small_mod(p as nat, d);
                    lemma_basic_div(p as int, d as int);
                    assert(excess_bits(0) == 0);
                    assert(d * pow2(0) == d);
                    assert(tie_even(p as nat, d) == 0);
                    assert(pow2(0) * 0 == 0);
                    assert(saturate(0) == 0) by {
                        lemma_pow2_pos(277);
                    }
                    assert(0 * pow2(0) == 0);
                }
                Binary32 { bits: 0 }
            } else {
                let d: u64 = power_of_two(k);
                let q: u64 = p / d;
                let r: u64 = p % d;
                proof {
                    lemma2_to64();
                    lemma_fundamental_div_mod(p as int, d as int);
                    assert((q as nat * d as nat + r as nat) * pow2(0) == p) by (nonlinear_arith)
                        requires
                            p == d * q + r,
                            pow2(0) == 1,
                    ;
                }
                round_fraction(q, r, d, 0)
            }
        }
    }

    /// The quotient of two numbers that are not negative. The divisor is
    /// normal; the dividend is zero, normal and not too small beside the
    /// divisor, or infinite.
    pub(crate) fn div(&self, rhs: &Binary32) -> (res: Binary32)
        requires
            self.positive_number(),
            rhs.positive_number(),
            rhs.normal(),
            !self.finite() || self.bits == 0 || (self.normal() && self.shift() + 109
                >= rhs.shift()),
        ensures
            res.positive_number(),
            res.ticks() == quotient_ticks(self.magnitude(), rhs.magnitude()),
            self.bits == 0 ==> res.bits == 0,
            self.regular() ==> res.regular() && (res.finite() ==> self.finite() && res.shift()
                + rhs.shift() >= self.shift() + 125),
    {
        if !self.is_finite() {
            proof {
                lemma_infinite_at_infinity(*self);
            }
            return Binary32 { bits: 0x7f80_0000 };
        }
        let (sa, sha) = self.unpack();
        let (sb, shb) = rhs.unpack();
        let ghost a = self.magnitude();
        let ghost b = rhs.magnitude();
        let ghost one = one_in_ticks();
        proof {
            lemma2_to64();
            lemma2_to64_rest();
            lemma_finite_below_infinity(*self);
            lemma_pow2_pos(149);
            lemma_pow2_pos(shb as nat);
            assert(b > 0) by (nonlinear_arith)
                requires
                    b == sb as nat * pow2(shb as nat),
                    sb > 0,
                    pow2(shb as nat) > 0,
            ;
        }
        if self.bits == 0 {
            proof {
                assert(a == 0) by (nonlinear_arith)
                    requires
                        a == sa as nat * pow2(sha as nat),
                        sa == 0,
                ;
                assert(a * one == 0) by (nonlinear_arith)
                    requires
                        a == 0,
                ;
                lemma_small_mod(0, b);
                lemma_basic_div(0, b as int);
                assert(excess_bits(0) == 0);
                assert(b * pow2(0) == b);
                assert(tie_even(0, b) == 0);
                assert(pow2(0) * 0 == 0);
                assert(saturate(0) == 0) by {
                    lemma_pow2_pos(277);
                }
                assert(0 * pow2(0) == 0);
            }
            return Binary32 { bits: 0 };
        }
        assert(sa as u64 * 0x100_0000_0000 < 0x1_0000_0000_0000_0000) by (nonlinear_arith)
            requires
                sa < 0x100_0000,
        ;
        let scaled: u64 = (sa as u64) * 0x100_0000_0000;
        let q: u64 = scaled / (sb as u64);
        let r: u64 = scaled % (sb as u64);
        let e: u32 = sha + 109 - shb;
        proof {
            lemma_fundamental_div_mod(scaled as int, sb as int);
            assert(scaled >= 0x80_0000 * 0x100_0000_0000) by (nonlinear_arith)
                requires
                    scaled == sa * 0x100_0000_0000,
                    sa >= 0x80_0000,
            ;
            assert(q >= 0x80_0000_0000) by (nonlinear_arith)
                requires
                    scaled == sb * q + r,
                    r < sb,
                    sb < 0x100_0000,
                    scaled >= 0x80_0000 * 0x100_0000_0000,
                    q >= 0,
            ;
            let n = ((q as nat * sb as nat + r as nat) * pow2(e as nat)) as nat;
            let c = pow2(shb as nat);
            lemma_pow2_adds(40, e as nat);
            lemma_pow2_adds((40 + e) as nat, shb as nat);
            lemma_pow2_adds(sha as nat, 149);
            assert(sha + 149 == 40 + e + shb);
            assert(a * one == n * c) by (nonlinear_arith)
                requires
                    a == sa as nat * pow2(sha as nat),
                    one == pow2(149),
                    pow2((sha + 149) as nat) == pow2(sha as nat) * pow2(149),
                    pow2((sha + 149) as nat) == pow2((40 + e) as nat) * c,
                    pow2((40 + e) as nat) == pow2(40) * pow2(e as nat),
                    pow2(40) == 0x100_0000_0000,
                    n == (q as nat * sb as nat + r as nat) * pow2(e as nat),
                    scaled == sb * q + r,
                    scaled == sa * 0x100_0000_0000,
            ;
            assert(b == sb as nat * c);
            lemma_nearest_scale(n, sb as nat, c);
            lemma_pow2_adds(32, 7);
            lemma_excess_bits_least(q as nat, 16);
        }
        round_fraction(q, r, sb as u64, e)
    }

    /// The nearest whole number, halves rounded away from zero.
    pub(crate) fn round(&self) -> (res: Binary32)
        requires
            self.positive_number(),
        ensures
            res.positive_number(),
            res.ticks() == round_ticks(self.magnitude()),
            res.bits == 0 || (res.regular() && (res.finite() ==> res.shift() >= 126)),
    {
        if !self.is_finite() {
            proof {
                lemma_infinite_at_infinity(*self);
            }
            return Binary32 { bits: 0x7f80_0000 };
        }
        let (sa, sha) = self.unpack();
        let ghost a = self.magnitude();
        let ghost one = one_in_ticks();
        proof {
            lemma2_to64();
            lemma2_to64_rest();
            lemma_finite_below_infinity(*self);
            lemma_pow2_pos(149);
            lemma_pow2_pos(sha as nat);
        }
        if sha >= 149 {
            proof {
                // The number is whole already.
                let k = sa as nat * pow2((sha - 149) as nat);
                lemma_pow2_adds((sha - 149) as nat, 149);
                assert(a == k * one) by (nonlinear_arith)
                    requires
                        a == sa as nat * pow2(sha as nat),
                        pow2(sha as nat) == pow2((sha - 149) as nat) * one,
                        k == sa as nat * pow2((sha - 149) as nat),
                ;
                assert(2 * a + one == k * (2 * one) + one) by (nonlinear_arith)
                    requires
                        a == k * one,
                ;
                lemma_fundamental_div_mod_converse(
                    (2 * a + one) as int,
                    (2 * one) as int,
                    k as int,
                    one as int,
                );
            }
            return *self;
        }
        let k: u32 = 149 - sha;
        proof {
            lemma_pow2_adds(sha as nat, k as nat);
            lemma_pow2_pos(k as nat);
        }
        let whole: u32 = if k >= 26 {
            proof {
                lemma_pow2_strictly_increases(25, k as nat);
                let c = pow2(sha as nat);
                let d = pow2(k as nat);
                assert(2 * a + one < 2 * one) by (nonlinear_arith)
                    requires
                        a == sa as nat * c,
                        one == c * d,
                        2 * sa < d,
                        c > 0,
                ;
                lemma_basic_div((2 * a + one) as int, (2 * one) as int);
            }
            0
        } else {
            let d: u64 = power_of_two(k);
            proof {
                lemma_pow2_strictly_increases(k as nat, 26);
            }
            let w: u64 = (2 * (sa as u64) + d) / (2 * d);
            proof {
                let c = pow2(sha as nat);
                assert(2 * a + one == (2 * sa + d) * c) by (nonlinear_arith)
                    requires
                        a == sa as nat * c,
                        one == c * d,
                ;
                assert(2 * one == (2 * d) * c) by (nonlinear_arith)
                    requires
                        one == c * d,
                ;
                lemma_div_multiples_vanish_quotient(
                    c as int,
                    (2 * sa + d) as int,
                    (2 * d) as int,
                );
                assert(c * (2 * sa + d) == (2 * sa + d) * c) by (nonlinear_arith);
                assert(c * (2 * d) == (2 * d) * c) by (nonlinear_arith);
                assert(w == (2 * a + one) / (2 * one));
                assert(w < 0x100_0000) by {
                    lemma_fundamental_div_mod((2 * sa + d) as int, (2 * d) as int);
                    assert(d >= 2) by {
                        if k > 1 {
                            lemma_pow2_strictly_increases(1, k as nat);
                        }
                    }
                    assert(w * (2 * d) <= 2 * sa + d);
                    assert(w < 0x100_0000) by (nonlinear_arith)
                        requires
                            w * (2 * d) <= 2 * sa + d,
                            d >= 2,
                            sa < 0x100_0000,
                            w >= 0,
                    ;
                }
            }
            w as u32
        };
        proof {
            assert(whole == (2 * a + one) / (2 * one));
            assert(whole as nat * one < infinity_in_ticks()) by {
                lemma_pow2_adds(24, 149);
                lemma_pow2_strictly_increases(173, 277);
                assert(whole as nat * one < pow2(24) * one) by (nonlinear_arith)
                    requires
                        whole < pow2(24),
                        one > 0,
                ;
            }
        }
        Binary32::from_u32(whole)
    }
}

/// An infinity has the tick count of infinity.
pub proof fn lemma_infinite_at_infinity(a: Binary32)
    requires
        !a.nan(),
    ensures
        !a.finite() ==> a.magnitude() == infinity_in_ticks(),
        a.finite() ==> a.magnitude() < infinity_in_ticks(),
{
    if a.finite() {
        lemma_finite_below_infinity(a);
    } else {
        lemma2_to64();
        lemma_pow2_adds(23, 254);
    }
}

/// The nearest number to an integer of thirty-two bits is finite.
pub proof fn lemma_integer_finite(w: nat)
    requires
        w < 0x1_0000_0000,
    ensures
        nearest(w * one_in_ticks(), 1) < infinity_in_ticks(),
{
    let one = one_in_ticks();
    let n = w * one;
    lemma2_to64();
    lemma2_to64_rest();
    lemma_pow2_pos(149);
    lemma_pow2_adds(33, 149);
    lemma_pow2_strictly_increases(182, 277);
    assert(n / 1 == n);
    let s = excess_bits(n);
    let p = pow2(s);
    lemma_pow2_pos(s);
    assert(1 * p == p);
    // The rounded integer is at most one more than n / p.
    lemma_fundamental_div_mod(n as int, p as int);
    let t = tie_even(n, p);
    assert(t <= n / p + 1);
    assert(p * t <= n + p) by (nonlinear_arith)
        requires
            t <= n / p + 1,
            n == p * (n / p) + n % p,
            n % p >= 0,
            p > 0,
    ;
    // p itself is no larger than n, unless no bit is in excess.
    if s == 0 {
        assert(p == 1);
    } else {
        lemma_excess_bits_prefix(n, (s - 1) as nat);
        let prev = n / pow2((s - 1) as nat);
        lemma_pow2_pos((s - 1) as nat);
        lemma_pow2_unfold(s);
        lemma_fundamental_div_mod(n as int, pow2((s - 1) as nat) as int);
        assert(n >= pow2((s - 1) as nat) * prev);
        assert(pow2((s - 1) as nat) * prev >= pow2((s - 1) as nat) * 0x100_0000) by (nonlinear_arith)
            requires
                prev >= 0x100_0000,
        ;
    }
    assert(p <= n + 1);
    assert(n < pow2(32) * one) by (nonlinear_arith)
        requires
            n == w * one,
            w < pow2(32),
            one > 0,
    ;
}

} // verus!
