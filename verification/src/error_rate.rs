//! The error rate above which a circuit breaker opens.
//!
//! A configured threshold is an IEEE 754 double, and the rate of `failed` out
//! of `total` requests is compared with it after the quotient has been rounded
//! to a double. Both counts have 32 bits, so that comparison is the comparison
//! of the exact quotient with one fraction, which is what is held here.

use vstd::arithmetic::power2::{lemma2_to64, lemma_pow2_adds, lemma_pow2_pos, pow2};
use vstd::prelude::*;

verus! {

/// A bound on the rate of failed requests.
#[derive(Debug, Clone, Copy, PartialEq, Eq, Structural)]
pub enum ErrorRate {
    /// No rate exceeds the bound.
    Never,
    /// Every rate exceeds the bound, even that of no failure at all.
    Always,
    /// The rates above `numerator / denominator` exceed the bound.
    Above { numerator: u64, denominator: u128 },
}

impl ErrorRate {
    /// Whether the rate of `failed` out of `total` requests exceeds the bound.
    /// Failures out of no request at all are an infinite rate, and no failure
    /// out of no request is no rate.
    pub open spec fn is_exceeded(self, failed: nat, total: nat) -> bool {
        match self {
            ErrorRate::Never => false,
            ErrorRate::Always => failed > 0 || total > 0,
            ErrorRate::Above { numerator, denominator } => failed * (denominator as nat)
                > numerator as nat * total,
        }
    }

    /// Whether the rate of `failed` out of `total` requests exceeds the bound.
    pub fn exceeded(&self, failed: u32, total: u32) -> (exceeded: bool)
        ensures
            exceeded == self.is_exceeded(failed as nat, total as nat),
    {
        match *self {
            ErrorRate::Never => false,
            ErrorRate::Always => failed > 0 || total > 0,
            ErrorRate::Above { numerator, denominator } => {
                assert(numerator as nat * total as nat <= 0xffff_ffff_ffff_ffff * 0xffff_ffff)
                    by (nonlinear_arith)
                    requires
                        numerator <= 0xffff_ffff_ffff_ffff,
                        total <= 0xffff_ffff,
                ;
                let bound: u128 = numerator as u128 * total as u128;
                match (failed as u128).checked_mul(denominator) {
                    Some(scaled) => scaled > bound,
                    None => true,
                }
            },
        }
    }

    /// The bound that the double with the given bits stands for.
    ///
    /// A quotient of two counts is rounded to the nearest double before it is
    /// compared with the threshold, so it counts as exceeding the threshold
    /// above the point halfway between the threshold and the next double.
    /// Outside the range of such quotients the bound is one that all of them,
    /// all but zero, or none exceed.
    pub fn from_bits(bits: u64) -> (rate: ErrorRate)
        ensures
            is_nan(bits) || is_infinity(bits) ==> rate == ErrorRate::Never,
            is_negative(bits) ==> rate == ErrorRate::Always,
            is_tiny(bits) ==> rate == (ErrorRate::Above { numerator: 0, denominator: 1 }),
            is_huge(bits) ==> rate == (ErrorRate::Above { numerator: u64::MAX, denominator: 1 }),
            is_quotient_sized(bits) ==> {
                &&& rate matches ErrorRate::Above { numerator, denominator }
                &&& numerator == halfway_numerator(bits)
                &&& denominator == halfway_denominator(bits)
            },
    {
        let fraction: u64 = bits % 0x10_0000_0000_0000;
        let exponent: u64 = (bits / 0x10_0000_0000_0000) % 2048;
        if exponent == 2047 && fraction != 0 {
            return ErrorRate::Never;
        }
        if bits > 0x8000_0000_0000_0000 {
            return ErrorRate::Always;
        }
        if exponent < 991 {
            return ErrorRate::Above { numerator: 0, denominator: 1 };
        }
        if exponent == 2047 {
            return ErrorRate::Never;
        }
        if exponent >= 1055 {
            return ErrorRate::Above { numerator: u64::MAX, denominator: 1 };
        }
        let significand: u64 = 0x10_0000_0000_0000 + fraction;
        ErrorRate::Above {
            numerator: 2 * significand + 1,
            denominator: power_of_two(1076 - exponent),
        }
    }
}

/// The 52 fraction bits of a double.
pub open spec fn fraction_field(bits: u64) -> nat {
    (bits % 0x10_0000_0000_0000) as nat
}

/// The 11 exponent bits of a double.
pub open spec fn exponent_field(bits: u64) -> nat {
    ((bits / 0x10_0000_0000_0000) % 2048) as nat
}

/// The double is not a number.
pub open spec fn is_nan(bits: u64) -> bool {
    exponent_field(bits) == 2047 && fraction_field(bits) != 0
}

/// The double is infinite and positive.
pub open spec fn is_infinity(bits: u64) -> bool {
    bits < 0x8000_0000_0000_0000 && exponent_field(bits) == 2047 && fraction_field(bits) == 0
}

/// The double is a number less than zero.
pub open spec fn is_negative(bits: u64) -> bool {
    bits > 0x8000_0000_0000_0000 && !is_nan(bits)
}

/// The double is zero, of either sign, or positive and less than 2 to the power
/// -32, as no quotient of two positive 32 bit counts is.
pub open spec fn is_tiny(bits: u64) -> bool {
    bits <= 0x8000_0000_0000_0000 && exponent_field(bits) < 991
}

/// The double is finite and at least 2 to the power 32, as no quotient of two
/// positive 32 bit counts is.
pub open spec fn is_huge(bits: u64) -> bool {
    bits < 0x8000_0000_0000_0000 && 1055 <= exponent_field(bits) < 2047
}

/// The double is positive, at least 2 to the power -32 and less than 2 to the
/// power 32, as every quotient of two positive 32 bit counts is.
pub open spec fn is_quotient_sized(bits: u64) -> bool {
    bits < 0x8000_0000_0000_0000 && 991 <= exponent_field(bits) < 1055
}

/// The significand of a double with its leading bit: the double is this number
/// divided by 2 to the power `1075 - exponent_field(bits)`.
pub open spec fn significand(bits: u64) -> nat {
    0x10_0000_0000_0000 + fraction_field(bits)
}

/// The numerator of the point halfway between a double and the next one, which
/// has the significand one higher.
pub open spec fn halfway_numerator(bits: u64) -> nat {
    2 * significand(bits) + 1
}

/// The denominator of that point.
pub open spec fn halfway_denominator(bits: u64) -> nat {
    pow2((1076 - exponent_field(bits)) as nat)
}

/// 2 to the given power.
fn power_of_two(exponent: u64) -> (power: u128)
    requires
        exponent < 128,
    ensures
        power == pow2(exponent as nat),
{
    let mut power: u128 = 1;
    let mut i: u64 = 0;
    proof {
        lemma2_to64();
    }
    while i < exponent
        invariant
            i <= exponent < 128,
            power == pow2(i as nat),
        decreases exponent - i,
    {
        proof {
            lemma_pow2_adds(i as nat, 1);
            lemma_pow2_adds((i + 1) as nat, (127 - (i + 1)) as nat);
            lemma2_to64();
            lemma_pow2_adds(64, 64);
            lemma_pow2_adds(127, 1);
            assert(pow2(64) * pow2(64) == 0x1_0000_0000_0000_0000 * 0x1_0000_0000_0000_0000)
                by (nonlinear_arith)
                requires
                    pow2(64) == 0x1_0000_0000_0000_0000,
            ;
            lemma_pow2_pos((127 - (i + 1)) as nat);
            assert(pow2((i + 1) as nat) <= pow2(127)) by (nonlinear_arith)
                requires
                    pow2(127) == pow2((i + 1) as nat) * pow2((127 - (i + 1)) as nat),
                    pow2((127 - (i + 1)) as nat) >= 1,
            ;
        }
        power = power * 2;
        i += 1;
    }
    power
}

/// If an odd number divides out of a number times a power of two, it is no
/// larger than that number.
proof fn lemma_odd_factor_is_small(f: nat, n: nat, t: nat, k: nat)
    requires
        n % 2 == 1,
        t > 0,
        f * pow2(k) == n * t,
    ensures
        f >= n,
    decreases k,
{
    lemma2_to64();
    if k == 0 {
        assert(f >= n) by (nonlinear_arith)
            requires
                f * 1 == n * t,
                t > 0,
        ;
    } else {
        let half = pow2((k - 1) as nat);
        lemma_pow2_adds(1, (k - 1) as nat);
        assert(f * pow2(k) == 2 * (f * half)) by (nonlinear_arith)
            requires
                pow2(k) == 2 * half,
        ;
        if t % 2 == 1 {
            let a = n / 2;
            let b = t / 2;
            assert(n * t == 2 * (2 * a * b + a + b) + 1) by (nonlinear_arith)
                requires
                    n == 2 * a + 1,
                    t == 2 * b + 1,
            ;
            assert(false);
        }
        let s = t / 2;
        assert(n * t == 2 * (n * s)) by (nonlinear_arith)
            requires
                t == 2 * s,
        ;
        lemma_odd_factor_is_small(f, n, s, (k - 1) as nat);
    }
}

/// No rate of 32 bit counts lies exactly on the halfway point, so that which
/// way such a point is rounded never decides.
pub proof fn no_rate_is_halfway(bits: u64, failed: u32, total: u32)
    requires
        is_quotient_sized(bits),
        total > 0,
    ensures
        failed * halfway_denominator(bits) != halfway_numerator(bits) * total,
{
    if failed as nat * halfway_denominator(bits) == halfway_numerator(bits) * total as nat {
        let k = (1076 - exponent_field(bits)) as nat;
        lemma_odd_factor_is_small(failed as nat, halfway_numerator(bits), total as nat, k);
    }
}

/// A rate that equals the threshold does not exceed it.
pub proof fn equal_rate_does_not_exceed(bits: u64, failed: u32, total: u32)
    requires
        is_quotient_sized(bits),
        failed * pow2((1075 - exponent_field(bits)) as nat) == significand(bits) * total,
    ensures
        failed * halfway_denominator(bits) <= halfway_numerator(bits) * total,
{
    let f = failed as nat;
    let t = total as nat;
    let unit = pow2((1075 - exponent_field(bits)) as nat);
    let s = significand(bits);
    lemma2_to64();
    lemma_pow2_adds(1, (1075 - exponent_field(bits)) as nat);
    assert(f * (2 * unit) <= (2 * s + 1) * t) by (nonlinear_arith)
        requires
            f * unit == s * t,
    ;
}

/// A rate up to the threshold does not exceed it, where the threshold is its
/// significand divided by a power of two.
pub proof fn rate_up_to_the_threshold_does_not_exceed(bits: u64, failed: u32, total: u32)
    requires
        bits < 0x8000_0000_0000_0000,
        991 <= (bits / 0x10_0000_0000_0000) % 2048 < 1055,
        failed * pow2((1075 - (bits / 0x10_0000_0000_0000) % 2048) as nat) <= (0x10_0000_0000_0000
            + bits % 0x10_0000_0000_0000) * total,
    ensures
        is_quotient_sized(bits),
        failed * halfway_denominator(bits) <= halfway_numerator(bits) * total,
{
    let f = failed as nat;
    let t = total as nat;
    let unit = pow2((1075 - exponent_field(bits)) as nat);
    let s = significand(bits);
    lemma2_to64();
    lemma_pow2_adds(1, (1075 - exponent_field(bits)) as nat);
    assert(f * (2 * unit) <= (2 * s + 1) * t) by (nonlinear_arith)
        requires
            f * unit <= s * t,
    ;
}

/// A rate from the next double on exceeds the threshold.
pub proof fn rate_from_the_next_double_exceeds(bits: u64, failed: u32, total: u32)
    requires
        bits < 0x8000_0000_0000_0000,
        991 <= (bits / 0x10_0000_0000_0000) % 2048 < 1055,
        total > 0,
        failed * pow2((1075 - (bits / 0x10_0000_0000_0000) % 2048) as nat) >= (0x10_0000_0000_0001
            + bits % 0x10_0000_0000_0000) * total,
    ensures
        is_quotient_sized(bits),
        failed * halfway_denominator(bits) > halfway_numerator(bits) * total,
{
    let f = failed as nat;
    let t = total as nat;
    let unit = pow2((1075 - exponent_field(bits)) as nat);
    let s = significand(bits);
    lemma2_to64();
    lemma_pow2_adds(1, (1075 - exponent_field(bits)) as nat);
    assert(f * (2 * unit) > (2 * s + 1) * t) by (nonlinear_arith)
        requires
            f * unit >= (s + 1) * t,
            t > 0,
    ;
}

/// What the bits of a double say of it: not a number, infinite, less than zero, too
/// small or too large to be a quotient of two counts, or neither.
pub proof fn bits_tell_the_size(bits: u64)
    ensures
        ({
            let exponent = (bits / 0x10_0000_0000_0000) % 2048;
            let fraction = bits % 0x10_0000_0000_0000;
            let signed = bits >= 0x8000_0000_0000_0000;
            let zero = bits == 0 || bits == 0x8000_0000_0000_0000;
            &&& is_nan(bits) <==> exponent == 2047 && fraction != 0
            &&& is_infinity(bits) <==> exponent == 2047 && fraction == 0 && !signed
            &&& is_negative(bits) <==> signed && !zero && !(exponent == 2047 && fraction != 0)
            &&& is_tiny(bits) <==> zero || !signed && exponent < 991
            &&& is_huge(bits) <==> !signed && 1055 <= exponent < 2047
            &&& is_quotient_sized(bits) <==> !signed && 991 <= exponent < 1055
        }),
{
}

} // verus!
