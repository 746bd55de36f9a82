//! Costs: a number of dollars in cents.

use crate::double::{
    biased_exponent, exponent, finite, is_double_of, nearest, nearest_multiple, negative, significand, spacing,
    FRACTION_BOUND, SIGN, SIGNIFICAND_BOUND,
};
use vstd::arithmetic::div_mod::{lemma_fundamental_div_mod, lemma_fundamental_div_mod_converse};
use vstd::arithmetic::power2::{
    lemma2_to64, lemma2_to64_rest, lemma_pow2_pos, lemma_pow2_strictly_increases, lemma_pow2_unfold,
    pow2,
};
use vstd::prelude::*;

verus! {

/// `n`, or the greatest `u64` where `n` is above it.
pub open spec fn saturated(n: nat) -> u64 {
    if n <= u64::MAX {
        n as u64
    } else {
        u64::MAX
    }
}

/// A hundred times `significand` times two to the power of `exponent`, where the
/// product with a hundred is rounded to a double, and what comes out to an integer,
/// halves up.
pub open spec fn hundredfold(significand: nat, exponent: int) -> nat {
    let product = nearest(100 * significand);
    if exponent >= 0 {
        product * pow2(exponent as nat)
    } else {
        let unit = pow2((-exponent) as nat);
        (2 * product + unit) / (2 * unit)
    }
}

/// The cents in as many dollars as a double says: the double times a hundred, rounded
/// to an integer that a `u64` holds. What is below zero, or no number, counts as zero.
pub open spec fn cents_of_double(bits: u64) -> u64 {
    if negative(bits) {
        0
    } else if finite(bits) {
        saturated(hundredfold(significand(bits), exponent(bits)))
    } else if bits % FRACTION_BOUND == 0 {
        u64::MAX
    } else {
        0
    }
}

/// The cents in `n` dollars, with `n` and the product rounded to doubles.
pub open spec fn cents_of_integer(n: int) -> u64 {
    if n < 0 {
        0
    } else {
        saturated(nearest(100 * nearest(n as nat)))
    }
}

/// Neighbouring doubles are apart.
proof fn spacing_is_positive(n: nat)
    ensures
        spacing(n) > 0,
    decreases n,
{
    if n >= SIGNIFICAND_BOUND {
        spacing_is_positive(n / 2);
    }
}

/// Doubling before rounding is doubling after it.
proof fn nearest_of_double(n: nat)
    ensures
        nearest(2 * n) == 2 * nearest(n),
{
    let unit = spacing(n);
    spacing_is_positive(n);
    if n < SIGNIFICAND_BOUND {
        assert(nearest(n) == n) by (nonlinear_arith)
            requires
                nearest(n) == nearest_multiple(n, 1),
        ;
        if 2 * n >= SIGNIFICAND_BOUND {
            assert((2 * n) / 2 == n);
            assert(spacing(2 * n) == 2);
        }
        assert(nearest_multiple(2 * n, 2) == 2 * n);
        assert(nearest_multiple(2 * n, 1) == 2 * n);
    } else {
        assert((2 * n) / 2 == n);
        assert(spacing(2 * n) == 2 * unit);
        let below = n / unit;
        let rest = n % unit;
        lemma_fundamental_div_mod(n as int, unit as int);
        assert(2 * n == below * (2 * unit) + 2 * rest) by (nonlinear_arith)
            requires
                n == unit * below + rest,
        ;
        lemma_fundamental_div_mod_converse(2 * n as int, 2 * unit as int, below as int, 2 * rest as int);
        assert(below * (2 * unit) == 2 * (below * unit)) by (nonlinear_arith);
        assert((below + 1) * (2 * unit) == 2 * ((below + 1) * unit)) by (nonlinear_arith);
    }
}

/// Scaling by a power of two before rounding is scaling after it.
proof fn nearest_of_scaled(n: nat, power: nat)
    ensures
        nearest(n * pow2(power)) == nearest(n) * pow2(power),
    decreases power,
{
    if power == 0 {
        lemma2_to64();
    } else {
        let half = pow2((power - 1) as nat);
        lemma_pow2_unfold(power);
        nearest_of_scaled(n, (power - 1) as nat);
        nearest_of_double(n * half);
        assert(n * (2 * half) == 2 * (n * half)) by (nonlinear_arith);
        assert(nearest(n) * (2 * half) == 2 * (nearest(n) * half)) by (nonlinear_arith);
    }
}

/// The cents of an integer are those of the double nearest to it.
pub proof fn cents_of_nearest_double(bits: u64, n: int)
    requires
        is_double_of(bits, n),
    ensures
        cents_of_double(bits) == cents_of_integer(n),
{
    if n >= 0 {
        let magnitude = nearest(n as nat);
        let m = significand(bits);
        if exponent(bits) >= 0 {
            let power = exponent(bits) as nat;
            nearest_of_scaled(100 * m, power);
            assert((100 * m) * pow2(power) == 100 * (m * pow2(power))) by (nonlinear_arith);
        } else {
            let power = (-exponent(bits)) as nat;
            let unit = pow2(power);
            lemma_pow2_pos(power);
            nearest_of_scaled(100 * magnitude, power);
            assert((100 * magnitude) * unit == 100 * (magnitude * unit)) by (nonlinear_arith);
            let whole = nearest(100 * magnitude);
            assert(2 * (whole * unit) + unit == whole * (2 * unit) + unit) by (nonlinear_arith);
            lemma_fundamental_div_mod_converse(
                2 * (whole * unit) + unit as int,
                2 * unit as int,
                whole as int,
                unit as int,
            );
        }
    }
}

/// Whether `p` is the double nearest to the integer `n`, where the doubles around `n` are
/// two to the power of `k` apart: no other is nearer, and of two that are as near it is
/// the even one. Doubles have 53 bits.
pub open spec fn rounds_at(n: nat, p: nat, k: nat) -> bool {
    let unit = pow2(k);
    &&& n < 0x20_0000_0000_0000 * unit
    &&& k == 0 || 0x10_0000_0000_0000 * unit <= n
    &&& p % unit == 0
    &&& -(unit as int) <= 2 * (p - n) <= unit
    &&& (2 * (p - n) == unit || 2 * (n - p) == unit) ==> (p / unit) % 2 == 0
}

/// Whether `p` is the double nearest to the integer `n`.
pub open spec fn rounds_to(n: nat, p: nat) -> bool {
    exists|k: nat| rounds_at(n, p, k)
}

/// Neighbouring doubles are a power of two apart, which leaves 53 bits.
proof fn spacing_is_power(n: nat) -> (k: nat)
    ensures
        spacing(n) == pow2(k),
        n < 0x20_0000_0000_0000 * pow2(k),
        k == 0 || 0x10_0000_0000_0000 * pow2(k) <= n,
    decreases n,
{
    if n < SIGNIFICAND_BOUND {
        lemma2_to64();
        0
    } else {
        let half = spacing_is_power(n / 2);
        lemma_pow2_unfold(half + 1);
        if half == 0 {
            lemma2_to64();
        }
        half + 1
    }
}

/// `nearest` is the nearest double.
pub proof fn nearest_is_nearest(n: nat)
    ensures
        rounds_to(n, nearest(n)),
{
    let k = spacing_is_power(n);
    let unit = pow2(k);
    lemma_pow2_pos(k);
    let below = n / unit;
    let rest = n % unit;
    lemma_fundamental_div_mod(n as int, unit as int);
    assert(unit * below == below * unit) by (nonlinear_arith);
    assert((below + 1) * unit == below * unit + unit) by (nonlinear_arith);
    lemma_fundamental_div_mod_converse((below * unit) as int, unit as int, below as int, 0);
    lemma_fundamental_div_mod_converse(
        ((below + 1) * unit) as int,
        unit as int,
        (below + 1) as int,
        0,
    );
    assert(rounds_at(n, nearest(n), k));
}

/// The nearest double is at most twice the integer.
proof fn rounding_is_close(n: nat, p: nat)
    requires
        rounds_to(n, p),
    ensures
        p <= 2 * n,
{
    let k = choose|k: nat| rounds_at(n, p, k);
    if k == 0 {
        lemma2_to64();
    }
}

/// Whether `cents` is a hundred times `m` times two to the power of `e`, where a hundred
/// times `m` is rounded to the nearest double, and what comes out to the nearest integer,
/// halves up, as far as a `u64` goes.
pub open spec fn hundred_times(m: nat, e: int, cents: int) -> bool {
    exists|p: nat| #[trigger] rounds_to(100 * m, p) && is_scaled(p, e, cents)
}

/// Whether `cents` is the integer nearest to `p` times two to the power of `e`, halves up,
/// as far as a `u64` goes.
pub open spec fn is_scaled(p: nat, e: int, cents: int) -> bool {
    if e < 0 {
        (2 * cents - 1) * pow2((-e) as nat) <= 2 * p < (2 * cents + 1) * pow2((-e) as nat)
    } else if p * pow2(e as nat) <= u64::MAX {
        cents == p * pow2(e as nat)
    } else {
        cents == u64::MAX
    }
}

/// The cents that a double comes to: none where it is negative or no number, as many as a
/// `u64` holds where it is infinite, and else a hundred times the double, rounded.
pub proof fn cents_are_nearest(bits: u64)
    ensures
        ({
            let cents = cents_of_double(bits) as int;
            let biased = (bits / 0x10_0000_0000_0000) as int;
            let fraction = (bits % 0x10_0000_0000_0000) as nat;
            &&& biased >= 2048 ==> cents == 0
            &&& biased == 2047 && fraction == 0 ==> cents == u64::MAX
            &&& biased == 2047 && fraction != 0 ==> cents == 0
            &&& biased == 0 ==> hundred_times(fraction, -1074, cents)
            &&& 0 < biased < 2047 ==> hundred_times(
                fraction + 0x10_0000_0000_0000,
                biased - 1075,
                cents,
            )
        }),
{
    let biased = (bits / 0x10_0000_0000_0000) as int;
    if biased < 2047 {
        let m = significand(bits);
        let e = exponent(bits);
        let p = nearest(100 * m);
        nearest_is_nearest(100 * m);
        rounding_is_close(100 * m, p);
        assert(biased_exponent(bits) == biased);
        assert(!negative(bits));
        assert(m < SIGNIFICAND_BOUND);
        if e < 0 {
            let unit = pow2((-e) as nat);
            lemma_pow2_pos((-e) as nat);
            let cents = (2 * p + unit) / (2 * unit);
            lemma_fundamental_div_mod((2 * p + unit) as int, (2 * unit) as int);
            assert(cents <= p + 1) by (nonlinear_arith)
                requires
                    2 * p + unit == (2 * unit) * cents + (2 * p + unit) % (2 * unit),
                    0 <= (2 * p + unit) % (2 * unit),
                    unit > 0,
            ;
            assert((2 * cents - 1) * unit <= 2 * p && 2 * p < (2 * cents + 1) * unit)
                by (nonlinear_arith)
                requires
                    2 * p + unit == (2 * unit) * cents + (2 * p + unit) % (2 * unit),
                    0 <= (2 * p + unit) % (2 * unit) < 2 * unit,
            ;
        }
        assert(is_scaled(p, e, cents_of_double(bits) as int));
        assert(hundred_times(m, e, cents_of_double(bits) as int));
    }
}

/// The cents that an integer comes to: none where it is negative, and else the integer
/// and a hundred times that, each rounded to the nearest double, as far as a `u64` goes.
pub proof fn cents_of_integers(n: int)
    ensures
        n < 0 ==> cents_of_integer(n) == 0,
        n >= 0 ==> exists|p: nat, q: nat| #[trigger]
            rounds_to(n as nat, p) && #[trigger] rounds_to(100 * p, q) && is_scaled(
                q,
                0,
                cents_of_integer(n) as int,
            ),
{
    if n >= 0 {
        let p = nearest(n as nat);
        nearest_is_nearest(n as nat);
        nearest_is_nearest(100 * p);
        let q = nearest(100 * p);
        lemma2_to64();
        assert(pow2(0) == 1);
        assert(q * pow2(0) == q) by (nonlinear_arith)
            requires
                pow2(0) == 1,
        ;
        assert(is_scaled(q, 0, cents_of_integer(n) as int));
        assert(rounds_to(n as nat, p) && rounds_to(100 * p, nearest(100 * p)));
    }
}

/// Rounds `n` to a double.
fn round_to_double(n: u64) -> (result: u64)
    requires
        n < 0x1000_0000_0000_0000,
    ensures
        result == nearest(n as nat),
        result < 0x1000_0000_0000_0100,
{
    let mut rest: u64 = n;
    let mut unit: u64 = 1;
    while rest >= SIGNIFICAND_BOUND
        invariant
            n < 0x1000_0000_0000_0000,
            1 <= unit <= 0x100,
            rest * unit <= n,
            spacing(n as nat) == unit * spacing(rest as nat),
        decreases rest,
    {
        let half = rest / 2;
        assert(half * (2 * unit) <= rest * unit) by (nonlinear_arith)
            requires
                half == rest / 2,
        ;
        assert(unit < 0x80) by (nonlinear_arith)
            requires
                rest * unit <= n,
                rest >= 0x20_0000_0000_0000,
                n < 0x1000_0000_0000_0000,
        ;
        assert(unit * (2 * spacing(half as nat)) == (2 * unit) * spacing(half as nat))
            by (nonlinear_arith);
        rest = half;
        unit = unit * 2;
    }
    let below = n / unit;
    let over = n % unit;
    proof {
        assert(unit * spacing(rest as nat) == unit) by (nonlinear_arith)
            requires
                spacing(rest as nat) == 1,
        ;
        lemma_fundamental_div_mod(n as int, unit as int);
        assert(below * unit == unit * below) by (nonlinear_arith);
        assert((below + 1) * unit == below * unit + unit) by (nonlinear_arith);
        assert(below <= n) by (nonlinear_arith)
            requires
                below == n / unit,
                unit >= 1,
        ;
    }
    if 2 * over < unit || (2 * over == unit && below % 2 == 0) {
        below * unit
    } else {
        (below + 1) * unit
    }
}

/// Two to the power of `power`.
fn power_of_two(power: u64) -> (result: u64)
    requires
        power < 64,
    ensures
        result == pow2(power as nat),
{
    let mut result: u64 = 1;
    let mut i: u64 = 0;
    proof {
        lemma2_to64();
    }
    while i < power
        invariant
            i <= power < 64,
            result == pow2(i as nat),
        decreases power - i,
    {
        proof {
            lemma_pow2_unfold((i + 1) as nat);
            lemma2_to64();
            lemma_pow2_strictly_increases((i + 1) as nat, 64);
        }
        result = result * 2;
        i = i + 1;
    }
    result
}

/// `n` times two to the power of `power`, or the greatest `u64` where that is above it.
fn saturating_scale(n: u64, power: u64) -> (result: u64)
    ensures
        result == saturated(n as nat * pow2(power as nat)),
{
    let mut result: u64 = n;
    let mut left: u64 = power;
    while left > 0
        invariant
            result * pow2(left as nat) == n as nat * pow2(power as nat),
        decreases left,
    {
        let ghost half = pow2((left - 1) as nat);
        proof {
            lemma_pow2_unfold(left as nat);
            lemma_pow2_pos((left - 1) as nat);
            assert(result * (2 * half) == (result * 2) * half) by (nonlinear_arith);
        }
        if result > u64::MAX / 2 {
            assert((result * 2) * half > u64::MAX) by (nonlinear_arith)
                requires
                    result > u64::MAX / 2,
                    half > 0,
            ;
            return u64::MAX;
        }
        result = result * 2;
        left = left - 1;
    }
    proof {
        lemma2_to64();
    }
    result
}

/// The cents in as many dollars as a double says.
pub fn cents(bits: u64) -> (result: u64)
    ensures
        result == cents_of_double(bits),
{
    if bits >= SIGN {
        return 0;
    }
    let biased = bits / FRACTION_BOUND;
    let fraction = bits % FRACTION_BOUND;
    assert(biased < 2048);
    if biased == 2047 {
        return if fraction == 0 {
            u64::MAX
        } else {
            0
        };
    }
    let significand = if biased == 0 {
        fraction
    } else {
        fraction + FRACTION_BOUND
    };
    let product = round_to_double(100 * significand);
    if biased >= 1075 {
        saturating_scale(product, biased - 1075)
    } else {
        let power: u64 = if biased == 0 {
            1074
        } else {
            1075 - biased
        };
        if power >= 63 {
            proof {
                lemma2_to64_rest();
                if power > 63 {
                    lemma_pow2_strictly_increases(63, power as nat);
                }
                let unit = pow2(power as nat);
                lemma_fundamental_div_mod_converse(
                    2 * product + unit as int,
                    2 * unit as int,
                    0,
                    2 * product + unit as int,
                );
            }
            0
        } else {
            let unit = power_of_two(power);
            proof {
                lemma_pow2_pos(power as nat);
                lemma2_to64_rest();
                if power < 62 {
                    lemma_pow2_strictly_increases(power as nat, 62);
                }
            }
            (2 * product + unit) / (2 * unit)
        }
    }
}

} // verus!
