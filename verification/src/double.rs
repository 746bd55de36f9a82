//! IEEE 754 doubles, as the integers that their bits spell.

use vstd::arithmetic::power2::pow2;
use vstd::prelude::*;

verus! {

/// Significands are below this bound (2^53).
pub const SIGNIFICAND_BOUND: u64 = 0x20_0000_0000_0000;

/// The bits of a fraction are below this bound (2^52).
pub const FRACTION_BOUND: u64 = 0x10_0000_0000_0000;

/// The sign bit (2^63).
pub const SIGN: u64 = 0x8000_0000_0000_0000;

/// Whether the sign bit is set.
pub open spec fn negative(bits: u64) -> bool {
    bits >= SIGN
}

/// The eleven bits of the biased exponent.
pub open spec fn biased_exponent(bits: u64) -> nat {
    ((bits / FRACTION_BOUND) % 2048) as nat
}

/// Whether the bits spell a number, and neither an infinity nor a NaN.
pub open spec fn finite(bits: u64) -> bool {
    biased_exponent(bits) < 2047
}

/// The significand: a finite double is its significand times two to the power of
/// its exponent, with its sign.
pub open spec fn significand(bits: u64) -> nat {
    let fraction = (bits % FRACTION_BOUND) as nat;
    if biased_exponent(bits) == 0 {
        fraction
    } else {
        fraction + FRACTION_BOUND as nat
    }
}

/// The exponent that goes with `significand`.
pub open spec fn exponent(bits: u64) -> int {
    if biased_exponent(bits) == 0 {
        -1074
    } else {
        biased_exponent(bits) - 1075
    }
}

/// The distance between neighbouring doubles around the integer `n`.
pub open spec fn spacing(n: nat) -> nat
    decreases n,
{
    if n < SIGNIFICAND_BOUND {
        1
    } else {
        2 * spacing(n / 2)
    }
}

/// The multiple of `unit` nearest to `n`, the even multiple where two are equally near.
pub open spec fn nearest_multiple(n: nat, unit: nat) -> nat {
    let below = n / unit;
    let rest = n % unit;
    if 2 * rest < unit || (2 * rest == unit && below % 2 == 0) {
        below * unit
    } else {
        (below + 1) * unit
    }
}

/// The double nearest to the integer `n`, ties to even, range aside.
pub open spec fn nearest(n: nat) -> nat {
    nearest_multiple(n, spacing(n))
}

/// Whether the bits spell the double nearest to the integer `n`.
pub open spec fn is_double_of(bits: u64, n: int) -> bool {
    let magnitude = nearest((if n < 0 { -n } else { n }) as nat);
    &&& finite(bits)
    &&& negative(bits) == (n < 0)
    &&& if exponent(bits) >= 0 {
        significand(bits) * pow2(exponent(bits) as nat) == magnitude
    } else {
        significand(bits) == magnitude * pow2((-exponent(bits)) as nat)
    }
}

} // verus!
