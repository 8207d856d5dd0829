//! How many symbols a requested amount of entropy takes.
//!
//! A string of `count` symbols, each drawn evenly from `size` symbols,
//! carries `count * log2(size)` bits of entropy. That this is at least
//! `bits` says the same as `size^count >= 2^bits`, which is how this module
//! states and decides it: in whole numbers, without rounding.

use vstd::prelude::*;
use crate::natural::Natural;

verus! {

/// `base` multiplied by itself `exponent` times.
pub open spec fn power(base: nat, exponent: nat) -> nat
    decreases exponent,
{
    if exponent == 0 {
        1
    } else {
        base * power(base, (exponent - 1) as nat)
    }
}

/// Whether `count` symbols out of `size` carry at least `bits` bits of
/// entropy.
pub open spec fn suffices(count: nat, size: nat, bits: nat) -> bool {
    power(size, count) >= power(2, bits)
}

/// Whether `count` symbols out of `size` carry at least `bits` bits of
/// entropy and no smaller number of symbols does.
pub open spec fn is_least_count(count: nat, size: nat, bits: nat) -> bool {
    &&& suffices(count, size, bits)
    &&& forall|fewer: nat| fewer < count ==> !#[trigger] suffices(fewer, size, bits)
}

/// The least number of symbols out of `size` that carry at least `bits`
/// bits of entropy. An alphabet of fewer than two symbols carries none,
/// however long the string: for such a `size` there is no count.
pub fn symbol_count(bits: u64, size: usize) -> (count: Option<u64>)
    ensures
        count is None <==> size < 2,
        count matches Some(n) ==> is_least_count(n as nat, size as nat, bits as nat),
{
    if size < 2 {
        return None;
    }
    let mut product: Natural = Natural::one();
    let mut count: u64 = 0;
    while !product.reaches_power_of_two(bits)
        invariant
            size >= 2,
            product.well_formed(),
            product.value() == power(size as nat, count as nat),
            count <= bits,
            forall|fewer: nat| fewer < count ==> !#[trigger] suffices(fewer, size as nat, bits as nat),
        decreases bits - count,
    {
        proof {
            power_grows_with_base(2, size as nat, bits as nat);
            assert(!suffices(count as nat, size as nat, bits as nat));
            assert(power(size as nat, (count + 1) as nat) == size as nat * power(
                size as nat,
                count as nat,
            ));
            assert(size as nat * power(size as nat, count as nat) == power(
                size as nat,
                count as nat,
            ) * (size as u64)) by (nonlinear_arith);
        }
        product.scale(size as u64);
        count += 1;
    }
    Some(count)
}

/// A power of a sum of exponents is the product of the powers.
pub proof fn power_adds(base: nat, left: nat, right: nat)
    ensures
        power(base, left + right) == power(base, left) * power(base, right),
    decreases left,
{
    if left > 0 {
        let rest: nat = (left - 1) as nat;
        power_adds(base, rest, right);
        assert(power(base, left) == base * power(base, rest));
        assert(power(base, left + right) == base * power(base, rest + right)) by {
            assert((left + right - 1) as nat == rest + right);
        }
        assert(base * (power(base, rest) * power(base, right)) == (base * power(base, rest))
            * power(base, right)) by (nonlinear_arith);
    } else {
        assert(power(base, left) == 1);
        assert(left + right == right);
    }
}

/// A power of a positive number is positive.
pub proof fn power_positive(base: nat, exponent: nat)
    requires
        base >= 1,
    ensures
        power(base, exponent) >= 1,
    decreases exponent,
{
    if exponent > 0 {
        power_positive(base, (exponent - 1) as nat);
        assert(base * power(base, (exponent - 1) as nat) >= 1) by (nonlinear_arith)
            requires
                base >= 1,
                power(base, (exponent - 1) as nat) >= 1,
        ;
    }
}

/// A power grows with its base.
pub proof fn power_grows_with_base(small: nat, large: nat, exponent: nat)
    requires
        small <= large,
    ensures
        power(small, exponent) <= power(large, exponent),
    decreases exponent,
{
    if exponent > 0 {
        power_grows_with_base(small, large, (exponent - 1) as nat);
        assert(small * power(small, (exponent - 1) as nat) <= large * power(
            large,
            (exponent - 1) as nat,
        )) by (nonlinear_arith)
            requires
                small <= large,
                power(small, (exponent - 1) as nat) <= power(large, (exponent - 1) as nat),
        ;
    }
}

/// A power of a number that is at least two grows strictly with its
/// exponent.
pub proof fn power_grows_with_exponent(base: nat, less: nat, more: nat)
    requires
        base >= 2,
        less < more,
    ensures
        power(base, less) < power(base, more),
    decreases more,
{
    power_positive(base, less);
    if less + 1 < more {
        power_grows_with_exponent(base, less, (more - 1) as nat);
    }
    assert(base * power(base, (more - 1) as nat) > power(base, (more - 1) as nat))
        by (nonlinear_arith)
        requires
            base >= 2,
            power(base, (more - 1) as nat) >= 1,
    ;
}

/// The count of symbols that is needed brackets the requested entropy:
/// with `count` symbols it is reached, with one fewer it is not. In
/// logarithms, `count * log2(size) >= bits > (count - 1) * log2(size)`.
pub proof fn least_count_brackets(count: nat, size: nat, bits: nat)
    requires
        size >= 2,
        bits > 0,
        is_least_count(count, size, bits),
    ensures
        count >= 1,
        power(size, count) >= power(2, bits),
        power(size, (count - 1) as nat) < power(2, bits),
{
    power_grows_with_exponent(2, 0, bits);
    assert(!suffices(0, size, bits));
    assert(!suffices((count - 1) as nat, size, bits));
}

/// Only one count is the least that suffices, and it is no more than the
/// number of bits asked for.
pub proof fn least_count_unique(count: nat, other: nat, size: nat, bits: nat)
    requires
        size >= 2,
        is_least_count(count, size, bits),
        is_least_count(other, size, bits),
    ensures
        count == other,
        count <= bits,
{
    if count < other {
        assert(!suffices(count, size, bits));
    }
    if other < count {
        assert(!suffices(other, size, bits));
    }
    power_grows_with_base(2, size, bits);
    if bits < count {
        assert(!suffices(bits, size, bits));
    }
}

} // verus!
