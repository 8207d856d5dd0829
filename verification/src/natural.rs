//! Natural numbers without an upper limit, as far as counting symbols
//! needs them: multiplying by a machine word and comparing with a power of
//! two.

use vstd::prelude::*;
use crate::entropy::{power, power_adds, power_grows_with_exponent, power_positive};

verus! {

/// The base in which a `Natural` is written: two to the power of 64.
spec fn radix() -> nat {
    0x1_0000_0000_0000_0000
}

/// What a digit at place `place` counts for.
spec fn weight(place: nat) -> nat {
    power(2, 64 * place)
}

/// The number that `digits` write in base `radix()`, lowest digit first.
spec fn digits_value(digits: Seq<u64>) -> nat
    decreases digits.len(),
{
    if digits.len() == 0 {
        0
    } else {
        digits_value(digits.drop_last()) + digits.last() as nat * weight(
            (digits.len() - 1) as nat,
        )
    }
}

/// A natural number of any size.
pub struct Natural {
    digits: Vec<u64>,
}

/// Two to the power of 64 is the base.
proof fn two_to_64()
    ensures
        power(2, 64) == radix(),
{
    assert(power(2, 8) == 256) by {
        reveal_with_fuel(power, 9);
    }
    power_adds(2, 8, 8);
    power_adds(2, 16, 16);
    power_adds(2, 32, 32);
    assert(256 * 256 == 0x1_0000) by (nonlinear_arith);
    assert(0x1_0000 * 0x1_0000 == 0x1_0000_0000) by (nonlinear_arith);
    assert(0x1_0000_0000 * 0x1_0000_0000 == 0x1_0000_0000_0000_0000) by (nonlinear_arith);
}

/// Each place counts for `radix()` times the one below it.
proof fn weight_steps(place: nat)
    ensures
        weight(place + 1) == radix() * weight(place),
        weight(place) >= 1,
        weight(0) == 1,
{
    two_to_64();
    power_adds(2, 64, 64 * place);
    assert(64 * (place + 1) == 64 + 64 * place);
    power_positive(2, 64 * place);
    assert(power(2, 0) == 1);
}

/// Digits write a number below the weight of the place after the last.
proof fn digits_value_bound(digits: Seq<u64>)
    ensures
        digits_value(digits) < weight(digits.len()),
    decreases digits.len(),
{
    if digits.len() == 0 {
        weight_steps(0);
    } else {
        let below: nat = (digits.len() - 1) as nat;
        digits_value_bound(digits.drop_last());
        weight_steps(below);
        assert(digits.last() as nat * weight(below) <= (radix() - 1) * weight(below))
            by (nonlinear_arith)
            requires
                digits.last() as nat <= radix() - 1,
        ;
        assert((radix() - 1) * weight(below) + weight(below) == radix() * weight(below))
            by (nonlinear_arith);
    }
}

impl Natural {
    /// The number itself.
    pub closed spec fn value(&self) -> nat {
        digits_value(self.digits@)
    }

    /// Whether the number is written without a leading zero.
    pub closed spec fn well_formed(&self) -> bool {
        self.digits@.len() > 0 ==> self.digits@.last() != 0
    }

    /// The number one.
    pub fn one() -> (number: Natural)
        ensures
            number.well_formed(),
            number.value() == 1,
    {
        let mut digits: Vec<u64> = Vec::new();
        digits.push(1);
        proof {
            weight_steps(0);
            assert(digits@.drop_last() =~= Seq::<u64>::empty());
            assert(digits_value(digits@.drop_last()) == 0);
            assert(digits_value(digits@) == 0 + 1 * weight(0));
        }
        Natural { digits }
    }

    /// Multiplies the number by `factor`.
    pub fn scale(&mut self, factor: u64)
        requires
            old(self).well_formed(),
        ensures
            final(self).well_formed(),
            final(self).value() == old(self).value() * factor,
    {
        if factor == 0 {
            self.digits.clear();
            return;
        }
        let ghost before = self.digits@;
        let count: usize = self.digits.len();
        let mut carry: u64 = 0;
        let mut i: usize = 0;
        proof {
            weight_steps(0);
            assert(before.take(0) =~= Seq::<u64>::empty());
        }
        while i < count
            invariant
                i <= count,
                count == before.len(),
                self.digits@.len() == count,
                forall|j: int| i <= j < count ==> self.digits@[j] == before[j],
                digits_value(self.digits@.take(i as int)) + carry as nat * weight(i as nat)
                    == digits_value(before.take(i as int)) * factor,
            decreases count - i,
        {
            let digit: u64 = self.digits[i];
            assert(digit as u128 * factor as u128 + carry as u128 <= u128::MAX) by (nonlinear_arith)
                requires
                    digit <= u64::MAX,
                    factor <= u64::MAX,
                    carry <= u64::MAX,
            ;
            let wide: u128 = digit as u128 * factor as u128 + carry as u128;
            let low: u64 = (wide % 0x1_0000_0000_0000_0000u128) as u64;
            let high: u64 = (wide / 0x1_0000_0000_0000_0000u128) as u64;
            let ghost earlier = self.digits@;
            self.digits[i] = low;
            proof {
                let place: nat = i as nat;
                let now = self.digits@;
                weight_steps(place);
                assert(now.take(i + 1).drop_last() =~= earlier.take(i as int));
                assert(before.take(i + 1).drop_last() =~= before.take(i as int));
                assert(now.take(i + 1).last() == low);
                assert(before.take(i + 1).last() == digit);
                let done: nat = digits_value(earlier.take(i as int));
                let goal: nat = digits_value(before.take(i as int));
                let unit: nat = weight(place);
                assert(digits_value(now.take(i + 1)) == done + low as nat * unit);
                assert(digits_value(before.take(i + 1)) == goal + digit as nat * unit);
                assert(wide == low as nat + high as nat * radix());
                assert((done + low as nat * unit) + high as nat * (radix() * unit) == (goal
                    + digit as nat * unit) * factor) by (nonlinear_arith)
                    requires
                        done + carry as nat * unit == goal * factor,
                        digit as nat * factor as nat + carry as nat == low as nat + high as nat
                            * radix(),
                ;
            }
            carry = high;
            i += 1;
        }
        proof {
            assert(self.digits@.take(count as int) =~= self.digits@);
            assert(before.take(count as int) =~= before);
        }
        if carry != 0 {
            let ghost earlier = self.digits@;
            self.digits.push(carry);
            proof {
                assert(self.digits@.drop_last() =~= earlier);
            }
        } else {
            proof {
                if count > 0 {
                    let below: nat = (count - 1) as nat;
                    weight_steps(below);
                    digits_value_bound(self.digits@.drop_last());
                    digits_value_bound(before.drop_last());
                    assert(digits_value(before) * factor >= weight(below)) by (nonlinear_arith)
                        requires
                            digits_value(before) >= before.last() as nat * weight(below),
                            before.last() as nat >= 1,
                            factor >= 1,
                    ;
                }
            }
        }
    }

    /// Whether the number is at least two to the power of `exponent`.
    pub fn reaches_power_of_two(&self, exponent: u64) -> (reached: bool)
        requires
            self.well_formed(),
        ensures
            reached == (self.value() >= power(2, exponent as nat)),
    {
        let place: u64 = exponent / 64;
        let shift: u64 = exponent % 64;
        let count: usize = self.digits.len();
        proof {
            digits_value_bound(self.digits@);
            power_adds(2, shift as nat, 64 * (place as nat));
            assert(shift as nat + 64 * (place as nat) == exponent as nat);
            power_positive(2, shift as nat);
            weight_steps(place as nat);
        }
        if count as u64 <= place {
            proof {
                if (count as nat) < place as nat {
                    power_grows_with_exponent(2, 64 * (count as nat), 64 * (place as nat));
                }
                assert(power(2, exponent as nat) >= weight(place as nat)) by (nonlinear_arith)
                    requires
                        power(2, exponent as nat) == power(2, shift as nat) * weight(place as nat),
                        power(2, shift as nat) >= 1,
                ;
            }
            return false;
        }
        let ghost below: nat = (count - 1) as nat;
        proof {
            weight_steps(below);
        }
        if count as u64 > place + 1 {
            proof {
                power_grows_with_exponent(2, exponent as nat, 64 * below);
                assert(self.digits@.last() as nat * weight(below) >= weight(below))
                    by (nonlinear_arith)
                    requires
                        self.digits@.last() as nat >= 1,
                ;
            }
            return true;
        }
        let mut threshold: u64 = 1;
        let mut doubled: u64 = 0;
        while doubled < shift
            invariant
                doubled <= shift < 64,
                threshold == power(2, doubled as nat),
            decreases shift - doubled,
        {
            proof {
                power_grows_with_exponent(2, (doubled + 1) as nat, 64);
                two_to_64();
                assert(power(2, (doubled + 1) as nat) == 2 * power(2, doubled as nat));
            }
            threshold = threshold * 2;
            doubled += 1;
        }
        let top: u64 = self.digits[count - 1];
        proof {
            let unit: nat = weight(below);
            let rest: nat = digits_value(self.digits@.drop_last());
            digits_value_bound(self.digits@.drop_last());
            assert(self.value() == rest + top as nat * unit);
            if top >= threshold {
                assert(top as nat * unit >= threshold as nat * unit) by (nonlinear_arith)
                    requires
                        top >= threshold,
                ;
            } else {
                assert(top as nat * unit + unit <= threshold as nat * unit) by (nonlinear_arith)
                    requires
                        top + 1 <= threshold,
                ;
            }
        }
        top >= threshold
    }
}

} // verus!
