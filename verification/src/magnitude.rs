//! Magnitude scaling: a byte count as a small mantissa and a unit.

use crate::system_info::SystemInfo;
use vstd::arithmetic::power::pow;
use vstd::prelude::*;

verus! {

/// A quantity written as `mantissa` times `base` to the power `exponent`,
/// rounded down. The exponent selects the unit: 0 for B, then KB, MB, GB and
/// TB.
#[derive(Clone, Copy, Debug, PartialEq, Eq, Structural)]
pub struct ScaledQuantity {
    /// The power of the base, from 0 to 4.
    pub exponent: u32,
    /// The quantity divided by the base to that power.
    pub mantissa: u64,
}

impl ScaledQuantity {
    /// The unit symbol of the quantity.
    pub fn unit(&self) -> (r: String)
        ensures
            r@ == unit_symbol(self.exponent),
    {
        SystemInfo::get_unit(self.exponent)
    }
}

/// The exponent chosen for `num`: the largest `e` from 1 to 4 with
/// `num > base^e`, and 0 where there is none.
pub open spec fn spec_get_exp(num: u64, base: u64) -> u32 {
    if num > pow(base as int, 4) {
        4
    } else if num > pow(base as int, 3) {
        3
    } else if num > pow(base as int, 2) {
        2
    } else if num > pow(base as int, 1) {
        1
    } else {
        0
    }
}

/// `raw` scaled by `base`: the exponent chosen for it, and `raw` divided by
/// `base` to that power. Where that power is 0 the mantissa is 0.
pub open spec fn spec_scale(raw: u64, base: u64) -> ScaledQuantity {
    let exponent = spec_get_exp(raw, base);
    let divisor = pow(base as int, exponent as nat);
    ScaledQuantity {
        exponent,
        mantissa: if divisor > 0 {
            (raw as int / divisor) as u64
        } else {
            0
        },
    }
}

/// The unit symbol of an exponent: B, KB, MB, GB, TB, and UB for an exponent
/// above 4.
pub open spec fn unit_symbol(exp: u32) -> Seq<char> {
    if exp == 0 {
        seq!['B']
    } else if exp == 1 {
        seq!['K', 'B']
    } else if exp == 2 {
        seq!['M', 'B']
    } else if exp == 3 {
        seq!['G', 'B']
    } else if exp == 4 {
        seq!['T', 'B']
    } else {
        seq!['U', 'B']
    }
}

/// The unit symbol as a field of four bytes: its ASCII codes from the left,
/// then NUL bytes.
pub open spec fn unit_field(exp: u32) -> Seq<u8> {
    if exp == 0 {
        seq![0x42u8, 0u8, 0u8, 0u8]
    } else if exp == 1 {
        seq![0x4Bu8, 0x42u8, 0u8, 0u8]
    } else if exp == 2 {
        seq![0x4Du8, 0x42u8, 0u8, 0u8]
    } else if exp == 3 {
        seq![0x47u8, 0x42u8, 0u8, 0u8]
    } else if exp == 4 {
        seq![0x54u8, 0x42u8, 0u8, 0u8]
    } else {
        seq![0x55u8, 0x42u8, 0u8, 0u8]
    }
}

/// The first powers of a base, written as products, and their order.
pub proof fn lemma_small_powers(b: int)
    requires
        b >= 0,
    ensures
        pow(b, 0) == 1,
        pow(b, 1) == b,
        pow(b, 2) == b * b,
        pow(b, 3) == b * b * b,
        pow(b, 4) == b * b * b * b,
        b >= 1 ==> b <= pow(b, 2) <= pow(b, 3) <= pow(b, 4),
{
    reveal_with_fuel(pow, 5);
    assert(b * (b * b) == b * b * b) by (nonlinear_arith);
    assert(b * (b * b * b) == b * b * b * b) by (nonlinear_arith);
    if b >= 1 {
        assert(b <= b * b) by (nonlinear_arith)
            requires
                b >= 1,
        ;
        assert(b * b <= b * b * b) by (nonlinear_arith)
            requires
                b >= 1,
        ;
        assert(b * b * b <= b * b * b * b) by (nonlinear_arith)
            requires
                b >= 1,
        ;
    }
}

/// The chosen exponent is the largest from 1 to 4 whose power of the base
/// lies below the number, and 0 where no such power does.
pub proof fn lemma_exponent_is_largest(num: u64, base: u64)
    ensures
        spec_get_exp(num, base) <= 4,
        spec_get_exp(num, base) > 0 ==> num > pow(base as int, spec_get_exp(num, base) as nat),
        forall|e: nat| spec_get_exp(num, base) < e <= 4 ==> num <= pow(base as int, e),
{
}

/// The exponent chosen for `num` together with `base` to that power.
pub fn exponent_and_divisor(num: u64, base: u64) -> (r: (u32, u64))
    ensures
        r.0 == spec_get_exp(num, base),
        r.1 == pow(base as int, r.0 as nat),
{
    let n: u128 = num as u128;
    let b: u128 = base as u128;
    proof {
        lemma_small_powers(base as int);
    }
    if n <= b {
        return (0, 1);
    }
    assert(b * b <= 0xFFFF_FFFF_FFFF_FFFF * 0xFFFF_FFFF_FFFF_FFFF) by (nonlinear_arith)
        requires
            b <= 0xFFFF_FFFF_FFFF_FFFF,
    ;
    let b2: u128 = b * b;
    if n <= b2 {
        return (1, base);
    }
    assert(b2 * b <= 0xFFFF_FFFF_FFFF_FFFF * 0xFFFF_FFFF_FFFF_FFFF) by (nonlinear_arith)
        requires
            b2 <= 0xFFFF_FFFF_FFFF_FFFF,
            b <= 0xFFFF_FFFF_FFFF_FFFF,
    ;
    let b3: u128 = b2 * b;
    if n <= b3 {
        return (2, b2 as u64);
    }
    assert(b3 * b <= 0xFFFF_FFFF_FFFF_FFFF * 0xFFFF_FFFF_FFFF_FFFF) by (nonlinear_arith)
        requires
            b3 <= 0xFFFF_FFFF_FFFF_FFFF,
            b <= 0xFFFF_FFFF_FFFF_FFFF,
    ;
    let b4: u128 = b3 * b;
    if n <= b4 {
        return (3, b3 as u64);
    }
    (4, b4 as u64)
}

/// Scales `raw` by `base`.
pub fn scale(raw: u64, base: u64) -> (r: ScaledQuantity)
    ensures
        r == spec_scale(raw, base),
{
    let (exponent, divisor) = exponent_and_divisor(raw, base);
    let mantissa: u64 = if divisor > 0 {
        raw / divisor
    } else {
        0
    };
    ScaledQuantity { exponent, mantissa }
}

/// The powers of 1024 that the units stand for.
pub proof fn lemma_powers_of_1024()
    ensures
        pow(1024, 0) == 1,
        pow(1024, 1) == 0x400,
        pow(1024, 2) == 0x10_0000,
        pow(1024, 3) == 0x4000_0000,
        pow(1024, 4) == 0x100_0000_0000,
{
    reveal_with_fuel(pow, 5);
}

/// A quantity scaled by 1024 has a mantissa of at most 1024 while its unit is
/// below the largest.
pub proof fn lemma_mantissa_at_most_1024(raw: u64)
    ensures
        spec_scale(raw, 1024).exponent < 4 ==> spec_scale(raw, 1024).mantissa <= 1024,
{
    lemma_powers_of_1024();
    let divisor = pow(1024, spec_get_exp(raw, 1024) as nat);
    assert(divisor == 1 || divisor == 0x400 || divisor == 0x10_0000 || divisor == 0x4000_0000
        || divisor == 0x100_0000_0000);
}

/// A quantity that is itself a power of 1024, from the first to the fourth,
/// does not reach the unit of that power: it stays in the unit below, with
/// the mantissa 1024.
pub proof fn lemma_exact_power_stays_below(k: nat)
    requires
        1 <= k <= 4,
    ensures
        0 < pow(1024, k) <= u64::MAX,
        spec_scale(pow(1024, k) as u64, 1024) == (ScaledQuantity {
            exponent: (k - 1) as u32,
            mantissa: 1024,
        }),
{
    lemma_powers_of_1024();
    let divisor = pow(1024, (k - 1) as nat);
    assert(divisor == 1 || divisor == 0x400 || divisor == 0x10_0000 || divisor == 0x4000_0000);
}

/// A quantity scaled by 1024 has a mantissa below 1024 while its unit is
/// below the largest, unless the quantity is itself one of the four powers
/// of 1024 that the larger units stand for: such a quantity stays in the unit
/// below its own, with the mantissa 1024.
pub proof fn lemma_mantissa_below_1024(raw: u64)
    requires
        forall|k: nat| 1 <= k <= 4 ==> raw != pow(1024, k),
    ensures
        spec_scale(raw, 1024).exponent < 4 ==> spec_scale(raw, 1024).mantissa < 1024,
{
    lemma_powers_of_1024();
    let divisor = pow(1024, spec_get_exp(raw, 1024) as nat);
    assert(divisor == 1 || divisor == 0x400 || divisor == 0x10_0000 || divisor == 0x4000_0000
        || divisor == 0x100_0000_0000);
}

} // verus!
