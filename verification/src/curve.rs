//! The bonding-curve pricing engine.
//!
//! The issued token is priced by the curve `p(s) = s^2`, where `s` is the
//! circulating supply in atomic units of the issued token. The cost of moving
//! the supply across an interval `[low, high]` is the definite integral of
//! `p` over that interval, rescaled into atomic units of the reserve (quote)
//! token and truncated toward zero. The integral has the closed form
//! `(high - low) * (high^2 + high*low + low^2) == high^3 - low^3`, which the
//! engine evaluates in 128-bit arithmetic with an explicit check at every
//! step that could exceed its width.

use vstd::arithmetic::div_mod::{
    lemma_div_is_ordered, lemma_div_of0, lemma_div_pos_is_pos, lemma_fundamental_div_mod,
    lemma_fundamental_div_mod_converse, lemma_mod_bound,
};
use vstd::arithmetic::mul::{lemma_mul_is_commutative, lemma_mul_is_distributive_add};
use vstd::arithmetic::power::{lemma_pow0, lemma_pow_increases, lemma_pow_positive, pow};
use vstd::prelude::*;

use crate::errors::BondError;

verus! {

/// Exponent of the power of ten that converts the curve's cubic term from
/// issued-token atomic units into reserve-token atomic units.
///
/// The result is negative for decimal combinations the engine cannot serve
/// (`3 * bond_decimals + 3 < quote_decimals`); such combinations are a fatal
/// precondition of the engine, not a typed error.
pub open spec fn scale_exponent(bond_decimals: u8, quote_decimals: u8) -> int {
    3 * bond_decimals + 3 - quote_decimals
}

/// The quadratic factor `high^2 + high*low + low^2` of the curve integral.
pub open spec fn curve_mid(low: int, high: int) -> int {
    high * high + high * low + low * low
}

/// The unscaled curve integral over `[low, high]`, equal to
/// `high^3 - low^3` (see `lemma_curve_num_is_cube_difference`).
pub open spec fn curve_num(low: int, high: int) -> int {
    (high - low) * curve_mid(low, high)
}

/// The scale divisor `10^(3 * bond_decimals - quote_decimals + 3)`.
pub open spec fn scale_den(bond_decimals: u8, quote_decimals: u8) -> int
    recommends
        scale_exponent(bond_decimals, quote_decimals) >= 0,
{
    pow(10, scale_exponent(bond_decimals, quote_decimals) as nat)
}

/// The reserve-token amount for the supply interval `[low, high]`: the curve
/// integral, rescaled and truncated (floor division).
pub open spec fn area_under_curve(low: int, high: int, bond_decimals: u8, quote_decimals: u8) -> int
    recommends
        scale_exponent(bond_decimals, quote_decimals) >= 0,
{
    curve_num(low, high) / scale_den(bond_decimals, quote_decimals)
}

/// Whether every step of the engine's evaluation on `[low, high]` fits its
/// integer width: the quadratic factor and the full numerator in 128 bits,
/// the scale divisor in 128 bits, and the final price in 64 bits.
pub open spec fn engine_fits(low: int, high: int, bond_decimals: u8, quote_decimals: u8) -> bool {
    &&& curve_mid(low, high) <= u128::MAX
    &&& curve_num(low, high) <= u128::MAX
    &&& scale_den(bond_decimals, quote_decimals) <= u128::MAX
    &&& area_under_curve(low, high, bond_decimals, quote_decimals) <= u64::MAX
}

/// Computes `10^exponent` in 128 bits, or `None` when it does not fit.
fn pow10_u128(exponent: u32) -> (r: Option<u128>)
    ensures
        match r {
            Some(v) => v == pow(10, exponent as nat) && pow(10, exponent as nat) <= u128::MAX,
            None => pow(10, exponent as nat) > u128::MAX,
        },
{
    let mut acc: u128 = 1;
    let mut i: u32 = 0;
    proof {
        lemma_pow0(10);
    }
    while i < exponent
        invariant
            i <= exponent,
            acc == pow(10, i as nat),
        decreases exponent - i,
    {
        if acc > u128::MAX / 10 {
            proof {
                reveal(pow);
                assert(pow(10, (i + 1) as nat) == 10 * pow(10, i as nat));
                lemma_pow_increases(10, (i + 1) as nat, exponent as nat);
            }
            return None;
        }
        acc = acc * 10;
        i = i + 1;
        proof {
            reveal(pow);
            assert(acc == pow(10, i as nat));
        }
    }
    Some(acc)
}

/// Prices the supply interval `[left_supply, right_supply]`: the definite
/// integral of `p(s) = s^2` over the interval, rescaled to reserve-token
/// atomic units and floored. Returns `ArithmeticOverflow` exactly when some
/// step of the evaluation exceeds its integer width; never wraps silently.
pub fn get_area_under_curve(
    left_supply: u64,
    right_supply: u64,
    bond_decimals: u8,
    quote_decimals: u8,
) -> (r: Result<u64, BondError>)
    requires
        left_supply <= right_supply,
        scale_exponent(bond_decimals, quote_decimals) >= 0,
    ensures
        match r {
            Ok(price) => {
                &&& engine_fits(left_supply as int, right_supply as int, bond_decimals, quote_decimals)
                &&& price == area_under_curve(
                    left_supply as int,
                    right_supply as int,
                    bond_decimals,
                    quote_decimals,
                )
            },
            Err(e) => {
                &&& e == BondError::ArithmeticOverflow
                &&& !engine_fits(left_supply as int, right_supply as int, bond_decimals, quote_decimals)
            },
        },
{
    let low = left_supply as u128;
    let high = right_supply as u128;
    proof {
        assert(high * high <= u128::MAX && high * low <= u128::MAX && low * low <= u128::MAX)
            by (nonlinear_arith)
            requires
                low <= u64::MAX,
                high <= u64::MAX,
        ;
    }
    let high_sq: u128 = high * high;
    let cross: u128 = high * low;
    let low_sq: u128 = low * low;

    let partial: u128 = match low_sq.checked_add(cross) {
        Some(v) => v,
        None => {
            return Err(BondError::ArithmeticOverflow);
        },
    };
    let mid: u128 = match high_sq.checked_add(partial) {
        Some(v) => v,
        None => {
            return Err(BondError::ArithmeticOverflow);
        },
    };

    let diff: u128 = high - low;
    let num: u128 = match diff.checked_mul(mid) {
        Some(v) => v,
        None => {
            return Err(BondError::ArithmeticOverflow);
        },
    };

    let exponent: u32 = 3 * (bond_decimals as u32) + 3 - (quote_decimals as u32);
    let den: u128 = match pow10_u128(exponent) {
        Some(v) => v,
        None => {
            return Err(BondError::ArithmeticOverflow);
        },
    };
    proof {
        lemma_pow_positive(10, exponent as nat);
    }

    let price_wide: u128 = num / den;
    if price_wide > u64::MAX as u128 {
        return Err(BondError::ArithmeticOverflow);
    }
    Ok(price_wide as u64)
}

/// The factored numerator is a difference of cubes:
/// `(high - low) * (high^2 + high*low + low^2) == high^3 - low^3`.
pub proof fn lemma_curve_num_is_cube_difference(low: int, high: int)
    ensures
        curve_num(low, high) == high * high * high - low * low * low,
{
    assert((high - low) * (high * high + high * low + low * low)
        == high * high * high - low * low * low) by (nonlinear_arith);
}

/// Cubing preserves order on the non-negative integers.
pub proof fn lemma_cube_monotone(x: int, y: int)
    requires
        0 <= x <= y,
    ensures
        x * x * x <= y * y * y,
{
    assert(x * x * x <= y * y * y) by (nonlinear_arith)
        requires
            0 <= x <= y,
    ;
}

/// The price of an interval is never negative.
pub proof fn lemma_area_nonneg(low: int, high: int, bond_decimals: u8, quote_decimals: u8)
    requires
        0 <= low <= high,
        scale_exponent(bond_decimals, quote_decimals) >= 0,
    ensures
        0 <= area_under_curve(low, high, bond_decimals, quote_decimals),
{
    lemma_curve_num_is_cube_difference(low, high);
    lemma_cube_monotone(low, high);
    lemma_pow_positive(10, scale_exponent(bond_decimals, quote_decimals) as nat);
    lemma_div_pos_is_pos(curve_num(low, high), scale_den(bond_decimals, quote_decimals));
}

/// Raising the upper end of the interval never lowers the price.
pub proof fn lemma_area_monotone_high(
    low: int,
    high1: int,
    high2: int,
    bond_decimals: u8,
    quote_decimals: u8,
)
    requires
        0 <= low <= high1 <= high2,
        scale_exponent(bond_decimals, quote_decimals) >= 0,
    ensures
        area_under_curve(low, high1, bond_decimals, quote_decimals)
            <= area_under_curve(low, high2, bond_decimals, quote_decimals),
{
    lemma_curve_num_is_cube_difference(low, high1);
    lemma_curve_num_is_cube_difference(low, high2);
    lemma_cube_monotone(high1, high2);
    lemma_pow_positive(10, scale_exponent(bond_decimals, quote_decimals) as nat);
    lemma_div_is_ordered(
        curve_num(low, high1),
        curve_num(low, high2),
        scale_den(bond_decimals, quote_decimals),
    );
}

/// Raising the lower end of the interval never raises the price.
pub proof fn lemma_area_antitone_low(
    low1: int,
    low2: int,
    high: int,
    bond_decimals: u8,
    quote_decimals: u8,
)
    requires
        0 <= low1 <= low2 <= high,
        scale_exponent(bond_decimals, quote_decimals) >= 0,
    ensures
        area_under_curve(low2, high, bond_decimals, quote_decimals)
            <= area_under_curve(low1, high, bond_decimals, quote_decimals),
{
    lemma_curve_num_is_cube_difference(low1, high);
    lemma_curve_num_is_cube_difference(low2, high);
    lemma_cube_monotone(low1, low2);
    lemma_pow_positive(10, scale_exponent(bond_decimals, quote_decimals) as nat);
    lemma_div_is_ordered(
        curve_num(low2, high),
        curve_num(low1, high),
        scale_den(bond_decimals, quote_decimals),
    );
}

/// Floor division distributes over a sum of non-negative terms up to one
/// unit: `x/d + y/d <= (x+y)/d <= x/d + y/d + 1`.
proof fn lemma_div_of_sum_bounds(x: int, y: int, d: int)
    requires
        0 <= x,
        0 <= y,
        0 < d,
    ensures
        x / d + y / d <= (x + y) / d,
        (x + y) / d <= x / d + y / d + 1,
{
    let qx = x / d;
    let rx = x % d;
    let qy = y / d;
    let ry = y % d;
    lemma_fundamental_div_mod(x, d);
    lemma_fundamental_div_mod(y, d);
    lemma_mod_bound(x, d);
    lemma_mod_bound(y, d);
    let q = qx + qy;
    let r = rx + ry;
    assert(d * q == d * qx + d * qy) by {
        lemma_mul_is_distributive_add(d, qx, qy);
    }
    assert(x + y == d * q + r);
    lemma_mul_is_commutative(d, q);
    if r < d {
        lemma_fundamental_div_mod_converse(x + y, d, q, r);
    } else {
        assert(d * (q + 1) == d * q + d * 1) by {
            lemma_mul_is_distributive_add(d, q, 1);
        }
        lemma_mul_is_commutative(d, q + 1);
        lemma_fundamental_div_mod_converse(x + y, d, q + 1, r - d);
    }
}

/// Splitting the interval at `b` reproduces the whole price up to the one
/// extra floor operation: the sum of the two pieces never exceeds the whole,
/// and falls short of it by at most one atomic unit.
pub proof fn lemma_area_additive(a: int, b: int, c: int, bond_decimals: u8, quote_decimals: u8)
    requires
        0 <= a <= b <= c,
        scale_exponent(bond_decimals, quote_decimals) >= 0,
    ensures
        area_under_curve(a, b, bond_decimals, quote_decimals)
            + area_under_curve(b, c, bond_decimals, quote_decimals)
            <= area_under_curve(a, c, bond_decimals, quote_decimals),
        area_under_curve(a, c, bond_decimals, quote_decimals)
            <= area_under_curve(a, b, bond_decimals, quote_decimals)
                + area_under_curve(b, c, bond_decimals, quote_decimals) + 1,
{
    lemma_curve_num_is_cube_difference(a, b);
    lemma_curve_num_is_cube_difference(b, c);
    lemma_curve_num_is_cube_difference(a, c);
    lemma_cube_monotone(a, b);
    lemma_cube_monotone(b, c);
    lemma_pow_positive(10, scale_exponent(bond_decimals, quote_decimals) as nat);
    lemma_div_of_sum_bounds(
        curve_num(a, b),
        curve_num(b, c),
        scale_den(bond_decimals, quote_decimals),
    );
}

/// Minting `amount` and immediately burning it prices the very same supply
/// interval both times, so the refund equals the cost exactly; in particular
/// a round trip is never profitable.
pub proof fn lemma_round_trip_refund_equals_cost(
    supply: u64,
    amount: u64,
    bond_decimals: u8,
    quote_decimals: u8,
)
    requires
        1 <= amount,
        supply + amount <= u64::MAX,
        scale_exponent(bond_decimals, quote_decimals) >= 0,
    ensures
        area_under_curve(
            supply + amount - amount,
            supply + amount,
            bond_decimals,
            quote_decimals,
        ) == area_under_curve(supply as int, supply + amount, bond_decimals, quote_decimals),
{
}

/// An empty supply interval prices to zero.
pub proof fn lemma_area_empty_interval(supply: int, bond_decimals: u8, quote_decimals: u8)
    requires
        0 <= supply,
        scale_exponent(bond_decimals, quote_decimals) >= 0,
    ensures
        area_under_curve(supply, supply, bond_decimals, quote_decimals) == 0,
{
    lemma_curve_num_is_cube_difference(supply, supply);
    lemma_pow_positive(10, scale_exponent(bond_decimals, quote_decimals) as nat);
    lemma_div_of0(scale_den(bond_decimals, quote_decimals));
}

} // verus!
