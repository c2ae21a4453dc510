//! The issuance ledger: the per-curve record and the mint/burn bookkeeping.
//!
//! A `Bond` describes one bonding-curve token: who created it, which assets
//! are issued and held in reserve, their decimal scales, and the derived
//! addresses. A `BondState` is the pair of mutable quantities the curve
//! governs — circulating supply of the issued token and the reserve balance
//! backing it. `mint_bond` and `burn_bond` move both together: supply and
//! reserve change in one step or not at all, and the amount moved is exactly
//! the curve price of the supply interval crossed.

use vstd::prelude::*;
use vstd::string::StrSliceExecFns;

use crate::curve::{area_under_curve, engine_fits, get_area_under_curve, scale_exponent};
use crate::errors::BondError;

verus! {

/// A 32-byte account or asset identifier.
pub type Pubkey = [u8; 32];

/// The persistent record of one bonding-curve token.
#[derive(Clone, Debug)]
pub struct Bond {
    /// Identity that created the curve; immutable after creation.
    pub owner: Pubkey,
    /// Identifier of the issued (bond) token.
    pub bond_mint: Pubkey,
    /// Atomic-unit scale of the issued token.
    pub bond_mint_decimals: u8,
    /// Identifier of the reserve (quote) token.
    pub quote_mint: Pubkey,
    /// Atomic-unit scale of the reserve token.
    pub quote_mint_decimals: u8,
    /// Identifier of the account holding the reserve funds.
    pub vault: Pubkey,
    /// Nonce making the record's derived addresses reproducible.
    pub bump: u8,
    /// Display name, at most 10 characters.
    pub name: String,
    /// Display symbol, at most 4 characters.
    pub symbol: String,
}

impl Bond {
    /// Bytes a stored record occupies, discriminator included.
    pub const LEN: usize = 8 + 32 + (32 + 1) + (32 + 1) + 32 + 1 + (4 + (4 * 10)) + (4 + (4 * 4));

    /// Well-formedness of the display metadata, established at creation.
    pub open spec fn wf(&self) -> bool {
        &&& self.name@.len() <= 10
        &&& self.symbol@.len() <= 4
    }
}

/// The mutable quantities of one curve: circulating supply of the issued
/// token and the reserve balance backing it, both in atomic units.
#[derive(Clone, Copy, Debug, PartialEq, Eq, Structural)]
pub struct BondState {
    pub supply: u64,
    pub reserve: u64,
}

/// The state a curve starts in: nothing issued, nothing in reserve. The
/// reserve trivially equals the curve integral over the empty interval.
pub fn initial_state() -> (st: BondState)
    ensures
        st.supply == 0,
        st.reserve == 0,
{
    BondState { supply: 0, reserve: 0 }
}

/// Creates the record for a new curve. Validates the display metadata —
/// a name over 10 characters or a symbol over 4 is rejected — and stores
/// the identifiers, decimals and derivation nonce unchanged.
pub fn init_bond(
    owner: Pubkey,
    bond_mint: Pubkey,
    quote_mint: Pubkey,
    bond_mint_decimals: u8,
    quote_mint_decimals: u8,
    vault: Pubkey,
    bump: u8,
    name: String,
    symbol: String,
) -> (r: Result<Bond, BondError>)
    ensures
        match r {
            Ok(bond) => {
                &&& name@.len() <= 10
                &&& symbol@.len() <= 4
                &&& bond.owner == owner
                &&& bond.bond_mint == bond_mint
                &&& bond.quote_mint == quote_mint
                &&& bond.bond_mint_decimals == bond_mint_decimals
                &&& bond.quote_mint_decimals == quote_mint_decimals
                &&& bond.vault == vault
                &&& bond.bump == bump
                &&& bond.name == name
                &&& bond.symbol == symbol
                &&& bond.wf()
            },
            Err(e) => {
                ||| (e == BondError::NameTooLong && name@.len() > 10)
                ||| (e == BondError::SymbolTooLong && name@.len() <= 10 && symbol@.len() > 4)
            },
        },
{
    if name.unicode_len() > 10 {
        return Err(BondError::NameTooLong);
    }
    if symbol.unicode_len() > 4 {
        return Err(BondError::SymbolTooLong);
    }
    Ok(
        Bond {
            owner,
            bond_mint,
            bond_mint_decimals,
            quote_mint,
            quote_mint_decimals,
            vault,
            bump,
            name,
            symbol,
        },
    )
}

/// Mints `amount` issued-token atomic units against the curve: charges the
/// curve price of `[supply, supply + amount]` into the reserve and raises
/// the supply, both in one step. On any failure the state is untouched and
/// the error is `ArithmeticOverflow` — growing the supply past 64 bits,
/// exceeding the engine's intermediate widths, or overflowing the reserve.
pub fn mint_bond(bond: &Bond, state: &mut BondState, amount: u64) -> (r: Result<u64, BondError>)
    requires
        1 <= amount,
        scale_exponent(bond.bond_mint_decimals, bond.quote_mint_decimals) >= 0,
    ensures
        match r {
            Ok(cost) => {
                &&& old(state).supply + amount <= u64::MAX
                &&& engine_fits(
                    old(state).supply as int,
                    old(state).supply + amount,
                    bond.bond_mint_decimals,
                    bond.quote_mint_decimals,
                )
                &&& cost == area_under_curve(
                    old(state).supply as int,
                    old(state).supply + amount,
                    bond.bond_mint_decimals,
                    bond.quote_mint_decimals,
                )
                &&& old(state).reserve + cost <= u64::MAX
                &&& final(state).supply == old(state).supply + amount
                &&& final(state).reserve == old(state).reserve + cost
            },
            Err(e) => {
                &&& e == BondError::ArithmeticOverflow
                &&& *final(state) == *old(state)
                &&& {
                    ||| old(state).supply + amount > u64::MAX
                    ||| !engine_fits(
                        old(state).supply as int,
                        old(state).supply + amount,
                        bond.bond_mint_decimals,
                        bond.quote_mint_decimals,
                    )
                    ||| old(state).reserve + area_under_curve(
                        old(state).supply as int,
                        old(state).supply + amount,
                        bond.bond_mint_decimals,
                        bond.quote_mint_decimals,
                    ) > u64::MAX
                }
            },
        },
{
    let new_supply: u64 = match state.supply.checked_add(amount) {
        Some(v) => v,
        None => {
            return Err(BondError::ArithmeticOverflow);
        },
    };
    let cost: u64 = match get_area_under_curve(
        state.supply,
        new_supply,
        bond.bond_mint_decimals,
        bond.quote_mint_decimals,
    ) {
        Ok(v) => v,
        Err(e) => {
            return Err(e);
        },
    };
    let new_reserve: u64 = match state.reserve.checked_add(cost) {
        Some(v) => v,
        None => {
            return Err(BondError::ArithmeticOverflow);
        },
    };
    state.supply = new_supply;
    state.reserve = new_reserve;
    Ok(cost)
}

/// Burns `amount` issued-token atomic units: lowers the supply and refunds
/// the curve price of `[supply - amount, supply]` out of the reserve, both
/// in one step. Burning more than the circulating supply is rejected with
/// `InsufficientSupply`; an evaluation step exceeding its width, or a refund
/// the reserve cannot cover, is rejected with `ArithmeticOverflow`. On any
/// failure the state is untouched.
pub fn burn_bond(bond: &Bond, state: &mut BondState, amount: u64) -> (r: Result<u64, BondError>)
    requires
        1 <= amount,
        scale_exponent(bond.bond_mint_decimals, bond.quote_mint_decimals) >= 0,
    ensures
        match r {
            Ok(refund) => {
                &&& amount <= old(state).supply
                &&& engine_fits(
                    old(state).supply - amount,
                    old(state).supply as int,
                    bond.bond_mint_decimals,
                    bond.quote_mint_decimals,
                )
                &&& refund == area_under_curve(
                    old(state).supply - amount,
                    old(state).supply as int,
                    bond.bond_mint_decimals,
                    bond.quote_mint_decimals,
                )
                &&& refund <= old(state).reserve
                &&& final(state).supply == old(state).supply - amount
                &&& final(state).reserve == old(state).reserve - refund
            },
            Err(e) => {
                &&& *final(state) == *old(state)
                &&& if amount > old(state).supply {
                    e == BondError::InsufficientSupply
                } else {
                    &&& e == BondError::ArithmeticOverflow
                    &&& {
                        ||| !engine_fits(
                            old(state).supply - amount,
                            old(state).supply as int,
                            bond.bond_mint_decimals,
                            bond.quote_mint_decimals,
                        )
                        ||| area_under_curve(
                            old(state).supply - amount,
                            old(state).supply as int,
                            bond.bond_mint_decimals,
                            bond.quote_mint_decimals,
                        ) > old(state).reserve
                    }
                }
            },
        },
{
    if amount > state.supply {
        return Err(BondError::InsufficientSupply);
    }
    let new_supply: u64 = state.supply - amount;
    let refund: u64 = match get_area_under_curve(
        new_supply,
        state.supply,
        bond.bond_mint_decimals,
        bond.quote_mint_decimals,
    ) {
        Ok(v) => v,
        Err(e) => {
            return Err(e);
        },
    };
    let new_reserve: u64 = match state.reserve.checked_sub(refund) {
        Some(v) => v,
        None => {
            return Err(BondError::ArithmeticOverflow);
        },
    };
    state.supply = new_supply;
    state.reserve = new_reserve;
    Ok(refund)
}

} // verus!
