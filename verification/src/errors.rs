use vstd::prelude::*;

verus! {

/// The ways an operation on a bonding curve can fail.
///
/// `NameTooLong` and `SymbolTooLong` arise when creating a curve record with
/// display metadata over the allowed lengths. `ArithmeticOverflow` arises when
/// an intermediate or final value of the pricing computation, or a supply or
/// reserve update, would exceed its integer width. `InsufficientSupply` arises
/// when a burn asks for more units than are in circulation.
#[derive(Clone, Copy, Debug, PartialEq, Eq, Structural)]
pub enum BondError {
    NameTooLong,
    SymbolTooLong,
    ArithmeticOverflow,
    InsufficientSupply,
}

} // verus!
