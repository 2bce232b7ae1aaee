use vstd::prelude::*;

verus! {

/// Identity of an account, as supplied by the hosting environment for each
/// call.
pub type AccountId = u64;

/// A token or share quantity.  128 bits leave room for the intermediate
/// products the pricing formulas take before dividing.
pub type Balance = u128;

/// Scale factor applied to the very first share issuance, so that the
/// initial shares have a large, divisible denomination independent of the
/// first provider's raw token amounts.
pub const PRECISION: Balance = 1_000_000;

} // verus!
