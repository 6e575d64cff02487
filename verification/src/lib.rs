//! A fungible token ledger: account balances and a total supply, mutated only
//! by `transfer`, `mint` and `burn`, which preserve conservation (the supply
//! equals the sum of all balances) and append one event per balance change.

use vstd::prelude::*;

pub mod ledger;
pub mod store;

pub use ledger::Erc20;
pub use ledger::Error;
pub use ledger::Transferred;
pub use store::BalanceStore;

verus! {

/// Opaque identifier of a balance holder; nothing is assumed of it beyond
/// equality and use as a map key.
pub type AccountId = u64;

/// A non-negative token amount, wide enough that the total supply fits.
pub type Balance = u128;

} // verus!
