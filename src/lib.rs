//! Validation and incentive engine of a compute-provider network: a registry of
//! unique participant ids, a registry of subnets with their roles and drill
//! mechanisms, and a supermajority vote that settles submitted drill tests.
use vstd::prelude::*;

pub mod consensus;
pub mod hashing;
pub mod registration;
pub mod uids;
pub mod weights;

verus! {

/// An account: an opaque identity supplied by callers, ordered and hashable.
pub type AccountId = u64;

/// An amount of the ledger's currency.
pub type Balance = u128;

} // verus!
