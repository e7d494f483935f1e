//! Bond capacity validation for premium asset pool access.
//!
//! A validator's locked stake must meet the minimum bond before it may
//! register profile updates for premium asset corridors.

use vstd::prelude::*;
use crate::contract::TimeLockedUpgradeContract;
use crate::error::{fails_with, ContractError};

verus! {

/// Minimum stake required to update a validator profile for a premium pool.
pub const PREMIUM_POOL_MIN_STAKE: u64 = 1_000;

/// `node`'s locked stake, 0 when unregistered.
pub open spec fn locked_stake(stakes: Map<Seq<u8>, u64>, node: Seq<u8>) -> u64 {
    if stakes.contains_key(node) {
        stakes[node]
    } else {
        0
    }
}

/// The current locked stake of `node`, or 0 if unregistered.
pub fn get_locked_stake(contract: &TimeLockedUpgradeContract, node: &Vec<u8>) -> (stake: u64)
    ensures
        stake == locked_stake(contract.stakes@, node@),
{
    match contract.stakes.get(node) {
        Some(amount) => *amount,
        None => 0,
    }
}

/// `PremiumPoolAccessDenied` unless `node` has locked at least
/// `PREMIUM_POOL_MIN_STAKE`; the pool itself does not change the bar.
pub fn check_bond_capacity(contract: &TimeLockedUpgradeContract, node: &Vec<u8>, _pool: &Vec<u8>) -> (r:
    Result<(), ContractError>)
    ensures
        r is Ok <==> locked_stake(contract.stakes@, node@) >= PREMIUM_POOL_MIN_STAKE,
        r is Err ==> fails_with(r, ContractError::PremiumPoolAccessDenied),
{
    let stake = get_locked_stake(contract, node);
    if stake < PREMIUM_POOL_MIN_STAKE {
        return Err(ContractError::PremiumPoolAccessDenied);
    }
    Ok(())
}

} // verus!
