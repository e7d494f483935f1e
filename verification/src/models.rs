//! Per-relayer ledger tracking: a relayer may act again only after a
//! minimum number of ledgers.

use vstd::prelude::*;
use crate::error::{fails_with, ContractError};
use crate::keyed_map::{copy_bytes, KeyedMap};

verus! {

/// Ledgers that must close between two tracked actions of one relayer.
pub const MIN_LEDGER_GAP: u32 = 3;

/// The last ledger recorded for `relayer`, 0 if none.
pub open spec fn last_ledger(tracking: Map<Seq<u8>, u32>, relayer: Seq<u8>) -> u32 {
    if tracking.contains_key(relayer) {
        tracking[relayer]
    } else {
        0
    }
}

/// Enough ledgers have closed since `relayer`'s last recorded one.
pub open spec fn ledger_gap_ok(tracking: Map<Seq<u8>, u32>, relayer: Seq<u8>, current_ledger: u32) -> bool {
    current_ledger >= last_ledger(tracking, relayer) && current_ledger - last_ledger(tracking, relayer)
        >= MIN_LEDGER_GAP
}

/// The last ledger recorded for `relayer`, 0 if none.
pub fn get_last_ledger_for_relayer(tracking: &KeyedMap<u32>, relayer: &Vec<u8>) -> (ledger: u32)
    ensures
        ledger == last_ledger(tracking@, relayer@),
{
    match tracking.get(relayer) {
        Some(l) => *l,
        None => 0,
    }
}

/// `LedgerGapNotSatisfied` unless at least `MIN_LEDGER_GAP` ledgers separate
/// `current_ledger` from `relayer`'s last recorded one.
pub fn verify_ledger_gap(tracking: &KeyedMap<u32>, relayer: &Vec<u8>, current_ledger: u32) -> (r: Result<
    (),
    ContractError,
>)
    ensures
        r is Ok <==> ledger_gap_ok(tracking@, relayer@, current_ledger),
        r is Err ==> fails_with(r, ContractError::LedgerGapNotSatisfied),
{
    let last_ledger = get_last_ledger_for_relayer(tracking, relayer);
    let gap = if current_ledger >= last_ledger {
        current_ledger - last_ledger
    } else {
        0
    };
    if gap < MIN_LEDGER_GAP {
        return Err(ContractError::LedgerGapNotSatisfied);
    }
    Ok(())
}

/// Record `ledger` as `relayer`'s last tracked ledger.
pub fn record_relayer_ledger(tracking: &mut KeyedMap<u32>, relayer: &Vec<u8>, ledger: u32)
    ensures
        final(tracking)@ == old(tracking)@.insert(relayer@, ledger),
{
    tracking.set(copy_bytes(relayer), ledger);
}

/// Record the current ledger as `relayer`'s last tracked ledger.
pub fn record_ledger_gap(tracking: &mut KeyedMap<u32>, relayer: &Vec<u8>, current_ledger: u32)
    ensures
        final(tracking)@ == old(tracking)@.insert(relayer@, current_ledger),
{
    record_relayer_ledger(tracking, relayer, current_ledger);
}

/// Once a relayer's action is recorded at ledger `l`, the gap check refuses it
/// through ledger `l + 2` and accepts it from ledger `l + 3` on.
pub proof fn lemma_recorded_ledger_spaces_actions(
    tracking: Map<Seq<u8>, u32>,
    relayer: Seq<u8>,
    recorded: u32,
    current_ledger: u32,
)
    ensures
        ledger_gap_ok(tracking.insert(relayer, recorded), relayer, current_ledger) <==> current_ledger
            >= recorded + MIN_LEDGER_GAP,
{
}

} // verus!
