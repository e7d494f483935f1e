//! Relayer reward accounting: balances accrue per relayer and are paid out
//! whole on claim.

use vstd::prelude::*;
use crate::analytics::{saturate_i128, saturating_add_i128};
use crate::keyed_map::{copy_bytes, KeyedMap};

verus! {

/// `relayer`'s claimable balance, 0 if none was recorded.
pub open spec fn balance_of(balances: Map<Seq<u8>, i128>, relayer: Seq<u8>) -> i128 {
    if balances.contains_key(relayer) {
        balances[relayer]
    } else {
        0
    }
}

/// `start` credited with each of `amounts` in turn, saturating at the
/// `i128` bounds after every step.
pub open spec fn credited(start: i128, amounts: Seq<i128>) -> i128
    decreases amounts.len(),
{
    if amounts.len() == 0 {
        start
    } else {
        saturate_i128(credited(start, amounts.drop_last()) + amounts.last()) as i128
    }
}

/// `after` is `before` with `relayer` credited `amount`, as `add_to_balance`
/// leaves it.
pub open spec fn credit_step(
    before: Map<Seq<u8>, i128>,
    after: Map<Seq<u8>, i128>,
    relayer: Seq<u8>,
    amount: i128,
) -> bool {
    after == before.insert(relayer, saturate_i128(balance_of(before, relayer) + amount) as i128)
}

/// A relayer credited with `amounts` in turn, with no claim in between,
/// holds the saturating running sum of them on top of its first balance
/// (0 for a relayer never credited).
pub proof fn lemma_credits_accumulate(
    balances: Seq<Map<Seq<u8>, i128>>,
    relayer: Seq<u8>,
    amounts: Seq<i128>,
)
    requires
        balances.len() == amounts.len() + 1,
        forall|i: int|
            0 <= i < amounts.len() ==> credit_step(
                #[trigger] balances[i],
                balances[i + 1],
                relayer,
                amounts[i],
            ),
    ensures
        balance_of(balances.last(), relayer) == credited(balance_of(balances[0], relayer), amounts),
    decreases amounts.len(),
{
    if amounts.len() > 0 {
        let n = amounts.len() as int;
        lemma_credits_accumulate(balances.drop_last(), relayer, amounts.drop_last());
        assert(credit_step(balances[n - 1], balances[n], relayer, amounts[n - 1]));
        assert(balances.drop_last().last() == balances[n - 1]);
        assert(balances.drop_last()[0] == balances[0]);
    }
}

/// Claimable reward balances of relayers.
pub struct Rewards {
    pub balances: KeyedMap<i128>,
}

impl Rewards {
    /// No balances yet.
    pub fn new() -> (rewards: Self)
        ensures
            rewards.balances@ == Map::<Seq<u8>, i128>::empty(),
    {
        Rewards { balances: KeyedMap::new() }
    }

    /// Add `amount` to `relayer`'s balance, saturating at the `i128` bounds.
    pub fn add_to_balance(&mut self, relayer: &Vec<u8>, amount: i128)
        ensures
            final(self).balances@ == old(self).balances@.insert(
                relayer@,
                saturate_i128(balance_of(old(self).balances@, relayer@) + amount) as i128,
            ),
    {
        let prev = self.get_balance(relayer);
        let new_bal = saturating_add_i128(prev, amount);
        self.balances.set(copy_bytes(relayer), new_bal);
    }

    /// `relayer`'s claimable balance.
    pub fn get_balance(&self, relayer: &Vec<u8>) -> (balance: i128)
        ensures
            balance == balance_of(self.balances@, relayer@),
    {
        match self.balances.get(relayer) {
            Some(b) => *b,
            None => 0,
        }
    }

    /// Claim `relayer`'s whole balance: it is zeroed before the payout, and
    /// returned for the host to transfer. A zero balance returns 0 and
    /// changes nothing. The host checks `relayer`'s authorization first.
    pub fn claim_rewards(&mut self, relayer: &Vec<u8>) -> (paid: i128)
        ensures
            paid == balance_of(old(self).balances@, relayer@),
            paid == 0 ==> final(self).balances@ == old(self).balances@,
            paid != 0 ==> final(self).balances@ == old(self).balances@.insert(relayer@, 0),
            balance_of(final(self).balances@, relayer@) == 0,
    {
        let balance = self.get_balance(relayer);
        if balance == 0 {
            return 0;
        }
        self.balances.set(copy_bytes(relayer), 0);
        balance
    }
}

} // verus!
