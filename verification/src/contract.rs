//! The time-locked upgrade contract: admin data, staking registry, signer set,
//! admin revocation by vote, asset heartbeats, node profiles and corridor fee
//! pools. Each entry point is a transition of the contract state; the host
//! stores the state, supplies the ledger time and checks the authorization of
//! the address that the entry point names.

use vstd::prelude::*;
use soroban_sdk::Env;
use crate::error::{fails_with, ContractError};
use crate::keyed_map::{bytes_eq, copy_bytes, KeyedMap};
use crate::nonce::{
    consume_nonce, expected_salt_signature, get_nonce, nonce_step_overflows, nonce_step_would_overflow,
    stored_nonce, NonceState,
};

verus! {

/// Seconds that must pass between proposing and executing an upgrade (48 h).
pub const UPGRADE_DELAY_SECONDS: u64 = 48 * 60 * 60;

/// Heartbeat interval used while none has been configured (5 min).
pub const DEFAULT_HEARTBEAT_INTERVAL: u64 = 5 * 60;

/// Admin address and the admin-set value.
#[derive(Clone, Debug, PartialEq, Eq)]
pub struct ContractData {
    pub admin: Vec<u8>,
    pub value: u64,
}

/// An upgrade that waits for its time lock.
#[derive(Clone, Debug, PartialEq, Eq)]
pub struct PendingUpgrade {
    pub new_wasm_hash: Vec<u8>,
    pub proposed_at: u64,
    pub proposer: Vec<u8>,
}

/// Receipt of a stake registration.
#[derive(Clone, Debug, PartialEq, Eq)]
pub struct StakeRecord {
    pub node: Vec<u8>,
    pub amount: u64,
    pub registered_at: u64,
}

/// The latest rate a node reported, with its confidence.
#[derive(Clone, Debug, PartialEq, Eq)]
pub struct NodeProfile {
    pub node: Vec<u8>,
    pub rate: u64,
    pub confidence: u32,
    pub updated_at: u64,
}

/// Fees collected for one asset corridor.
#[derive(Clone, Debug, PartialEq, Eq)]
pub struct CorridorFeePool {
    pub asset: Vec<u8>,
    pub collected: u64,
    pub variable_pool: u64,
}

/// A proposal to replace the admin, with the addresses that voted for it.
pub struct RevocationProposal {
    pub target: Vec<u8>,
    pub replacement: Vec<u8>,
    pub proposer: Vec<u8>,
    pub proposed_at: u64,
    pub votes: KeyedMap<()>,
}

/// The contract's stored state. Addresses and asset symbols are byte strings.
pub struct TimeLockedUpgradeContract {
    pub data: Option<ContractData>,
    pub pending_upgrade: Option<PendingUpgrade>,
    pub stakes: KeyedMap<u64>,
    pub total_staked: u64,
    pub heartbeats: KeyedMap<u64>,
    pub heartbeat_interval: Option<u64>,
    pub signers: KeyedMap<()>,
    pub revocation: Option<RevocationProposal>,
    pub node_profiles: KeyedMap<NodeProfile>,
    pub platform_capital: Option<u64>,
    pub corridor_fees: KeyedMap<CorridorFeePool>,
    pub nonces: KeyedMap<NonceState>,
}

/// `a - b`, or 0 when `b > a`.
pub open spec fn saturating_diff(a: u64, b: u64) -> u64 {
    if a >= b {
        (a - b) as u64
    } else {
        0
    }
}

/// Heartbeat key recorded by a stake registration.
pub open spec fn stake_tag() -> Seq<u8> {
    seq![83u8, 84u8, 65u8, 75u8, 69u8]
}

/// Heartbeat key recorded by a value update.
pub open spec fn value_tag() -> Seq<u8> {
    seq![86u8, 65u8, 76u8, 85u8, 69u8]
}

/// The pending upgrade's time lock has run out at `now`.
pub open spec fn timelock_elapsed(pending: PendingUpgrade, now: u64) -> bool {
    saturating_diff(now, pending.proposed_at) >= UPGRADE_DELAY_SECONDS
}

/// Seconds the pending upgrade still waits at `now`.
pub open spec fn timelock_remaining(pending: PendingUpgrade, now: u64) -> u64 {
    saturating_diff(UPGRADE_DELAY_SECONDS, saturating_diff(now, pending.proposed_at))
}

/// Fees collected so far in `asset`'s corridor pool.
pub open spec fn pool_collected(pools: Map<Seq<u8>, CorridorFeePool>, asset: Seq<u8>) -> u64 {
    if pools.contains_key(asset) {
        pools[asset].collected
    } else {
        0
    }
}

/// The variable fees so far in `asset`'s corridor pool.
pub open spec fn pool_variable(pools: Map<Seq<u8>, CorridorFeePool>, asset: Seq<u8>) -> u64 {
    if pools.contains_key(asset) {
        pools[asset].variable_pool
    } else {
        0
    }
}

/// The upgrade time lock has no time left exactly when it has run out.
pub proof fn lemma_timelock_remaining_zero_iff_elapsed(pending: PendingUpgrade, now: u64)
    ensures
        timelock_remaining(pending, now) == 0 <==> timelock_elapsed(pending, now),
{
}

/// The admin is replaced by a strict majority of the signers and by no
/// fewer votes: a vote count reaches the revocation threshold exactly when
/// it is more than half the signers. With an even number of signers, half of
/// them never suffice.
pub proof fn lemma_revocation_needs_strict_majority(contract: TimeLockedUpgradeContract, votes: nat)
    ensures
        votes >= contract.revocation_threshold() <==> 2 * votes > contract.signers@.len(),
{
}

/// A node's latest report decides its latest rate: after reporting `rate`
/// with non-zero confidence the node's rate is `rate`, and after a report
/// with zero confidence it has no usable rate.
pub proof fn lemma_reported_rate_is_latest(
    profiles: Map<Seq<u8>, NodeProfile>,
    node: Vec<u8>,
    rate: u64,
    confidence: u32,
    now: u64,
)
    ensures
        ({
            let after = profiles.insert(
                node@,
                NodeProfile { node, rate, confidence, updated_at: now },
            );
            &&& after.contains_key(node@)
            &&& confidence != 0 ==> profile_rate(after[node@]) == Some(rate)
            &&& confidence == 0 ==> profile_rate(after[node@]) is None
        }),
{
}

/// The stake amount as an integer, for summing.
pub open spec fn stake_amount(amount: u64) -> int {
    amount as int
}

/// A profile's rate is usable only with non-zero confidence.
pub open spec fn profile_rate(profile: NodeProfile) -> Option<u64> {
    if profile.confidence == 0 {
        None
    } else {
        Some(profile.rate)
    }
}

fn stake_tag_bytes() -> (tag: Vec<u8>)
    ensures
        tag@ == stake_tag(),
{
    let tag: Vec<u8> = vec![83u8, 84u8, 65u8, 75u8, 69u8];
    assert(tag@ =~= stake_tag());
    tag
}

fn value_tag_bytes() -> (tag: Vec<u8>)
    ensures
        tag@ == value_tag(),
{
    let tag: Vec<u8> = vec![86u8, 65u8, 76u8, 85u8, 69u8];
    assert(tag@ =~= value_tag());
    tag
}

impl TimeLockedUpgradeContract {
    /// The error an admin-only entry point returns for `caller`, if any.
    pub open spec fn admin_error(&self, caller: Seq<u8>) -> Option<ContractError> {
        match self.data {
            None => Some(ContractError::NotInitialized),
            Some(d) => if d.admin@ == caller {
                None
            } else {
                Some(ContractError::NotAdmin)
            },
        }
    }

    /// The configured heartbeat interval, or the default.
    pub open spec fn interval(&self) -> u64 {
        match self.heartbeat_interval {
            Some(i) => i,
            None => DEFAULT_HEARTBEAT_INTERVAL,
        }
    }

    /// `asset` has a heartbeat no older than the interval at `now`.
    pub open spec fn data_fresh(&self, asset: Seq<u8>, now: u64) -> bool {
        self.heartbeats@.contains_key(asset) && saturating_diff(now, self.heartbeats@[asset])
            <= self.interval()
    }

    /// Sum of all registered stakes.
    pub open spec fn stake_total(&self) -> int {
        self.stakes.total(|amount: u64| stake_amount(amount))
    }

    /// The recorded total equals the sum of the registered stakes.
    pub open spec fn stake_books_balanced(&self) -> bool {
        self.total_staked as int == self.stake_total()
    }

    /// Votes needed to replace the admin: a strict majority of the signers.
    pub open spec fn revocation_threshold(&self) -> int {
        (self.signers@.len() / 2 + 1) as int
    }

    /// A freshly deployed contract: nothing stored.
    pub fn new() -> (contract: Self)
        ensures
            contract.data is None,
            contract.pending_upgrade is None,
            contract.stakes@ == Map::<Seq<u8>, u64>::empty(),
            contract.total_staked == 0,
            contract.heartbeats@ == Map::<Seq<u8>, u64>::empty(),
            contract.heartbeat_interval is None,
            contract.signers@ == Map::<Seq<u8>, ()>::empty(),
            contract.revocation is None,
            contract.node_profiles@ == Map::<Seq<u8>, NodeProfile>::empty(),
            contract.platform_capital is None,
            contract.corridor_fees@ == Map::<Seq<u8>, CorridorFeePool>::empty(),
            contract.nonces@ == Map::<Seq<u8>, NonceState>::empty(),
            contract.stake_books_balanced(),
    {
        TimeLockedUpgradeContract {
            data: None,
            pending_upgrade: None,
            stakes: KeyedMap::new(),
            total_staked: 0,
            heartbeats: KeyedMap::new(),
            heartbeat_interval: None,
            signers: KeyedMap::new(),
            revocation: None,
            node_profiles: KeyedMap::new(),
            platform_capital: None,
            corridor_fees: KeyedMap::new(),
            nonces: KeyedMap::new(),
        }
    }

    fn check_admin(&self, caller: &Vec<u8>) -> (r: Result<(), ContractError>)
        ensures
            r is Ok <==> self.admin_error(caller@) is None,
            r matches Err(e) ==> self.admin_error(caller@) == Some(e),
    {
        match &self.data {
            None => Err(ContractError::NotInitialized),
            Some(d) => if bytes_eq(&d.admin, caller) {
                Ok(())
            } else {
                Err(ContractError::NotAdmin)
            },
        }
    }

    fn record_heartbeat(&mut self, asset: Vec<u8>, now: u64)
        ensures
            final(self).heartbeats@ == old(self).heartbeats@.insert(asset@, now),
            *final(self) == (TimeLockedUpgradeContract {
                heartbeats: final(self).heartbeats,
                ..*old(self)
            }),
    {
        self.heartbeats.set(asset, now);
    }

    /// Store `admin` as the admin, once. Fails with `AlreadyInitialized` if
    /// admin data exists. The host checks `admin`'s authorization.
    pub fn initialize(&mut self, admin: Vec<u8>) -> (r: Result<(), ContractError>)
        ensures
            old(self).data is Some ==> fails_with(r, ContractError::AlreadyInitialized)
                && *final(self) == *old(self),
            old(self).data is None ==> r is Ok && *final(self) == (TimeLockedUpgradeContract {
                data: Some(ContractData { admin, value: 0 }),
                ..*old(self)
            }),
    {
        if self.data.is_some() {
            return Err(ContractError::AlreadyInitialized);
        }
        self.data = Some(ContractData { admin, value: 0 });
        Ok(())
    }

    /// Register `node` with a stake of `amount`, adding it to the total and
    /// recording a `STAKE` heartbeat at `now`. The host checks `node`'s
    /// authorization.
    pub fn stake_and_register(&mut self, node: Vec<u8>, amount: u64, now: u64) -> (r: Result<
        StakeRecord,
        ContractError,
    >)
        ensures
            r is Ok <==> amount != 0 && !old(self).stakes@.contains_key(node@)
                && old(self).total_staked + amount <= u64::MAX,
            amount == 0 ==> fails_with(r, ContractError::InvalidStakeAmount),
            amount != 0 && old(self).stakes@.contains_key(node@) ==> fails_with(
                r,
                ContractError::AlreadyRegistered,
            ),
            amount != 0 && !old(self).stakes@.contains_key(node@) && old(self).total_staked
                + amount > u64::MAX ==> fails_with(r, ContractError::Overflow),
            r is Err ==> *final(self) == *old(self),
            r matches Ok(record) ==> record.node@ == node@ && record.amount == amount
                && record.registered_at == now,
            r is Ok ==> final(self).stakes@ == old(self).stakes@.insert(node@, amount)
                && final(self).total_staked == old(self).total_staked + amount
                && final(self).heartbeats@ == old(self).heartbeats@.insert(stake_tag(), now)
                && *final(self) == (TimeLockedUpgradeContract {
                stakes: final(self).stakes,
                total_staked: final(self).total_staked,
                heartbeats: final(self).heartbeats,
                ..*old(self)
            }),
            old(self).stake_books_balanced() ==> final(self).stake_books_balanced(),
    {
        if amount == 0 {
            return Err(ContractError::InvalidStakeAmount);
        }
        if self.stakes.contains_key(&node) {
            return Err(ContractError::AlreadyRegistered);
        }
        let new_total = match self.total_staked.checked_add(amount) {
            Some(t) => t,
            None => {
                return Err(ContractError::Overflow);
            },
        };
        self.stakes.set(copy_bytes(&node), amount);
        self.total_staked = new_total;
        self.record_heartbeat(stake_tag_bytes(), now);
        Ok(StakeRecord { node, amount, registered_at: now })
    }

    /// Withdraw `node`'s stake and return its amount; the total drops by it,
    /// saturating at 0. The host checks `node`'s authorization.
    pub fn unstake(&mut self, node: &Vec<u8>) -> (r: Result<u64, ContractError>)
        ensures
            r is Ok <==> old(self).stakes@.contains_key(node@),
            !old(self).stakes@.contains_key(node@) ==> fails_with(r, ContractError::NotRegistered)
                && *final(self) == *old(self),
            r matches Ok(amount) ==> amount == old(self).stakes@[node@]
                && final(self).stakes@ == old(self).stakes@.remove(node@)
                && final(self).total_staked == saturating_diff(old(self).total_staked, amount)
                && *final(self) == (TimeLockedUpgradeContract {
                stakes: final(self).stakes,
                total_staked: final(self).total_staked,
                ..*old(self)
            }),
            old(self).stake_books_balanced() ==> final(self).stake_books_balanced(),
    {
        let amount = match self.stakes.get(node) {
            Some(a) => *a,
            None => {
                return Err(ContractError::NotRegistered);
            },
        };
        proof {
            let f = |amount: u64| stake_amount(amount);
            assert(forall|x: u64| #[trigger] f(x) >= 0);
            assert(self.stakes.total(f) >= f(amount));
        }
        let new_total = if self.total_staked >= amount {
            self.total_staked - amount
        } else {
            0
        };
        self.stakes.remove(node);
        self.total_staked = new_total;
        Ok(amount)
    }

    fn assert_contract_is_active(&self) -> (r: Result<(), ContractError>)
        ensures
            r is Ok <==> self.data is Some,
            r is Err ==> fails_with(r, ContractError::NotInitialized),
    {
        if self.data.is_some() {
            Ok(())
        } else {
            Err(ContractError::NotInitialized)
        }
    }

    fn is_signer(&self, addr: &Vec<u8>) -> (signer: bool)
        ensures
            signer == self.signers@.contains_key(addr@),
    {
        self.signers.contains_key(addr)
    }

    fn get_interval(&self) -> (interval: u64)
        ensures
            interval == self.interval(),
    {
        match self.heartbeat_interval {
            Some(i) => i,
            None => DEFAULT_HEARTBEAT_INTERVAL,
        }
    }

    fn scan_profile_for_rate(profile: &NodeProfile) -> (rate: Option<u64>)
        ensures
            rate == profile_rate(*profile),
    {
        if profile.confidence == 0 {
            None
        } else {
            Some(profile.rate)
        }
    }

    /// The admin data; `NotInitialized` before `initialize`.
    pub fn get_data(&self) -> (r: Result<&ContractData, ContractError>)
        ensures
            r is Ok <==> self.data is Some,
            r matches Ok(d) ==> self.data == Some(*d),
            r is Err ==> fails_with(r, ContractError::NotInitialized),
    {
        match &self.data {
            Some(d) => Ok(d),
            None => Err(ContractError::NotInitialized),
        }
    }

    /// Drop `signer` from the signer set. Only the admin may; the host checks
    /// `caller`'s authorization.
    pub fn remove_signer(&mut self, signer: &Vec<u8>, caller: &Vec<u8>) -> (r: Result<
        (),
        ContractError,
    >)
        ensures
            r is Ok <==> old(self).admin_error(caller@) is None,
            old(self).admin_error(caller@) matches Some(e) ==> fails_with(r, e) && *final(self)
                == *old(self),
            r is Ok ==> final(self).signers@ == old(self).signers@.remove(signer@) && *final(self)
                == (TimeLockedUpgradeContract { signers: final(self).signers, ..*old(self) }),
    {
        match self.assert_contract_is_active() {
            Ok(()) => {},
            Err(e) => {
                return Err(e);
            },
        }
        match self.check_admin(caller) {
            Ok(()) => {},
            Err(e) => {
                return Err(e);
            },
        }
        self.signers.remove(signer);
        Ok(())
    }

    /// Add `signer` to the signer set. Only the admin may; the host checks
    /// `caller`'s authorization.
    pub fn register_signer(&mut self, signer: Vec<u8>, caller: &Vec<u8>) -> (r: Result<
        (),
        ContractError,
    >)
        ensures
            r is Ok <==> old(self).admin_error(caller@) is None,
            old(self).admin_error(caller@) matches Some(e) ==> fails_with(r, e) && *final(self)
                == *old(self),
            r is Ok ==> final(self).signers@ == old(self).signers@.insert(signer@, ()) && *final(self) == (TimeLockedUpgradeContract { signers: final(self).signers, ..*old(self) }),
    {
        match self.check_admin(caller) {
            Ok(()) => {},
            Err(e) => {
                return Err(e);
            },
        }
        if !self.signers.contains_key(&signer) {
            self.signers.set(signer, ());
        } else {
            proof {
                assert(self.signers@.insert(signer@, ()) =~= self.signers@);
            }
        }
        Ok(())
    }

    /// `voter` may vote on an admin revocation: a signer or the admin.
    pub open spec fn may_vote(&self, voter: Seq<u8>) -> bool {
        self.signers@.contains_key(voter) || (self.data is Some && self.data->Some_0.admin@
            == voter)
    }

    /// Vote for the open admin revocation. Once the votes reach a strict
    /// majority of the signers, the proposal's replacement becomes the admin
    /// and the proposal closes. The host checks `voter`'s authorization.
    pub fn vote_revocation(&mut self, voter: Vec<u8>, sig_expires_at: u64, now: u64) -> (r: Result<
        (),
        ContractError,
    >)
        ensures
            r is Ok <==> now <= sig_expires_at && old(self).data is Some && old(self).may_vote(
                voter@,
            ) && old(self).revocation is Some
                && !old(self).revocation->Some_0.votes@.contains_key(voter@),
            now > sig_expires_at ==> fails_with(r, ContractError::SignatureExpired),
            now <= sig_expires_at && old(self).data is None ==> fails_with(
                r,
                ContractError::NotInitialized,
            ),
            now <= sig_expires_at && old(self).data is Some && !old(self).may_vote(voter@)
                ==> fails_with(r, ContractError::Unauthorized),
            now <= sig_expires_at && old(self).data is Some && old(self).may_vote(voter@) && old(self).revocation is None ==> fails_with(r, ContractError::NoActiveProposal),
            now <= sig_expires_at && old(self).data is Some && old(self).may_vote(voter@) && old(self).revocation is Some && old(self).revocation->Some_0.votes@.contains_key(voter@)
                ==> fails_with(r, ContractError::AlreadyVoted),
            r is Err ==> *final(self) == *old(self),
            r is Ok ==> *final(self) == (TimeLockedUpgradeContract {
                data: final(self).data,
                revocation: final(self).revocation,
                ..*old(self)
            }),
            r is Ok && old(self).revocation->Some_0.votes@.insert(voter@, ()).len() >= old(self).revocation_threshold() ==> final(self).data == Some(
                ContractData {
                    admin: old(self).revocation->Some_0.replacement,
                    value: old(self).data->Some_0.value,
                },
            ) && final(self).revocation is None,
            r is Ok && old(self).revocation->Some_0.votes@.insert(voter@, ()).len() < old(self).revocation_threshold() ==> final(self).data == old(self).data
                && final(self).revocation is Some
                && final(self).revocation->Some_0.votes@ == old(self).revocation->Some_0.votes@.insert(voter@, ())
                && final(self).revocation->Some_0.target == old(self).revocation->Some_0.target
                && final(self).revocation->Some_0.replacement == old(self).revocation->Some_0.replacement
                && final(self).revocation->Some_0.proposer == old(self).revocation->Some_0.proposer
                && final(self).revocation->Some_0.proposed_at == old(self).revocation->Some_0.proposed_at,
    {
        if now > sig_expires_at {
            return Err(ContractError::SignatureExpired);
        }
        let (is_admin, current_value) = match &self.data {
            None => {
                return Err(ContractError::NotInitialized);
            },
            Some(d) => (bytes_eq(&d.admin, &voter), d.value),
        };
        if !self.is_signer(&voter) && !is_admin {
            return Err(ContractError::Unauthorized);
        }
        let mut proposal = match self.revocation.take() {
            None => {
                return Err(ContractError::NoActiveProposal);
            },
            Some(p) => p,
        };
        if proposal.votes.contains_key(&voter) {
            self.revocation = Some(proposal);
            return Err(ContractError::AlreadyVoted);
        }
        proposal.votes.set(voter, ());
        let threshold = self.revocation_threshold_count();
        if proposal.votes.len() >= threshold {
            self.data = Some(ContractData { admin: proposal.replacement, value: current_value });
        } else {
            self.revocation = Some(proposal);
        }
        Ok(())
    }

    fn revocation_threshold_count(&self) -> (threshold: usize)
        ensures
            threshold == self.revocation_threshold(),
    {
        self.signers.len() / 2 + 1
    }

    /// The nonces after an admin action that carried `nonce`, `salt` and
    /// `salt_signature`: the coordinator's nonce moves on by one when the
    /// nonce and its signature are valid, and nothing changes otherwise.
    pub open spec fn nonces_after(
        nonces: Map<Seq<u8>, NonceState>,
        coordinator: Seq<u8>,
        nonce: u64,
        salt: Seq<u8>,
        salt_signature: Vec<u8>,
    ) -> Map<Seq<u8>, NonceState> {
        if nonce == stored_nonce(nonces, coordinator) && salt_signature@ == expected_salt_signature(
            nonce,
            salt,
        ) {
            nonces.insert(coordinator, NonceState { nonce: (nonce + 1) as u64, salt_signature })
        } else {
            nonces
        }
    }

    /// What `propose_upgrade` does: it fails with `SignatureExpired` after
    /// `sig_expires_at`, then with the admin error of `proposer`, changing
    /// nothing; otherwise it stores the proposal stamped `now` and steps the
    /// proposer's nonce as `nonces_after` says.
    pub open spec fn upgrade_proposed(
        old: TimeLockedUpgradeContract,
        new: TimeLockedUpgradeContract,
        r: Result<(), ContractError>,
        new_wasm_hash: Vec<u8>,
        proposer: Vec<u8>,
        nonce: u64,
        salt: Seq<u8>,
        salt_signature: Vec<u8>,
        sig_expires_at: u64,
        now: u64,
    ) -> bool {
        &&& r is Ok <==> now <= sig_expires_at && old.admin_error(proposer@) is None
        &&& now > sig_expires_at ==> fails_with(r, ContractError::SignatureExpired)
        &&& now <= sig_expires_at ==> (old.admin_error(proposer@) matches Some(e) ==> fails_with(
            r,
            e,
        ))
        &&& r is Err ==> new == old
        &&& r is Ok ==> new.pending_upgrade == Some(
            PendingUpgrade { new_wasm_hash, proposed_at: now, proposer },
        ) && new.nonces@ == Self::nonces_after(old.nonces@, proposer@, nonce, salt, salt_signature)
            && new == (TimeLockedUpgradeContract {
            pending_upgrade: new.pending_upgrade,
            nonces: new.nonces,
            ..old
        })
    }

    /// What `set_value` does: it fails with `SignatureExpired` after
    /// `sig_expires_at`, then with the admin error of `admin`, changing
    /// nothing; otherwise it sets the value, records a `VALUE` heartbeat at
    /// `now` and steps the admin's nonce as `nonces_after` says.
    pub open spec fn value_set(
        old: TimeLockedUpgradeContract,
        new: TimeLockedUpgradeContract,
        r: Result<(), ContractError>,
        value: u64,
        admin: Seq<u8>,
        nonce: u64,
        salt: Seq<u8>,
        salt_signature: Vec<u8>,
        sig_expires_at: u64,
        now: u64,
    ) -> bool {
        &&& r is Ok <==> now <= sig_expires_at && old.admin_error(admin) is None
        &&& now > sig_expires_at ==> fails_with(r, ContractError::SignatureExpired)
        &&& now <= sig_expires_at ==> (old.admin_error(admin) matches Some(e) ==> fails_with(r, e))
        &&& r is Err ==> new == old
        &&& r is Ok ==> new.data == Some(ContractData { admin: old.data->Some_0.admin, value })
            && new.heartbeats@ == old.heartbeats@.insert(value_tag(), now) && new.nonces@
            == Self::nonces_after(old.nonces@, admin, nonce, salt, salt_signature) && new == (
        TimeLockedUpgradeContract {
            data: new.data,
            heartbeats: new.heartbeats,
            nonces: new.nonces,
            ..old
        })
    }

    /// `propose_upgrade` for every input: `None`, with nothing changed, where
    /// the proposal would be accepted with a valid nonce of `u64::MAX`, whose
    /// step overflows; otherwise `Some` of what `propose_upgrade` returns.
    pub fn propose_upgrade_checked(
        &mut self,
        env: &Env,
        new_wasm_hash: Vec<u8>,
        proposer: Vec<u8>,
        nonce: u64,
        salt: &Vec<u8>,
        salt_signature: Vec<u8>,
        sig_expires_at: u64,
        now: u64,
    ) -> (r: Option<Result<(), ContractError>>)
        ensures
            r is None <==> now <= sig_expires_at && old(self).admin_error(proposer@) is None
                && nonce_step_overflows(old(self).nonces@, proposer@, nonce, salt@, salt_signature@),
            r is None ==> *final(self) == *old(self),
            r matches Some(res) ==> Self::upgrade_proposed(*old(self), *final(self), res, new_wasm_hash, proposer, nonce, salt@, salt_signature, sig_expires_at, now),
    {
        if now <= sig_expires_at && self.check_admin(&proposer).is_ok() && nonce_step_would_overflow(
            env,
            &self.nonces,
            &proposer,
            nonce,
            salt,
            &salt_signature,
        ) {
            return None;
        }
        Some(self.propose_upgrade(env, new_wasm_hash, proposer, nonce, salt, salt_signature, sig_expires_at, now))
    }

    /// `set_value` for every input: `None`, with nothing changed, where the
    /// value would be set with a valid nonce of `u64::MAX`, whose step
    /// overflows; otherwise `Some` of what `set_value` returns.
    pub fn set_value_checked(
        &mut self,
        env: &Env,
        value: u64,
        admin: &Vec<u8>,
        nonce: u64,
        salt: &Vec<u8>,
        salt_signature: Vec<u8>,
        sig_expires_at: u64,
        now: u64,
    ) -> (r: Option<Result<(), ContractError>>)
        ensures
            r is None <==> now <= sig_expires_at && old(self).admin_error(admin@) is None
                && nonce_step_overflows(old(self).nonces@, admin@, nonce, salt@, salt_signature@),
            r is None ==> *final(self) == *old(self),
            r matches Some(res) ==> Self::value_set(*old(self), *final(self), res, value, admin@, nonce, salt@, salt_signature, sig_expires_at, now),
    {
        if now <= sig_expires_at && self.check_admin(admin).is_ok() && nonce_step_would_overflow(
            env,
            &self.nonces,
            admin,
            nonce,
            salt,
            &salt_signature,
        ) {
            return None;
        }
        Some(self.set_value(env, value, admin, nonce, salt, salt_signature, sig_expires_at, now))
    }

    /// Propose upgrading to `new_wasm_hash`. Only the admin may, before
    /// `sig_expires_at`. The action's nonce is consumed when it and the salt
    /// signature are valid; the proposal is stored either way, stamped `now`.
    /// The host checks `proposer`'s authorization.
    pub fn propose_upgrade(
        &mut self,
        env: &Env,
        new_wasm_hash: Vec<u8>,
        proposer: Vec<u8>,
        nonce: u64,
        salt: &Vec<u8>,
        salt_signature: Vec<u8>,
        sig_expires_at: u64,
        now: u64,
    ) -> (r: Result<(), ContractError>)
        requires
            now <= sig_expires_at && old(self).admin_error(proposer@) is None
                ==> !nonce_step_overflows(old(self).nonces@, proposer@, nonce, salt@, salt_signature@),
        ensures
            Self::upgrade_proposed(*old(self), *final(self), r, new_wasm_hash, proposer, nonce, salt@, salt_signature, sig_expires_at, now),
    {
        if now > sig_expires_at {
            return Err(ContractError::SignatureExpired);
        }
        match self.check_admin(&proposer) {
            Ok(()) => {},
            Err(e) => {
                return Err(e);
            },
        }
        let _ = consume_nonce(env, &mut self.nonces, &proposer, nonce, salt, salt_signature);
        self.pending_upgrade = Some(PendingUpgrade { new_wasm_hash, proposed_at: now, proposer });
        Ok(())
    }

    /// Clear the pending upgrade once its 48-hour time lock has run out and
    /// return the code hash that the host must install. Only the admin may,
    /// before `sig_expires_at`; the host checks `executor`'s authorization.
    pub fn execute_upgrade(&mut self, executor: &Vec<u8>, _nonce: u64, sig_expires_at: u64, now: u64) -> (r:
        Result<Vec<u8>, ContractError>)
        ensures
            r is Ok <==> now <= sig_expires_at && old(self).admin_error(executor@) is None && old(self).pending_upgrade is Some && timelock_elapsed(
                old(self).pending_upgrade->Some_0,
                now,
            ),
            now > sig_expires_at ==> fails_with(r, ContractError::SignatureExpired),
            now <= sig_expires_at ==> (old(self).admin_error(executor@) matches Some(e)
                ==> fails_with(r, e)),
            now <= sig_expires_at && old(self).admin_error(executor@) is None && old(self).pending_upgrade is None ==> fails_with(r, ContractError::NoPendingUpgrade),
            now <= sig_expires_at && old(self).admin_error(executor@) is None && old(self).pending_upgrade is Some && !timelock_elapsed(old(self).pending_upgrade->Some_0, now)
                ==> fails_with(r, ContractError::UpgradeTimelockNotSatisfied),
            r is Err ==> *final(self) == *old(self),
            r matches Ok(hash) ==> hash == old(self).pending_upgrade->Some_0.new_wasm_hash
                && *final(self) == (TimeLockedUpgradeContract {
                pending_upgrade: None,
                ..*old(self)
            }),
    {
        if now > sig_expires_at {
            return Err(ContractError::SignatureExpired);
        }
        match self.check_admin(executor) {
            Ok(()) => {},
            Err(e) => {
                return Err(e);
            },
        }
        let pending = match self.pending_upgrade.take() {
            None => {
                return Err(ContractError::NoPendingUpgrade);
            },
            Some(p) => p,
        };
        let elapsed = if now >= pending.proposed_at {
            now - pending.proposed_at
        } else {
            0
        };
        if elapsed < UPGRADE_DELAY_SECONDS {
            self.pending_upgrade = Some(pending);
            return Err(ContractError::UpgradeTimelockNotSatisfied);
        }
        Ok(pending.new_wasm_hash)
    }

    /// Record a heartbeat for `asset` at `now`. Only the admin may; the host
    /// checks `updater`'s authorization.
    pub fn update_heartbeat(&mut self, asset: Vec<u8>, updater: &Vec<u8>, now: u64) -> (r: Result<
        (),
        ContractError,
    >)
        ensures
            r is Ok <==> old(self).admin_error(updater@) is None,
            old(self).admin_error(updater@) matches Some(e) ==> fails_with(r, e) && *final(self)
                == *old(self),
            r is Ok ==> final(self).heartbeats@ == old(self).heartbeats@.insert(asset@, now)
                && *final(self) == (TimeLockedUpgradeContract {
                heartbeats: final(self).heartbeats,
                ..*old(self)
            }),
            r is Ok ==> final(self).data_fresh(asset@, now),
    {
        match self.check_admin(updater) {
            Ok(()) => {},
            Err(e) => {
                return Err(e);
            },
        }
        self.record_heartbeat(asset, now);
        Ok(())
    }

    /// `asset` had a heartbeat no longer than the interval before `now`.
    pub fn is_data_fresh(&self, asset: &Vec<u8>, now: u64) -> (fresh: bool)
        ensures
            fresh == self.data_fresh(asset@, now),
    {
        match self.heartbeats.get(asset) {
            Some(last_update) => {
                let age = if now >= *last_update {
                    now - *last_update
                } else {
                    0
                };
                age <= self.get_interval()
            },
            None => false,
        }
    }

    /// Set the admin-held value. Only the admin may, before `sig_expires_at`.
    /// The action's nonce is consumed when it and the salt signature are
    /// valid; the value is set either way and a `VALUE` heartbeat recorded at
    /// `now`. The host checks `admin`'s authorization.
    pub fn set_value(
        &mut self,
        env: &Env,
        value: u64,
        admin: &Vec<u8>,
        nonce: u64,
        salt: &Vec<u8>,
        salt_signature: Vec<u8>,
        sig_expires_at: u64,
        now: u64,
    ) -> (r: Result<(), ContractError>)
        requires
            now <= sig_expires_at && old(self).admin_error(admin@) is None
                ==> !nonce_step_overflows(old(self).nonces@, admin@, nonce, salt@, salt_signature@),
        ensures
            Self::value_set(*old(self), *final(self), r, value, admin@, nonce, salt@, salt_signature, sig_expires_at, now),
    {
        if now > sig_expires_at {
            return Err(ContractError::SignatureExpired);
        }
        match self.check_admin(admin) {
            Ok(()) => {},
            Err(e) => {
                return Err(e);
            },
        }
        let _ = consume_nonce(env, &mut self.nonces, admin, nonce, salt, salt_signature);
        let current = self.data.take();
        match current {
            Some(d) => {
                self.data = Some(ContractData { admin: d.admin, value });
            },
            None => {},
        }
        self.record_heartbeat(value_tag_bytes(), now);
        Ok(())
    }

    /// The nonce that `coordinator` must present next.
    pub fn get_coordinator_nonce(&self, coordinator: &Vec<u8>) -> (nonce: u64)
        ensures
            nonce == stored_nonce(self.nonces@, coordinator@),
    {
        get_nonce(&self.nonces, coordinator)
    }

    /// The pending upgrade, if any.
    pub fn get_pending_upgrade(&self) -> (pending: Option<&PendingUpgrade>)
        ensures
            pending is Some <==> self.pending_upgrade is Some,
            pending matches Some(p) ==> self.pending_upgrade == Some(*p),
    {
        match &self.pending_upgrade {
            Some(p) => Some(p),
            None => None,
        }
    }

    /// Seconds the pending upgrade still waits at `now`; `None` without one.
    pub fn get_upgrade_timelock_remaining(&self, now: u64) -> (remaining: Option<u64>)
        ensures
            remaining == (match self.pending_upgrade {
                None => None,
                Some(p) => Some(timelock_remaining(p, now)),
            }),
    {
        match &self.pending_upgrade {
            None => None,
            Some(pending) => {
                let elapsed = if now >= pending.proposed_at {
                    now - pending.proposed_at
                } else {
                    0
                };
                Some(
                    if UPGRADE_DELAY_SECONDS >= elapsed {
                        UPGRADE_DELAY_SECONDS - elapsed
                    } else {
                        0
                    },
                )
            },
        }
    }

    /// Drop the pending upgrade. Only the admin may; the host checks `admin`'s
    /// authorization.
    pub fn cancel_upgrade(&mut self, admin: &Vec<u8>) -> (r: Result<(), ContractError>)
        ensures
            r is Ok <==> old(self).admin_error(admin@) is None,
            old(self).admin_error(admin@) matches Some(e) ==> fails_with(r, e) && *final(self)
                == *old(self),
            r is Ok ==> *final(self) == (TimeLockedUpgradeContract {
                pending_upgrade: None,
                ..*old(self)
            }),
    {
        match self.check_admin(admin) {
            Ok(()) => {},
            Err(e) => {
                return Err(e);
            },
        }
        self.pending_upgrade = None;
        Ok(())
    }

    /// Configure the heartbeat interval; 0 is refused. Only the admin may;
    /// the host checks `admin`'s authorization.
    pub fn set_heartbeat_interval(&mut self, interval: u64, admin: &Vec<u8>) -> (r: Result<
        (),
        ContractError,
    >)
        ensures
            r is Ok <==> interval != 0 && old(self).admin_error(admin@) is None,
            interval == 0 ==> fails_with(r, ContractError::InvalidHeartbeatInterval),
            interval != 0 ==> (old(self).admin_error(admin@) matches Some(e) ==> fails_with(r, e)),
            r is Err ==> *final(self) == *old(self),
            r is Ok ==> *final(self) == (TimeLockedUpgradeContract {
                heartbeat_interval: Some(interval),
                ..*old(self)
            }),
    {
        if interval == 0 {
            return Err(ContractError::InvalidHeartbeatInterval);
        }
        match self.check_admin(admin) {
            Ok(()) => {},
            Err(e) => {
                return Err(e);
            },
        }
        self.heartbeat_interval = Some(interval);
        Ok(())
    }

    /// The heartbeat interval in force.
    pub fn get_heartbeat_interval(&self) -> (interval: u64)
        ensures
            interval == self.interval(),
    {
        self.get_interval()
    }

    /// Time of `asset`'s last heartbeat, if any.
    pub fn get_last_update_timestamp(&self, asset: &Vec<u8>) -> (last: Option<u64>)
        ensures
            last == (if self.heartbeats@.contains_key(asset@) {
                Some(self.heartbeats@[asset@])
            } else {
                None
            }),
    {
        match self.heartbeats.get(asset) {
            Some(t) => Some(*t),
            None => None,
        }
    }

    /// `node`'s stake, 0 when unregistered.
    pub fn get_stake(&self, node: &Vec<u8>) -> (amount: u64)
        ensures
            amount == (if self.stakes@.contains_key(node@) {
                self.stakes@[node@]
            } else {
                0
            }),
    {
        match self.stakes.get(node) {
            Some(a) => *a,
            None => 0,
        }
    }

    /// The recorded stake total.
    pub fn get_total_staked(&self) -> (total: u64)
        ensures
            total == self.total_staked,
    {
        self.total_staked
    }

    /// Store `node`'s rate and confidence, stamped `now`. Only the admin may;
    /// the host checks `admin`'s authorization.
    pub fn upsert_node_profile(
        &mut self,
        admin: &Vec<u8>,
        node: Vec<u8>,
        rate: u64,
        confidence: u32,
        now: u64,
    ) -> (r: Result<(), ContractError>)
        ensures
            r is Ok <==> old(self).admin_error(admin@) is None,
            old(self).admin_error(admin@) matches Some(e) ==> fails_with(r, e) && *final(self)
                == *old(self),
            r is Ok ==> final(self).node_profiles@ == old(self).node_profiles@.insert(
                node@,
                NodeProfile { node, rate, confidence, updated_at: now },
            ) && *final(self) == (TimeLockedUpgradeContract {
                node_profiles: final(self).node_profiles,
                ..*old(self)
            }),
    {
        match self.check_admin(admin) {
            Ok(()) => {},
            Err(e) => {
                return Err(e);
            },
        }
        let key = copy_bytes(&node);
        self.node_profiles.set(key, NodeProfile { node, rate, confidence, updated_at: now });
        Ok(())
    }

    /// `node`'s latest rate; `NotRegistered` without a profile or when its
    /// confidence is 0.
    pub fn get_latest_rate(&self, node: &Vec<u8>) -> (r: Result<u64, ContractError>)
        ensures
            r is Ok <==> self.node_profiles@.contains_key(node@) && profile_rate(
                self.node_profiles@[node@],
            ) is Some,
            r matches Ok(rate) ==> Some(rate) == profile_rate(self.node_profiles@[node@]),
            r is Err ==> fails_with(r, ContractError::NotRegistered),
    {
        let profile = match self.node_profiles.get(node) {
            Some(p) => p,
            None => {
                return Err(ContractError::NotRegistered);
            },
        };
        match Self::scan_profile_for_rate(profile) {
            Some(rate) => Ok(rate),
            None => Err(ContractError::NotRegistered),
        }
    }

    /// Add collected and variable fees to `asset`'s corridor pool, which
    /// starts empty; either sum overflowing `u64` is `Overflow`. Returns the
    /// updated pool.
    pub fn add_corridor_fees(&mut self, asset: Vec<u8>, collected: u64, variable_fee: u64) -> (r:
        Result<CorridorFeePool, ContractError>)
        ensures
            r is Ok <==> pool_collected(old(self).corridor_fees@, asset@) + collected <= u64::MAX
                && pool_variable(old(self).corridor_fees@, asset@) + variable_fee <= u64::MAX,
            r is Err ==> fails_with(r, ContractError::Overflow) && *final(self) == *old(self),
            r matches Ok(pool) ==> pool.asset@ == asset@ && pool.collected == pool_collected(
                old(self).corridor_fees@,
                asset@,
            ) + collected && pool.variable_pool == pool_variable(old(self).corridor_fees@, asset@)
                + variable_fee,
            r matches Ok(pool) ==> final(self).corridor_fees@.contains_key(asset@) && final(
                self).corridor_fees@[asset@].asset@ == asset@ && final(self).corridor_fees@[asset@].collected
                == pool.collected && final(self).corridor_fees@[asset@].variable_pool
                == pool.variable_pool && final(self).corridor_fees@.remove(asset@) == old(
                self).corridor_fees@.remove(asset@),
            r is Ok ==> *final(self) == (TimeLockedUpgradeContract {
                corridor_fees: final(self).corridor_fees,
                ..*old(self)
            }),
    {
        let (current_collected, current_variable) = match self.corridor_fees.get(&asset) {
            Some(pool) => (pool.collected, pool.variable_pool),
            None => (0, 0),
        };
        let new_collected = match current_collected.checked_add(collected) {
            Some(c) => c,
            None => {
                return Err(ContractError::Overflow);
            },
        };
        let new_variable = match current_variable.checked_add(variable_fee) {
            Some(v) => v,
            None => {
                return Err(ContractError::Overflow);
            },
        };
        let stored = CorridorFeePool {
            asset: copy_bytes(&asset),
            collected: new_collected,
            variable_pool: new_variable,
        };
        self.corridor_fees.set(copy_bytes(&asset), stored);
        proof {
            assert(self.corridor_fees@.remove(asset@) =~= old(self).corridor_fees@.remove(asset@));
        }
        Ok(CorridorFeePool { asset, collected: new_collected, variable_pool: new_variable })
    }

    /// `asset`'s corridor pool; an empty pool for `asset` if none is stored.
    pub fn get_corridor_fee_pool(&self, asset: &Vec<u8>) -> (pool: CorridorFeePool)
        ensures
            pool.collected == pool_collected(self.corridor_fees@, asset@),
            pool.variable_pool == pool_variable(self.corridor_fees@, asset@),
            pool.asset@ == (if self.corridor_fees@.contains_key(asset@) {
                self.corridor_fees@[asset@].asset@
            } else {
                asset@
            }),
    {
        match self.corridor_fees.get(asset) {
            Some(pool) => CorridorFeePool {
                asset: copy_bytes(&pool.asset),
                collected: pool.collected,
                variable_pool: pool.variable_pool,
            },
            None => CorridorFeePool { asset: copy_bytes(asset), collected: 0, variable_pool: 0 },
        }
    }

    /// Record the platform capital.
    pub fn set_platform_capital(&mut self, capital: u64)
        ensures
            *final(self) == (TimeLockedUpgradeContract {
                platform_capital: Some(capital),
                ..*old(self)
            }),
    {
        self.platform_capital = Some(capital);
    }

    /// Close a consensus round: every heartbeat is dropped.
    pub fn finalize_consensus(&mut self)
        ensures
            final(self).heartbeats@ == Map::<Seq<u8>, u64>::empty(),
            *final(self) == (TimeLockedUpgradeContract {
                heartbeats: final(self).heartbeats,
                ..*old(self)
            }),
    {
        self.heartbeats = KeyedMap::new();
    }
}

} // verus!
