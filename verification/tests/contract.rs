use soroban_oracle::auth::{multisig_approvals, require_multisig};
use soroban_oracle::contract::{TimeLockedUpgradeContract, DEFAULT_HEARTBEAT_INTERVAL, UPGRADE_DELAY_SECONDS};
use soroban_oracle::keyed_map::{bytes_eq, copy_bytes, KeyedMap};
use soroban_oracle::models::{get_last_ledger_for_relayer, record_ledger_gap, verify_ledger_gap};
use soroban_oracle::nonce::{consume_nonce, derive_salt_signature, get_nonce, NonceState};
use soroban_oracle::validation::{check_bond_capacity, get_locked_stake};
use soroban_oracle::ContractError;
use soroban_sdk::testutils::EnvTestConfig;
use soroban_sdk::Env;

fn test_env() -> Env {
    Env::new_with_config(EnvTestConfig { capture_snapshot_at_drop: false })
}

fn addr(s: &str) -> Vec<u8> {
    s.as_bytes().to_vec()
}

fn initialized(admin: &str) -> TimeLockedUpgradeContract {
    let mut c = TimeLockedUpgradeContract::new();
    c.initialize(addr(admin)).unwrap();
    c
}

#[test]
fn keyed_map_set_get_remove() {
    let mut m: KeyedMap<u64> = KeyedMap::new();
    assert_eq!(m.len(), 0);
    m.set(addr("a"), 1);
    m.set(addr("b"), 2);
    m.set(addr("a"), 3);
    assert_eq!(m.len(), 2);
    assert_eq!(m.get(&addr("a")), Some(&3));
    assert_eq!(m.get(&addr("b")), Some(&2));
    assert!(!m.contains_key(&addr("c")));
    m.remove(&addr("a"));
    assert_eq!(m.get(&addr("a")), None);
    assert_eq!(m.len(), 1);
    let (k, v) = m.entry_at(0);
    assert_eq!((k.clone(), *v), (addr("b"), 2));
}

#[test]
fn byte_helpers() {
    assert!(bytes_eq(&addr("xyz"), &addr("xyz")));
    assert!(!bytes_eq(&addr("xyz"), &addr("xy")));
    assert!(!bytes_eq(&addr("xyz"), &addr("xyw")));
    assert_eq!(copy_bytes(&addr("copy")), addr("copy"));
}

#[test]
fn initialize_only_once() {
    let mut c = TimeLockedUpgradeContract::new();
    assert_eq!(c.get_data(), Err(ContractError::NotInitialized));
    assert_eq!(c.initialize(addr("admin")), Ok(()));
    assert_eq!(c.get_data().unwrap().admin, addr("admin"));
    assert_eq!(c.get_data().unwrap().value, 0);
    assert_eq!(c.initialize(addr("other")), Err(ContractError::AlreadyInitialized));
    assert_eq!(c.get_data().unwrap().admin, addr("admin"));
}

#[test]
fn staking_keeps_total_in_step() {
    let mut c = TimeLockedUpgradeContract::new();
    assert_eq!(c.stake_and_register(addr("n1"), 0, 10), Err(ContractError::InvalidStakeAmount));
    let rec = c.stake_and_register(addr("n1"), 500, 10).unwrap();
    assert_eq!((rec.node, rec.amount, rec.registered_at), (addr("n1"), 500, 10));
    assert_eq!(c.stake_and_register(addr("n1"), 5, 11), Err(ContractError::AlreadyRegistered));
    c.stake_and_register(addr("n2"), 1_500, 12).unwrap();
    assert_eq!(c.get_total_staked(), 2_000);
    assert_eq!(c.get_stake(&addr("n2")), 1_500);
    assert_eq!(c.get_last_update_timestamp(&addr("STAKE")), Some(12));
    assert_eq!(c.stake_and_register(addr("n3"), u64::MAX, 13), Err(ContractError::Overflow));
    assert_eq!(c.unstake(&addr("n1")), Ok(500));
    assert_eq!(c.get_total_staked(), 1_500);
    assert_eq!(c.get_stake(&addr("n1")), 0);
    assert_eq!(c.unstake(&addr("n1")), Err(ContractError::NotRegistered));
}

#[test]
fn unstake_saturates_a_short_total() {
    let mut c = TimeLockedUpgradeContract::new();
    c.stakes.set(addr("n"), 10);
    c.total_staked = 3;
    assert_eq!(c.unstake(&addr("n")), Ok(10));
    assert_eq!(c.get_total_staked(), 0);
}

#[test]
fn signer_registration_is_admin_only() {
    let mut c = TimeLockedUpgradeContract::new();
    assert_eq!(c.register_signer(addr("s1"), &addr("admin")), Err(ContractError::NotInitialized));
    assert_eq!(c.remove_signer(&addr("s1"), &addr("admin")), Err(ContractError::NotInitialized));
    let mut c = initialized("admin");
    assert_eq!(c.register_signer(addr("s1"), &addr("intruder")), Err(ContractError::NotAdmin));
    assert_eq!(c.register_signer(addr("s1"), &addr("admin")), Ok(()));
    assert_eq!(c.register_signer(addr("s1"), &addr("admin")), Ok(()));
    assert_eq!(c.signers.len(), 1);
    assert_eq!(c.remove_signer(&addr("s1"), &addr("admin")), Ok(()));
    assert!(!c.signers.contains_key(&addr("s1")));
}

fn with_revocation(signers: &[&str], replacement: &str) -> TimeLockedUpgradeContract {
    let mut c = initialized("admin");
    for s in signers {
        c.register_signer(addr(s), &addr("admin")).unwrap();
    }
    c.revocation = Some(soroban_oracle::contract::RevocationProposal {
        target: addr("admin"),
        replacement: addr(replacement),
        proposer: addr("s1"),
        proposed_at: 5,
        votes: KeyedMap::new(),
    });
    c
}

#[test]
fn revocation_replaces_admin_at_majority() {
    // three signers: threshold 3 / 2 + 1 = 2 votes
    let mut c = with_revocation(&["s1", "s2", "s3"], "new_admin");
    assert_eq!(c.vote_revocation(addr("s1"), 100, 101), Err(ContractError::SignatureExpired));
    assert_eq!(c.vote_revocation(addr("stranger"), 100, 50), Err(ContractError::Unauthorized));
    assert_eq!(c.vote_revocation(addr("s1"), 100, 50), Ok(()));
    assert_eq!(c.vote_revocation(addr("s1"), 100, 50), Err(ContractError::AlreadyVoted));
    assert_eq!(c.get_data().unwrap().admin, addr("admin"));
    assert_eq!(c.vote_revocation(addr("admin"), 100, 50), Ok(()));
    assert_eq!(c.get_data().unwrap().admin, addr("new_admin"));
    assert!(c.revocation.is_none());
    assert_eq!(c.vote_revocation(addr("s2"), 100, 50), Err(ContractError::NoActiveProposal));
}

#[test]
fn revocation_without_data_is_not_initialized() {
    let mut c = TimeLockedUpgradeContract::new();
    assert_eq!(c.vote_revocation(addr("s1"), 100, 50), Err(ContractError::NotInitialized));
}

#[test]
fn upgrade_waits_for_the_time_lock() {
    let env = test_env();
    let mut c = initialized("admin");
    let salt = addr("salt");
    let sig = derive_salt_signature(&env, 0, &salt);
    assert_eq!(
        c.propose_upgrade(&env, vec![1u8; 32], addr("intruder"), 0, &salt, sig.clone(), 100, 10),
        Err(ContractError::NotAdmin)
    );
    assert_eq!(c.propose_upgrade(&env, vec![1u8; 32], addr("admin"), 0, &salt, sig.clone(), 100, 10), Ok(()));
    assert_eq!(c.get_coordinator_nonce(&addr("admin")), 1);
    assert_eq!(c.get_pending_upgrade().unwrap().proposed_at, 10);
    assert_eq!(c.get_upgrade_timelock_remaining(10), Some(UPGRADE_DELAY_SECONDS));
    assert_eq!(c.get_upgrade_timelock_remaining(5), Some(UPGRADE_DELAY_SECONDS));
    let just_before = 10 + UPGRADE_DELAY_SECONDS - 1;
    assert_eq!(c.get_upgrade_timelock_remaining(just_before), Some(1));
    assert_eq!(
        c.execute_upgrade(&addr("admin"), 0, u64::MAX, just_before),
        Err(ContractError::UpgradeTimelockNotSatisfied)
    );
    assert!(c.get_pending_upgrade().is_some());
    let due = 10 + UPGRADE_DELAY_SECONDS;
    assert_eq!(c.get_upgrade_timelock_remaining(due), Some(0));
    assert_eq!(c.execute_upgrade(&addr("admin"), 0, due - 1, due), Err(ContractError::SignatureExpired));
    assert_eq!(c.execute_upgrade(&addr("admin"), 0, due, due), Ok(vec![1u8; 32]));
    assert!(c.get_pending_upgrade().is_none());
    assert_eq!(c.get_upgrade_timelock_remaining(due), None);
    assert_eq!(c.execute_upgrade(&addr("admin"), 0, due, due), Err(ContractError::NoPendingUpgrade));
}

#[test]
fn cancel_upgrade_drops_pending() {
    let env = test_env();
    let mut c = initialized("admin");
    let salt = addr("s");
    c.propose_upgrade(&env, vec![2u8; 32], addr("admin"), 0, &salt, vec![0u8; 32], 100, 10).unwrap();
    // an invalid signature leaves the nonce alone but the proposal stands
    assert_eq!(c.get_coordinator_nonce(&addr("admin")), 0);
    assert_eq!(c.cancel_upgrade(&addr("intruder")), Err(ContractError::NotAdmin));
    assert_eq!(c.cancel_upgrade(&addr("admin")), Ok(()));
    assert!(c.get_pending_upgrade().is_none());
}

#[test]
fn set_value_consumes_valid_nonces_once() {
    let env = test_env();
    let mut c = initialized("admin");
    let salt = addr("salt");
    let sig0 = derive_salt_signature(&env, 0, &salt);
    assert_eq!(c.set_value(&env, 42, &addr("admin"), 0, &salt, sig0.clone(), 100, 20), Ok(()));
    assert_eq!(c.get_data().unwrap().value, 42);
    assert_eq!(c.get_coordinator_nonce(&addr("admin")), 1);
    assert_eq!(c.get_last_update_timestamp(&addr("VALUE")), Some(20));
    // replaying nonce 0 is refused by the nonce check, the value is still set
    assert_eq!(c.set_value(&env, 43, &addr("admin"), 0, &salt, sig0, 100, 21), Ok(()));
    assert_eq!(c.get_coordinator_nonce(&addr("admin")), 1);
    assert_eq!(c.get_data().unwrap().value, 43);
    assert_eq!(c.set_value(&env, 44, &addr("admin"), 1, &salt, vec![], 10, 21), Err(ContractError::SignatureExpired));
    assert_eq!(c.set_value(&env, 44, &addr("x"), 1, &salt, vec![], 100, 21), Err(ContractError::NotAdmin));
}

#[test]
fn nonce_consumption_checks_nonce_then_signature() {
    let env = test_env();
    let mut nonces: KeyedMap<NonceState> = KeyedMap::new();
    let who = addr("coordinator");
    let salt = addr("salt");
    assert_eq!(get_nonce(&nonces, &who), 0);
    let good = derive_salt_signature(&env, 0, &salt);
    assert_eq!(consume_nonce(&env, &mut nonces, &who, 1, &salt, good.clone()), Err(ContractError::InvalidNonce));
    assert_eq!(consume_nonce(&env, &mut nonces, &who, 0, &salt, vec![9u8; 32]), Err(ContractError::InvalidSaltSignature));
    assert_eq!(get_nonce(&nonces, &who), 0);
    assert_eq!(consume_nonce(&env, &mut nonces, &who, 0, &salt, good.clone()), Ok(()));
    assert_eq!(get_nonce(&nonces, &who), 1);
    assert_eq!(nonces.get(&who).unwrap().salt_signature, good);
    assert_eq!(consume_nonce(&env, &mut nonces, &who, 0, &salt, good), Err(ContractError::InvalidNonce));
}

#[test]
fn nonce_at_its_largest_value_is_refused_only_when_it_would_step() {
    let env = test_env();
    let salt = addr("salt");
    let mut c = initialized("admin");
    c.nonces.set(addr("admin"), NonceState { nonce: u64::MAX, salt_signature: vec![] });
    let good = derive_salt_signature(&env, u64::MAX, &salt);
    assert_eq!(c.set_value_checked(&env, 9, &addr("admin"), u64::MAX, &salt, good.clone(), 100, 5), None);
    assert_eq!(c.get_data().unwrap().value, 0);
    assert_eq!(
        c.propose_upgrade_checked(&env, vec![3u8; 32], addr("admin"), u64::MAX, &salt, good.clone(), 100, 5),
        None
    );
    assert!(c.get_pending_upgrade().is_none());
    // a bad signature at the largest nonce is refused without a step
    assert_eq!(c.set_value_checked(&env, 9, &addr("admin"), u64::MAX, &salt, vec![1u8; 32], 100, 5), Some(Ok(())));
    assert_eq!(c.get_data().unwrap().value, 9);
    assert_eq!(c.get_coordinator_nonce(&addr("admin")), u64::MAX);
    assert_eq!(
        consume_nonce(&env, &mut c.nonces, &addr("admin"), u64::MAX, &salt, vec![1u8; 32]),
        Err(ContractError::InvalidSaltSignature)
    );
    // an expired action never reaches the nonce
    assert_eq!(
        c.set_value_checked(&env, 10, &addr("admin"), u64::MAX, &salt, good, 1, 5),
        Some(Err(ContractError::SignatureExpired))
    );
    // below the largest nonce the checked form is the plain one
    let mut d = initialized("admin");
    let sig0 = derive_salt_signature(&env, 0, &salt);
    assert_eq!(d.set_value_checked(&env, 42, &addr("admin"), 0, &salt, sig0, 100, 20), Some(Ok(())));
    assert_eq!(d.get_coordinator_nonce(&addr("admin")), 1);
}

#[test]
fn salt_signature_is_sha256_of_big_endian_nonce_and_salt() {
    let env = test_env();
    let expected: Vec<u8> = vec![
        46, 141, 242, 156, 72, 44, 143, 255, 164, 155, 136, 101, 186, 198, 50, 231, 186, 85, 43, 100,
        74, 208, 233, 247, 13, 242, 160, 53, 102, 255, 150, 100,
    ];
    assert_eq!(derive_salt_signature(&env, 7, &addr("salt")), expected);
    let abc: Vec<u8> = vec![
        243, 101, 46, 76, 233, 56, 187, 153, 101, 246, 44, 60, 164, 216, 246, 147, 1, 166, 200, 91,
        30, 134, 234, 198, 126, 41, 17, 82, 211, 192, 227, 221,
    ];
    assert_eq!(derive_salt_signature(&env, 0, &addr("abc")), abc);
}

#[test]
fn heartbeats_decide_freshness() {
    let mut c = initialized("admin");
    assert!(!c.is_data_fresh(&addr("XLM"), 0));
    assert_eq!(c.get_heartbeat_interval(), DEFAULT_HEARTBEAT_INTERVAL);
    assert_eq!(c.update_heartbeat(addr("XLM"), &addr("nobody"), 1_000), Err(ContractError::NotAdmin));
    assert_eq!(c.update_heartbeat(addr("XLM"), &addr("admin"), 1_000), Ok(()));
    assert!(c.is_data_fresh(&addr("XLM"), 1_000));
    assert!(c.is_data_fresh(&addr("XLM"), 1_300));
    assert!(!c.is_data_fresh(&addr("XLM"), 1_301));
    assert!(c.is_data_fresh(&addr("XLM"), 900));
    assert_eq!(c.set_heartbeat_interval(0, &addr("admin")), Err(ContractError::InvalidHeartbeatInterval));
    assert_eq!(c.set_heartbeat_interval(10, &addr("nobody")), Err(ContractError::NotAdmin));
    assert_eq!(c.set_heartbeat_interval(10, &addr("admin")), Ok(()));
    assert_eq!(c.get_heartbeat_interval(), 10);
    assert!(!c.is_data_fresh(&addr("XLM"), 1_011));
    c.finalize_consensus();
    assert_eq!(c.get_last_update_timestamp(&addr("XLM")), None);
}

#[test]
fn node_profiles_report_confident_rates() {
    let mut c = initialized("admin");
    assert_eq!(c.get_latest_rate(&addr("node")), Err(ContractError::NotRegistered));
    assert_eq!(c.upsert_node_profile(&addr("x"), addr("node"), 5, 1, 3), Err(ContractError::NotAdmin));
    c.upsert_node_profile(&addr("admin"), addr("node"), 5, 0, 3).unwrap();
    assert_eq!(c.get_latest_rate(&addr("node")), Err(ContractError::NotRegistered));
    c.upsert_node_profile(&addr("admin"), addr("node"), 7, 90, 4).unwrap();
    assert_eq!(c.get_latest_rate(&addr("node")), Ok(7));
    assert_eq!(c.node_profiles.get(&addr("node")).unwrap().updated_at, 4);
}

#[test]
fn corridor_fees_accumulate_per_asset() {
    let mut c = TimeLockedUpgradeContract::new();
    let empty = c.get_corridor_fee_pool(&addr("NGN"));
    assert_eq!((empty.asset, empty.collected, empty.variable_pool), (addr("NGN"), 0, 0));
    let pool = c.add_corridor_fees(addr("NGN"), 10, 3).unwrap();
    assert_eq!((pool.asset, pool.collected, pool.variable_pool), (addr("NGN"), 10, 3));
    c.add_corridor_fees(addr("NGN"), 5, 1).unwrap();
    c.add_corridor_fees(addr("KES"), 1, 1).unwrap();
    let read = c.get_corridor_fee_pool(&addr("NGN"));
    assert_eq!((read.collected, read.variable_pool), (15, 4));
    assert_eq!(c.add_corridor_fees(addr("NGN"), u64::MAX, 0), Err(ContractError::Overflow));
    assert_eq!(c.add_corridor_fees(addr("NGN"), 0, u64::MAX), Err(ContractError::Overflow));
    assert_eq!(c.get_corridor_fee_pool(&addr("NGN")).collected, 15);
}

#[test]
fn platform_capital_is_recorded() {
    let mut c = TimeLockedUpgradeContract::new();
    c.set_platform_capital(77);
    assert_eq!(c.platform_capital, Some(77));
}

#[test]
fn multisig_counts_authorized_entries_and_asks_each_address_once() {
    let c = TimeLockedUpgradeContract::new();
    assert_eq!(require_multisig(&c, &vec![addr("a"), addr("b")]), Err(ContractError::NotInitialized));
    assert_eq!(multisig_approvals(&c, &vec![addr("a")]), Err(ContractError::NotInitialized));
    let mut c = initialized("admin");
    c.register_signer(addr("s1"), &addr("admin")).unwrap();
    assert_eq!(require_multisig(&c, &vec![addr("admin")]), Err(ContractError::ThresholdNotReached));
    assert_eq!(
        require_multisig(&c, &vec![addr("x"), addr("s1"), addr("y")]),
        Err(ContractError::ThresholdNotReached)
    );
    assert_eq!(multisig_approvals(&c, &vec![addr("x"), addr("s1"), addr("y")]), Ok(vec![addr("s1")]));
    assert_eq!(
        require_multisig(&c, &vec![addr("s1"), addr("x"), addr("s1"), addr("admin")]),
        Ok(vec![addr("s1"), addr("admin")])
    );
    assert_eq!(require_multisig(&c, &vec![addr("s1"), addr("s1")]), Ok(vec![addr("s1")]));
}

#[test]
fn test_require_multisig_accepts_two_unique_signers() {
    let admin = addr("admin");
    let c = initialized("admin");
    let signers = vec![admin.clone(), admin.clone()];
    assert!(require_multisig(&c, &signers).is_ok());
}

#[test]
fn test_require_multisig_rejects_single_signer() {
    let admin = addr("admin");
    let c = initialized("admin");
    let signers = vec![admin.clone()];
    assert!(matches!(require_multisig(&c, &signers), Err(ContractError::ThresholdNotReached)));
}

#[test]
fn test_require_multisig_handles_duplicate_signers() {
    let c = initialized("admin");
    let signer1 = addr("signer1");
    let signer2 = addr("signer2");
    let signers = vec![signer1.clone(), signer1.clone(), signer2.clone()];
    assert!(matches!(require_multisig(&c, &signers), Err(ContractError::ThresholdNotReached)));
}

#[test]
fn ledger_gap_spaces_relayer_actions() {
    let mut tracking: KeyedMap<u32> = KeyedMap::new();
    let relayer = addr("relayer");
    assert_eq!(get_last_ledger_for_relayer(&tracking, &relayer), 0);
    assert_eq!(verify_ledger_gap(&tracking, &relayer, 2), Err(ContractError::LedgerGapNotSatisfied));
    assert_eq!(verify_ledger_gap(&tracking, &relayer, 3), Ok(()));
    record_ledger_gap(&mut tracking, &relayer, 100);
    assert_eq!(get_last_ledger_for_relayer(&tracking, &relayer), 100);
    assert_eq!(verify_ledger_gap(&tracking, &relayer, 102), Err(ContractError::LedgerGapNotSatisfied));
    assert_eq!(verify_ledger_gap(&tracking, &relayer, 50), Err(ContractError::LedgerGapNotSatisfied));
    assert_eq!(verify_ledger_gap(&tracking, &relayer, 103), Ok(()));
}

#[test]
fn premium_pools_need_the_minimum_bond() {
    let mut c = TimeLockedUpgradeContract::new();
    let pool = addr("NGN");
    assert_eq!(get_locked_stake(&c, &addr("n")), 0);
    assert_eq!(check_bond_capacity(&c, &addr("n"), &pool), Err(ContractError::PremiumPoolAccessDenied));
    c.stake_and_register(addr("n"), 999, 1).unwrap();
    assert_eq!(check_bond_capacity(&c, &addr("n"), &pool), Err(ContractError::PremiumPoolAccessDenied));
    c.unstake(&addr("n")).unwrap();
    c.stake_and_register(addr("n"), 1_000, 2).unwrap();
    assert_eq!(check_bond_capacity(&c, &addr("n"), &pool), Ok(()));
}
