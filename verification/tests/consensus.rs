use soroban_oracle::consensus::{
    apply_weight, compact_duplicate_price_rows, compute_quorum_threshold, compute_weighted_average,
    compute_weighted_sum, entry_weight_share_bps, normalize_weight_score, WeightedEntry,
};
use soroban_oracle::ContractError;
use soroban_sdk::testutils::EnvTestConfig;
use soroban_sdk::Env;

fn test_env() -> Env {
    Env::new_with_config(EnvTestConfig { capture_snapshot_at_drop: false })
}

fn make_entries(pairs: &[(u64, u64)]) -> Vec<WeightedEntry> {
    let mut v = Vec::new();
    for &(value, weight) in pairs {
        v.push(WeightedEntry { value, weight });
    }
    v
}

#[test]
fn test_apply_weight_normal() {
    assert_eq!(apply_weight(100, 50).unwrap(), 5_000);
}

#[test]
fn test_apply_weight_zero_value() {
    assert_eq!(apply_weight(0, u64::MAX).unwrap(), 0);
}

#[test]
fn test_apply_weight_zero_weight() {
    assert_eq!(apply_weight(u64::MAX, 0).unwrap(), 0);
}

#[test]
fn test_apply_weight_overflow() {
    let result = apply_weight(u64::MAX, 2);
    assert_eq!(result, Err(ContractError::Overflow));
}

#[test]
fn test_weighted_sum_single_entry() {
    let env = test_env();
    let entries = make_entries(&[(200, 3)]);
    let (ws, tw) = compute_weighted_sum(&env, &entries).unwrap();
    assert_eq!(ws, 600);
    assert_eq!(tw, 3);
}

#[test]
fn test_weighted_sum_multiple_entries() {
    let env = test_env();
    // (100 * 10) + (200 * 5) = 1000 + 1000 = 2000, total_weight = 15
    let entries = make_entries(&[(100, 10), (200, 5)]);
    let (ws, tw) = compute_weighted_sum(&env, &entries).unwrap();
    assert_eq!(ws, 2_000);
    assert_eq!(tw, 15);
}

#[test]
fn test_weighted_sum_empty_dataset() {
    let env = test_env();
    let entries = make_entries(&[]);
    let (ws, tw) = compute_weighted_sum(&env, &entries).unwrap();
    assert_eq!(ws, 0);
    assert_eq!(tw, 0);
}

#[test]
fn test_weighted_sum_overflow_on_product() {
    let env = test_env();
    let entries = make_entries(&[(u64::MAX, 2)]);
    let result = compute_weighted_sum(&env, &entries);
    assert_eq!(result, Err(ContractError::Overflow));
}

#[test]
fn test_weighted_sum_overflow_on_accumulation() {
    let env = test_env();
    let half = u64::MAX / 2;
    let entries = make_entries(&[(half, 2), (half, 2)]);
    let result = compute_weighted_sum(&env, &entries);
    assert_eq!(result, Err(ContractError::Overflow));
}

#[test]
fn test_weighted_average_normal() {
    let env = test_env();
    // (1000 * 3 + 2000 * 1) / (3 + 1) = 5000 / 4 = 1250
    let entries = make_entries(&[(1_000, 3), (2_000, 1)]);
    assert_eq!(compute_weighted_average(&env, &entries).unwrap(), 1_250);
}

#[test]
fn test_weighted_average_zero_total_weight() {
    let env = test_env();
    let entries = make_entries(&[(500, 0), (300, 0)]);
    assert_eq!(compute_weighted_average(&env, &entries).unwrap(), 0);
}

#[test]
fn test_quorum_threshold_two_thirds() {
    // 6700 BPS of 1_000_000 = 670_000
    assert_eq!(compute_quorum_threshold(1_000_000, 6_700).unwrap(), 670_000);
}

#[test]
fn test_quorum_threshold_fifty_percent() {
    assert_eq!(compute_quorum_threshold(200, 5_000).unwrap(), 100);
}

#[test]
fn test_quorum_threshold_overflow() {
    let result = compute_quorum_threshold(u64::MAX, 2);
    assert_eq!(result, Err(ContractError::Overflow));
}

#[test]
fn test_quorum_threshold_zero_weight() {
    assert_eq!(compute_quorum_threshold(0, 6_700).unwrap(), 0);
}

#[test]
fn test_normalize_score_normal() {
    assert_eq!(normalize_weight_score(42, 1_000).unwrap(), 42_000);
}

#[test]
fn test_normalize_score_overflow() {
    let result = normalize_weight_score(u64::MAX, 2);
    assert_eq!(result, Err(ContractError::Overflow));
}

#[test]
fn test_normalize_score_zero() {
    assert_eq!(normalize_weight_score(0, u64::MAX).unwrap(), 0);
}

#[test]
fn test_share_bps_full_weight() {
    assert_eq!(entry_weight_share_bps(500, 500).unwrap(), 10_000);
}

#[test]
fn test_share_bps_half_weight() {
    assert_eq!(entry_weight_share_bps(250, 500).unwrap(), 5_000);
}

#[test]
fn test_share_bps_zero_total() {
    assert_eq!(entry_weight_share_bps(100, 0).unwrap(), 0);
}

#[test]
fn test_share_bps_overflow_on_numerator() {
    let result = entry_weight_share_bps(u64::MAX, 1);
    assert_eq!(result, Err(ContractError::Overflow));
}

#[test]
fn compaction_merges_rows_in_order_of_first_appearance() {
    let env = test_env();
    let entries = make_entries(&[(300, 1), (100, 10), (300, 4), (100, 5), (200, 7)]);
    let compacted = compact_duplicate_price_rows(&env, &entries).unwrap();
    assert_eq!(compacted, make_entries(&[(300, 5), (100, 15), (200, 7)]));
}

#[test]
fn compaction_of_distinct_rows_keeps_them() {
    let env = test_env();
    let entries = make_entries(&[(1, 1), (2, 2), (3, 3)]);
    assert_eq!(compact_duplicate_price_rows(&env, &entries).unwrap(), entries);
}

#[test]
fn compaction_overflowing_merged_weight_fails() {
    let env = test_env();
    let entries = make_entries(&[(7, u64::MAX), (8, 1), (7, 1)]);
    assert_eq!(compact_duplicate_price_rows(&env, &entries), Err(ContractError::Overflow));
}

#[test]
fn test_weighted_sum_duplicate_price_rows_compact() {
    let env = test_env();
    // Same price value appears twice; weights should merge before weighted sum.
    let entries = make_entries(&[(100, 10), (100, 5), (200, 5)]);
    let (ws, tw) = compute_weighted_sum(&env, &entries).unwrap();
    assert_eq!(ws, 2_000);
    assert_eq!(tw, 20);
}

#[test]
fn duplicate_price_is_credited_once_at_its_first_weight() {
    let env = test_env();
    // 300 is credited at weight 1, 100 at weight 10; all 27 weight counts
    let entries = make_entries(&[(300, 1), (100, 10), (300, 4), (100, 5), (200, 7)]);
    assert_eq!(compute_weighted_sum(&env, &entries).unwrap(), (300 + 1_000 + 1_400, 27));
    assert_eq!(compute_weighted_average(&env, &entries).unwrap(), 2_700 / 27);
}

#[test]
fn duplicate_rows_still_overflow_on_their_merged_product() {
    let env = test_env();
    let half = u64::MAX / 2;
    let entries = make_entries(&[(half, 2), (half, 2)]);
    assert_eq!(compute_weighted_sum(&env, &entries), Err(ContractError::Overflow));
}

#[test]
fn weighted_sum_total_weight_overflow_fails() {
    let env = test_env();
    let entries = make_entries(&[(0, u64::MAX), (1, 1)]);
    assert_eq!(compute_weighted_sum(&env, &entries), Err(ContractError::Overflow));
}

#[test]
fn weighted_average_rounds_down() {
    let env = test_env();
    let entries = make_entries(&[(10, 1), (11, 2)]);
    assert_eq!(compute_weighted_average(&env, &entries).unwrap(), 10);
}

#[test]
fn weighted_average_overflow_fails() {
    let env = test_env();
    let entries = make_entries(&[(u64::MAX, 2)]);
    assert_eq!(compute_weighted_average(&env, &entries), Err(ContractError::Overflow));
}

#[test]
fn quorum_threshold_rounds_down_and_stays_below_total() {
    assert_eq!(compute_quorum_threshold(3, 6_700).unwrap(), 2);
    assert_eq!(compute_quorum_threshold(12_345, 10_000).unwrap(), 12_345);
}

#[test]
fn share_bps_rounds_down() {
    assert_eq!(entry_weight_share_bps(1, 3).unwrap(), 3_333);
    // an entry heavier than the total is refused: a share never passes 10 000 BPS
    assert_eq!(entry_weight_share_bps(3, 2), Err(ContractError::Overflow));
    assert_eq!(entry_weight_share_bps(2, 1), Err(ContractError::Overflow));
}
