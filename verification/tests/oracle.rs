use soroban_oracle::keyed_map::KeyedMap;
use soroban_oracle::price_oracle::error::OracleError;
use soroban_oracle::price_oracle::rewards::Rewards;
use soroban_oracle::price_oracle::types::{AssetRegistrationConfig, AssetWeight};
use soroban_oracle::price_oracle::validation::{
    calculate_index_price, clear_assets, validate_asset_registration_configs, AssetQuote,
};

fn sym(s: &str) -> Vec<u8> {
    s.as_bytes().to_vec()
}

fn config(min: i128, max: i128, floor: Option<i128>) -> AssetRegistrationConfig {
    AssetRegistrationConfig {
        asset: sym("NGN"),
        name: sym("Naira"),
        base_decimals: 7,
        quote_decimals: 2,
        min_price: min,
        max_price: max,
        price_floor: floor,
    }
}

fn quoted(price: i128) -> AssetQuote {
    AssetQuote { is_tracked: true, price: Ok(price) }
}

fn weight(asset: &str, weight: u32) -> AssetWeight {
    AssetWeight { asset: sym(asset), weight }
}

#[test]
fn registration_configs_are_checked_in_order() {
    assert_eq!(validate_asset_registration_configs(&vec![], 100), Err(OracleError::InvalidAssetConfig));
    let ok = vec![config(1, 10, None), config(5, 5, Some(5))];
    assert_eq!(validate_asset_registration_configs(&ok, 0), Err(OracleError::InvalidMaxDeviation));
    assert_eq!(validate_asset_registration_configs(&ok, 10_001), Err(OracleError::InvalidMaxDeviation));
    assert_eq!(validate_asset_registration_configs(&ok, 10_000), Ok(()));
    assert_eq!(validate_asset_registration_configs(&ok, 1), Ok(()));
    for bad in [config(0, 10, None), config(1, 0, None), config(11, 10, None), config(1, 10, Some(0)), config(1, 10, Some(11))] {
        assert_eq!(
            validate_asset_registration_configs(&vec![config(1, 10, None), bad], 500),
            Err(OracleError::InvalidPriceBounds)
        );
    }
}

#[test]
fn index_price_is_weighted_mean() {
    let components = vec![weight("NGN", 1), weight("KES", 3)];
    let quotes = vec![quoted(100), quoted(200)];
    // (100 * 1 + 200 * 3) / 4 = 175
    assert_eq!(calculate_index_price(&components, &quotes), Ok(175));
    let neg = vec![quoted(-7), quoted(0)];
    // -7 / 4 rounds toward zero
    assert_eq!(calculate_index_price(&components, &neg), Ok(-1));
}

#[test]
fn index_price_keeps_a_weight_total_beyond_u32() {
    let components = vec![weight("NGN", u32::MAX), weight("KES", u32::MAX)];
    assert_eq!(calculate_index_price(&components, &vec![quoted(100), quoted(100)]), Ok(100));
    let components = vec![weight("NGN", u32::MAX), weight("KES", 1)];
    // (100 * (2^32 - 1) + 300) / 2^32 = 100
    assert_eq!(calculate_index_price(&components, &vec![quoted(100), quoted(300)]), Ok(100));
}

#[test]
fn index_price_errors() {
    assert_eq!(calculate_index_price(&vec![], &vec![]), Err(OracleError::AssetNotFound));
    let components = vec![weight("NGN", 1), weight("KES", 0)];
    assert_eq!(
        calculate_index_price(&components, &vec![quoted(1), quoted(1)]),
        Err(OracleError::InvalidWeight)
    );
    let untracked = AssetQuote { is_tracked: false, price: Ok(1) };
    assert_eq!(
        calculate_index_price(&components, &vec![untracked, quoted(1)]),
        Err(OracleError::AssetNotFound)
    );
    let stale = AssetQuote { is_tracked: true, price: Err(OracleError::FeeTokenNotSet) };
    assert_eq!(
        calculate_index_price(&vec![weight("NGN", 1)], &vec![stale]),
        Err(OracleError::FeeTokenNotSet)
    );
    assert_eq!(
        calculate_index_price(&vec![weight("NGN", 2)], &vec![quoted(i128::MAX)]),
        Err(OracleError::InvalidPrice)
    );
    assert_eq!(
        calculate_index_price(&vec![weight("A", 1), weight("B", 1)], &vec![quoted(i128::MAX), quoted(1)]),
        Err(OracleError::InvalidPrice)
    );
}

#[test]
fn clear_assets_is_capped() {
    let mut prices: KeyedMap<i128> = KeyedMap::new();
    prices.set(sym("NGN"), 1);
    prices.set(sym("KES"), 2);
    prices.set(sym("GHS"), 3);
    let too_many: Vec<Vec<u8>> = (0..21).map(|i| vec![i as u8]).collect();
    assert_eq!(clear_assets(&mut prices, &too_many), Err(OracleError::TooManyAssets));
    assert_eq!(prices.len(), 3);
    assert_eq!(clear_assets(&mut prices, &vec![sym("NGN"), sym("XXX"), sym("GHS")]), Ok(()));
    assert_eq!(prices.len(), 1);
    assert_eq!(prices.get(&sym("KES")), Some(&2));
}

#[test]
fn rewards_accrue_and_are_claimed_once() {
    let mut rewards = Rewards::new();
    let relayer = sym("relayer");
    assert_eq!(rewards.get_balance(&relayer), 0);
    assert_eq!(rewards.claim_rewards(&relayer), 0);
    rewards.add_to_balance(&relayer, 40);
    rewards.add_to_balance(&relayer, 2);
    assert_eq!(rewards.get_balance(&relayer), 42);
    assert_eq!(rewards.claim_rewards(&relayer), 42);
    assert_eq!(rewards.get_balance(&relayer), 0);
    assert_eq!(rewards.claim_rewards(&relayer), 0);
    rewards.add_to_balance(&relayer, i128::MAX);
    rewards.add_to_balance(&relayer, 1);
    assert_eq!(rewards.get_balance(&relayer), i128::MAX);
}

#[test]
fn rewards_credits_accumulate_with_saturation() {
    let mut rewards = Rewards::new();
    let relayer = sym("relayer");
    let other = sym("other");
    rewards.add_to_balance(&relayer, 5);
    rewards.add_to_balance(&other, 100);
    rewards.add_to_balance(&relayer, -2);
    rewards.add_to_balance(&relayer, 7);
    assert_eq!(rewards.get_balance(&relayer), 10);
    rewards.add_to_balance(&relayer, i128::MIN);
    rewards.add_to_balance(&relayer, i128::MIN);
    assert_eq!(rewards.get_balance(&relayer), i128::MIN);
    assert_eq!(rewards.get_balance(&other), 100);
}
