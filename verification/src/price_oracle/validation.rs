//! Batch validation and index pricing over borrowed asset lists.

use vstd::prelude::*;
use crate::analytics::{div_toward_zero, lemma_div_toward_zero_between};
use crate::auth::address_views;
use crate::keyed_map::KeyedMap;
use crate::price_oracle::error::{oracle_fails_with, OracleError};
use crate::price_oracle::types::{AssetRegistrationConfig, AssetWeight};
use vstd::arithmetic::mul::{lemma_mul_inequality, lemma_mul_is_distributive_add};

verus! {

/// Most assets one `clear_assets` call may clear.
pub const MAX_CLEAR_ASSETS: u32 = 20;

/// A registration's bounds are positive and ordered, and its floor, if
/// any, is positive and no higher than the maximum.
pub open spec fn config_bounds_ok(config: AssetRegistrationConfig) -> bool {
    &&& config.min_price > 0
    &&& config.max_price > 0
    &&& config.min_price <= config.max_price
    &&& config.price_floor matches Some(floor) ==> 0 < floor <= config.max_price
}

/// A registration passes exactly when both bounds are positive, the minimum
/// is at most the maximum, and a floor, where there is one, is positive and
/// at most the maximum; a floor below the minimum is accepted.
pub proof fn lemma_config_acceptance(config: AssetRegistrationConfig)
    ensures
        config_bounds_ok(config) <==> (0 < config.min_price && 0 < config.max_price
            && config.min_price <= config.max_price && (config.price_floor is None || (0
            < config.price_floor->Some_0 && config.price_floor->Some_0 <= config.max_price))),
{
}

/// Validate a batch of asset registration configs: the batch is non-empty,
/// the maximum deviation lies in (0, 10 000] basis points, and every config
/// has consistent bounds.
pub fn validate_asset_registration_configs(
    configs: &Vec<AssetRegistrationConfig>,
    max_deviation_bps: i128,
) -> (r: Result<(), OracleError>)
    ensures
        configs@.len() == 0 ==> oracle_fails_with(r, OracleError::InvalidAssetConfig),
        configs@.len() > 0 && !(0 < max_deviation_bps <= 10_000) ==> oracle_fails_with(
            r,
            OracleError::InvalidMaxDeviation,
        ),
        configs@.len() > 0 && 0 < max_deviation_bps <= 10_000 && !(forall|i: int|
            0 <= i < configs@.len() ==> #[trigger] config_bounds_ok(configs@[i])) ==> oracle_fails_with(
            r,
            OracleError::InvalidPriceBounds,
        ),
        r is Ok <==> configs@.len() > 0 && 0 < max_deviation_bps <= 10_000 && forall|i: int|
            0 <= i < configs@.len() ==> #[trigger] config_bounds_ok(configs@[i]),
{
    if configs.len() == 0 {
        return Err(OracleError::InvalidAssetConfig);
    }
    if max_deviation_bps <= 0 || max_deviation_bps > 10_000 {
        return Err(OracleError::InvalidMaxDeviation);
    }
    let mut i: usize = 0;
    while i < configs.len()
        invariant
            i <= configs@.len(),
            configs@.len() > 0,
            0 < max_deviation_bps <= 10_000,
            forall|j: int| 0 <= j < i ==> #[trigger] config_bounds_ok(configs@[j]),
        decreases configs@.len() - i,
    {
        let config = &configs[i];
        if config.min_price <= 0 || config.max_price <= 0 || config.min_price > config.max_price {
            assert(!config_bounds_ok(configs@[i as int]));
            return Err(OracleError::InvalidPriceBounds);
        }
        match config.price_floor {
            Some(price_floor) => {
                if price_floor <= 0 || price_floor > config.max_price {
                    assert(!config_bounds_ok(configs@[i as int]));
                    return Err(OracleError::InvalidPriceBounds);
                }
            },
            None => {},
        }
        i = i + 1;
    }
    Ok(())
}

/// What the host knows of one index component: whether the asset is tracked,
/// and the outcome of looking up its verified price.
#[derive(Clone, Copy, Debug, PartialEq, Eq)]
pub struct AssetQuote {
    pub is_tracked: bool,
    pub price: Result<i128, OracleError>,
}

/// Adds one component to the running (weighted price, weight) totals: the
/// asset must be tracked, its weight non-zero and its price known; the
/// weighted price and the running total must fit in `i128`. The weight
/// total is kept exactly.
pub open spec fn index_step(
    acc: Result<(int, int), OracleError>,
    component: AssetWeight,
    quote: AssetQuote,
) -> Result<(int, int), OracleError> {
    match acc {
        Err(e) => Err(e),
        Ok((total_price, total_weight)) => if !quote.is_tracked {
            Err(OracleError::AssetNotFound)
        } else if component.weight == 0 {
            Err(OracleError::InvalidWeight)
        } else {
            match quote.price {
                Err(e) => Err(e),
                Ok(price) => {
                    let weighted = price * component.weight;
                    if weighted < i128::MIN || weighted > i128::MAX {
                        Err(OracleError::InvalidPrice)
                    } else if total_price + weighted < i128::MIN || total_price + weighted
                        > i128::MAX {
                        Err(OracleError::InvalidPrice)
                    } else {
                        Ok((total_price + weighted, total_weight + component.weight))
                    }
                },
            }
        },
    }
}

/// The running totals after the first `n` components.
pub open spec fn index_totals(
    components: Seq<AssetWeight>,
    quotes: Seq<AssetQuote>,
    n: nat,
) -> Result<(int, int), OracleError>
    decreases n,
{
    if n == 0 {
        Ok((0, 0))
    } else {
        index_step(
            index_totals(components, quotes, (n - 1) as nat),
            components[n - 1],
            quotes[n - 1],
        )
    }
}

/// The weighted index price: total weighted price over total weight,
/// rounded toward zero; `AssetNotFound` for an empty basket.
pub open spec fn index_price(components: Seq<AssetWeight>, quotes: Seq<AssetQuote>) -> Result<
    i128,
    OracleError,
> {
    if components.len() == 0 {
        Err(OracleError::AssetNotFound)
    } else {
        match index_totals(components, quotes, components.len()) {
            Err(e) => Err(e),
            Ok((total_price, total_weight)) => if total_weight == 0 {
                Err(OracleError::InvalidWeight)
            } else {
                Ok(div_toward_zero(total_price, total_weight) as i128)
            },
        }
    }
}

proof fn lemma_index_error_persists(
    components: Seq<AssetWeight>,
    quotes: Seq<AssetQuote>,
    k: nat,
    n: nat,
)
    requires
        k <= n,
        index_totals(components, quotes, k) is Err,
    ensures
        index_totals(components, quotes, n) == index_totals(components, quotes, k),
    decreases n - k,
{
    if k < n {
        lemma_index_error_persists(components, quotes, k, (n - 1) as nat);
    }
}

/// Sum of `price * weight` over the first `n` components, each at its own
/// quoted price and its own weight.
pub open spec fn basket_weighted_sum(
    components: Seq<AssetWeight>,
    quotes: Seq<AssetQuote>,
    n: nat,
) -> int
    decreases n,
{
    if n == 0 {
        0
    } else {
        basket_weighted_sum(components, quotes, (n - 1) as nat) + (quotes[n - 1].price->Ok_0 as int)
            * (components[n - 1].weight as int)
    }
}

/// Sum of the weights of the first `n` components.
pub open spec fn basket_weight(components: Seq<AssetWeight>, n: nat) -> int
    decreases n,
{
    if n == 0 {
        0
    } else {
        basket_weight(components, (n - 1) as nat) + components[n - 1].weight as int
    }
}

/// Whenever the running totals succeed, they are exactly the sum of each
/// component's price times its own weight and the sum of the weights.
pub proof fn lemma_index_totals_exact(
    components: Seq<AssetWeight>,
    quotes: Seq<AssetQuote>,
    n: nat,
)
    requires
        n <= components.len(),
        components.len() == quotes.len(),
        index_totals(components, quotes, n) is Ok,
    ensures
        index_totals(components, quotes, n) == Ok::<(int, int), OracleError>(
            (basket_weighted_sum(components, quotes, n), basket_weight(components, n)),
        ),
    decreases n,
{
    if n > 0 {
        if index_totals(components, quotes, (n - 1) as nat) is Err {
            lemma_index_error_persists(components, quotes, (n - 1) as nat, n);
        } else {
            lemma_index_totals_exact(components, quotes, (n - 1) as nat);
        }
    }
}

/// The index price is the weighted mean of the quoted prices, each weighted
/// by its component's own weight, rounded toward zero.
pub proof fn lemma_index_price_is_weighted_mean(components: Seq<AssetWeight>, quotes: Seq<AssetQuote>)
    requires
        components.len() == quotes.len(),
    ensures
        index_price(components, quotes) matches Ok(v) ==> basket_weight(components, components.len()) > 0
            && v == div_toward_zero(
            basket_weighted_sum(components, quotes, components.len()),
            basket_weight(components, components.len()),
        ),
{
    if components.len() > 0 && index_totals(components, quotes, components.len()) is Ok {
        lemma_index_totals_exact(components, quotes, components.len());
        lemma_basket_weight_nonneg(components, components.len());
    }
}

proof fn lemma_basket_weight_nonneg(components: Seq<AssetWeight>, n: nat)
    ensures
        basket_weight(components, n) >= 0,
    decreases n,
{
    if n > 0 {
        lemma_basket_weight_nonneg(components, (n - 1) as nat);
    }
}

/// Every quoted price lies in `lo..=hi`.
pub open spec fn quotes_between(quotes: Seq<AssetQuote>, lo: int, hi: int) -> bool {
    forall|i: int|
        0 <= i < quotes.len() ==> ((#[trigger] quotes[i]).price matches Ok(p) ==> lo <= p <= hi)
}

proof fn lemma_index_totals_between(
    components: Seq<AssetWeight>,
    quotes: Seq<AssetQuote>,
    n: nat,
    lo: int,
    hi: int,
)
    requires
        n <= components.len(),
        components.len() == quotes.len(),
        quotes_between(quotes, lo, hi),
        index_totals(components, quotes, n) is Ok,
    ensures
        index_totals(components, quotes, n) matches Ok((p, w)) ==> 0 <= w && lo * w <= p <= hi
            * w,
    decreases n,
{
    if n > 0 {
        let prev = index_totals(components, quotes, (n - 1) as nat);
        if prev is Err {
            lemma_index_error_persists(components, quotes, (n - 1) as nat, n);
        } else {
            lemma_index_totals_between(components, quotes, (n - 1) as nat, lo, hi);
            let c = components[n - 1].weight as int;
            let q = quotes[n - 1];
            assert(q.price is Ok);
            let x = q.price->Ok_0 as int;
            assert(lo <= x <= hi);
            lemma_mul_inequality(lo, x, c);
            lemma_mul_inequality(x, hi, c);
            let w0 = prev->Ok_0.1;
            lemma_mul_is_distributive_add(lo, w0, c);
            lemma_mul_is_distributive_add(hi, w0, c);
            assert(lo * c == c * lo && x * c == c * x && hi * c == c * hi) by (nonlinear_arith);
        }
    }
}

/// The weighted index price lies between the lowest and the highest quoted
/// price of its components.
pub proof fn lemma_index_price_between(
    components: Seq<AssetWeight>,
    quotes: Seq<AssetQuote>,
    lo: int,
    hi: int,
)
    requires
        components.len() == quotes.len(),
        quotes_between(quotes, lo, hi),
    ensures
        index_price(components, quotes) matches Ok(v) ==> lo <= v <= hi,
{
    if components.len() > 0 && index_totals(components, quotes, components.len()) is Ok {
        lemma_index_totals_between(components, quotes, components.len(), lo, hi);
        let (p, w) = index_totals(components, quotes, components.len())->Ok_0;
        if w != 0 {
            lemma_div_toward_zero_between(p, w, lo, hi);
        }
    }
}

/// Compute the weighted index price of a basket from the host's quotes of
/// its components, `quotes[i]` standing for `components[i]`.
pub fn calculate_index_price(components: &Vec<AssetWeight>, quotes: &Vec<AssetQuote>) -> (r: Result<
    i128,
    OracleError,
>)
    requires
        quotes@.len() == components@.len(),
    ensures
        r == index_price(components@, quotes@),
{
    if components.len() == 0 {
        return Err(OracleError::AssetNotFound);
    }
    let n = components.len();
    let mut total_weighted_price: i128 = 0;
    let mut total_weight: i128 = 0;
    let mut i: usize = 0;
    while i < n
        invariant
            n == components@.len(),
            quotes@.len() == n,
            i <= n,
            0 <= total_weight <= i * 0xffff_ffffint,
            index_totals(components@, quotes@, i as nat) == Ok::<(int, int), OracleError>(
                (total_weighted_price as int, total_weight as int),
            ),
        decreases n - i,
    {
        let component = &components[i];
        let quote = quotes[i];
        proof {
            assert(index_totals(components@, quotes@, (i + 1) as nat) == index_step(
                index_totals(components@, quotes@, i as nat),
                components@[i as int],
                quotes@[i as int],
            ));
        }
        if !quote.is_tracked {
            proof {
                lemma_index_error_persists(components@, quotes@, (i + 1) as nat, n as nat);
            }
            return Err(OracleError::AssetNotFound);
        }
        if component.weight == 0 {
            proof {
                lemma_index_error_persists(components@, quotes@, (i + 1) as nat, n as nat);
            }
            return Err(OracleError::InvalidWeight);
        }
        let price = match quote.price {
            Ok(p) => p,
            Err(e) => {
                proof {
                    lemma_index_error_persists(components@, quotes@, (i + 1) as nat, n as nat);
                }
                return Err(e);
            },
        };
        let weight_i128 = component.weight as i128;
        let weighted_val = match price.checked_mul(weight_i128) {
            Some(w) => w,
            None => {
                proof {
                    lemma_index_error_persists(components@, quotes@, (i + 1) as nat, n as nat);
                }
                return Err(OracleError::InvalidPrice);
            },
        };
        total_weighted_price = match total_weighted_price.checked_add(weighted_val) {
            Some(t) => t,
            None => {
                proof {
                    lemma_index_error_persists(components@, quotes@, (i + 1) as nat, n as nat);
                }
                return Err(OracleError::InvalidPrice);
            },
        };
        proof {
            assert((i + 1) * 0xffff_ffffint <= 0x1_0000_0000_0000_0000int * 0xffff_ffffint)
                by (nonlinear_arith)
                requires
                    i + 1 <= 0x1_0000_0000_0000_0000int,
            ;
        }
        total_weight = total_weight + weight_i128;
        i = i + 1;
    }
    if total_weight == 0 {
        return Err(OracleError::InvalidWeight);
    }
    match total_weighted_price.checked_div(total_weight) {
        Some(q) => Ok(q),
        None => Err(OracleError::PriceMathOverflow),
    }
}

/// Remove the stored entries of a batch of assets; at most
/// `MAX_CLEAR_ASSETS` per call.
pub fn clear_assets<V>(prices: &mut KeyedMap<V>, assets: &Vec<Vec<u8>>) -> (r: Result<(), OracleError>)
    ensures
        r is Ok <==> assets@.len() <= MAX_CLEAR_ASSETS,
        r is Err ==> oracle_fails_with(r, OracleError::TooManyAssets) && final(prices)@ == old(
            prices,
        )@,
        r is Ok ==> final(prices)@ == old(prices)@.remove_keys(address_views(assets@).to_set()),
{
    if assets.len() > MAX_CLEAR_ASSETS as usize {
        return Err(OracleError::TooManyAssets);
    }
    let ghost views = address_views(assets@);
    let mut i: usize = 0;
    while i < assets.len()
        invariant
            i <= assets@.len(),
            views == address_views(assets@),
            prices@ == old(prices)@.remove_keys(views.take(i as int).to_set()),
        decreases assets@.len() - i,
    {
        prices.remove(&assets[i]);
        proof {
            let before = views.take(i as int);
            let after = views.take(i + 1);
            assert forall|x: Seq<u8>| #[trigger] after.to_set().contains(x) <==> before.to_set().insert(
                views[i as int],
            ).contains(x) by {
                if after.contains(x) {
                    let k = choose|k: int| 0 <= k < after.len() && after[k] == x;
                    if k < i {
                        assert(before[k] == x);
                    }
                }
                if before.contains(x) {
                    let k = choose|k: int| 0 <= k < before.len() && before[k] == x;
                    assert(after[k] == x);
                }
                if x == views[i as int] {
                    assert(after[i as int] == x);
                }
            }
            assert(after.to_set() =~= before.to_set().insert(views[i as int]));
            assert(prices@ =~= old(prices)@.remove_keys(views.take(i + 1).to_set()));
        }
        i = i + 1;
    }
    assert(views.take(assets@.len() as int) =~= views);
    Ok(())
}

} // verus!
