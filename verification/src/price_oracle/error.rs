use vstd::prelude::*;

verus! {

/// Errors of the price oracle's validation helpers and price lookups.
#[derive(Copy, Clone, Debug, PartialEq, Eq, Structural, PartialOrd, Ord)]
pub enum OracleError {
    /// Asset does not exist in the price oracle, or its price is stale.
    AssetNotFound,
    /// An index component carries no weight.
    InvalidWeight,
    /// A weighted price does not fit in an `i128`.
    InvalidPrice,
    /// Price arithmetic overflowed.
    PriceMathOverflow,
    /// A registration batch is empty.
    InvalidAssetConfig,
    /// The maximum deviation lies outside (0, 10 000] basis points.
    InvalidMaxDeviation,
    /// A registration's price bounds or floor are inconsistent.
    InvalidPriceBounds,
    /// A clearing batch names more assets than allowed.
    TooManyAssets,
    /// A query fee is configured without a fee token.
    FeeTokenNotSet,
}

/// `r` failed with exactly the error `e`.
pub open spec fn oracle_fails_with<T>(r: Result<T, OracleError>, e: OracleError) -> bool {
    r == Err::<T, OracleError>(e)
}

} // verus!
