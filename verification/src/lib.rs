//! Verified core of a Soroban price-oracle deployment: stake-weighted
//! consensus arithmetic, a time-locked upgrade and governance state machine,
//! nonce-guarded admin actions, and the analytics smoothing math.

pub mod error;
pub mod host;
pub mod keyed_map;
pub mod consensus;
pub mod nonce;
pub mod contract;
pub mod auth;
pub mod models;
pub mod validation;
pub mod price_oracle;
pub mod analytics;

pub use error::ContractError;
