//! The price oracle's shared types, batch validation helpers and relayer
//! reward accounting.

pub mod error;
pub mod types;
pub mod validation;
pub mod rewards;
