//! Records exchanged with price-oracle consumers. Addresses and asset symbols
//! are byte strings.

use vstd::prelude::*;

verus! {

/// Decimal metadata for an asset pair: the native precision of the base and
/// quote assets, so that prices can be normalized to 9 fixed-point decimals.
#[derive(Clone, Copy, Debug, PartialEq, Eq, Structural)]
pub struct AssetMeta {
    /// Native decimal precision of the base asset (e.g. 7 for XLM).
    pub base_decimals: u32,
    /// Native decimal precision of the quote asset (e.g. 2 for NGN).
    pub quote_decimals: u32,
}

/// Lightweight metadata for an asset.
#[derive(Clone, Debug, PartialEq, Eq)]
pub struct AssetInfo {
    /// Short human-readable asset name, at most 32 characters.
    pub name: Vec<u8>,
    pub base_decimals: u32,
    pub quote_decimals: u32,
}

/// Configuration for atomic asset registration and initialization.
#[derive(Clone, Debug, PartialEq, Eq)]
pub struct AssetRegistrationConfig {
    pub asset: Vec<u8>,
    pub name: Vec<u8>,
    pub base_decimals: u32,
    pub quote_decimals: u32,
    /// Minimum allowed price for the asset pair.
    pub min_price: i128,
    /// Maximum allowed price for the asset pair.
    pub max_price: i128,
    /// Optional absolute floor price for the asset.
    pub price_floor: Option<i128>,
}

/// One component of a price index.
#[derive(Clone, Debug, PartialEq, Eq)]
pub struct AssetWeight {
    pub asset: Vec<u8>,
    pub weight: u32,
}

/// A stored price with its provenance.
#[derive(Clone, Debug, PartialEq, Eq)]
pub struct PriceData {
    /// The price value stored as a scaled integer.
    pub price: i128,
    /// Ledger timestamp when this price was written.
    pub timestamp: u64,
    /// Ledger sequence number of this price write.
    pub ledger_sequence: u32,
    /// Address that provided the price update.
    pub provider: Vec<u8>,
    /// Number of decimals of the price value.
    pub decimals: u32,
    /// Confidence score (0-100, higher is more confident).
    pub confidence_score: u32,
    /// Time-to-live in seconds of this price.
    pub ttl: u64,
}

/// A simplified price entry for external consumers.
#[derive(Clone, Copy, Debug, PartialEq, Eq, Structural)]
pub struct PriceEntry {
    pub price: i128,
    pub timestamp: u64,
    pub decimals: u32,
}

/// Full price payload returned to consumers with freshness status.
#[derive(Clone, Debug, PartialEq, Eq)]
pub struct PriceDataWithStatus {
    pub data: PriceData,
    pub is_stale: bool,
}

/// Lightweight price payload returned to consumers with freshness status.
#[derive(Clone, Copy, Debug, PartialEq, Eq, Structural)]
pub struct PriceEntryWithStatus {
    pub price: i128,
    pub timestamp: u64,
    pub is_stale: bool,
}

/// Min/max price bounds for an asset to prevent fat-finger errors.
#[derive(Clone, Copy, Debug, PartialEq, Eq, Structural)]
pub struct PriceBounds {
    pub min_price: i128,
    pub max_price: i128,
}

/// A recent activity event for the dashboard feed.
#[derive(Clone, Debug, PartialEq, Eq)]
pub struct RecentEvent {
    pub event_type: Vec<u8>,
    pub asset: Vec<u8>,
    pub price: i128,
    pub timestamp: u64,
}

/// A single relayer price submission within the current ledger buffer.
#[derive(Clone, Debug, PartialEq, Eq)]
pub struct PriceBufferEntry {
    pub price: i128,
    pub provider: Vec<u8>,
    pub timestamp: u64,
}

/// Submissions of several relayers for median calculation.
#[derive(Clone, Debug, PartialEq, Eq)]
pub struct PriceBuffer {
    pub entries: Vec<PriceBufferEntry>,
    /// The ledger sequence number this buffer belongs to.
    pub ledger_sequence: u32,
    pub decimals: u32,
    /// Time-to-live in seconds of this buffer.
    pub ttl: u64,
}

/// Health status of the oracle for the admin dashboard.
#[derive(Clone, Copy, Debug, PartialEq, Eq, Structural)]
pub struct OracleHealth {
    /// Number of active relayers (whitelisted providers).
    pub active_relayers: u32,
    /// Whether the contract is currently paused.
    pub paused: bool,
    /// Total number of tracked assets.
    pub total_assets: u32,
    /// Current ledger sequence number.
    pub last_ledger: u32,
}

/// Payload sent to subscribed contracts when a price is updated.
#[derive(Clone, Debug, PartialEq, Eq)]
pub struct PriceUpdatePayload {
    pub asset: Vec<u8>,
    /// The new price, normalized to 9 decimal places.
    pub price: i128,
    pub timestamp: u64,
    pub provider: Vec<u8>,
    pub decimals: u32,
    pub confidence_score: u32,
}

/// Admin action types for logging.
#[derive(Clone, Copy, Debug, PartialEq, Eq, Structural)]
pub enum AdminAction {
    Initialize,
    InitAdmin,
    AddAsset,
    TransferAdminInitiated,
    TransferAdminAccepted,
    RenounceOwnership,
    RescueTokens,
    Upgrade,
    RemoveAsset,
    SetPriceFloor,
    SetPriceBounds,
    TogglePause,
    RegisterAdmin,
    RemoveAdmin,
    SelfDestruct,
    SetCouncil,
    /// Multi-sig: propose a high-impact action.
    ProposeAction,
    /// Multi-sig: vote for a proposed action.
    VoteForAction,
    /// Multi-sig: cancel a proposed action.
    CancelAction,
    /// Admin enabled the safety-checks grace-period bypass.
    EnableBypassSafetyChecks,
    /// Admin disabled the safety-checks grace-period bypass.
    DisableBypassSafetyChecks,
    /// Governance-gated slash of a malicious relayer's staked collateral.
    Slash,
    /// Admin set the insurance reserve address.
    SetInsuranceReserve,
    /// Admin set the slash token address.
    SetSlashToken,
}

/// Log entry of an admin action.
#[derive(Clone, Debug, PartialEq, Eq)]
pub struct AdminLogEntry {
    pub admin: Vec<u8>,
    pub action: AdminAction,
    pub details: String,
    pub timestamp: u64,
}

/// A proposed action waiting for multi-signature approval.
#[derive(Clone, Debug, PartialEq, Eq)]
pub struct ProposedAction {
    pub action_id: u64,
    pub action_type: AdminAction,
    /// Target address (for admin registration/removal).
    pub target: Option<Vec<u8>>,
    /// Additional data (e.g. asset symbol, wasm hash).
    pub data: String,
    pub proposed_at: u64,
    pub executed: bool,
    pub cancelled: bool,
}

} // verus!
