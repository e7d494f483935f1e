use vstd::prelude::*;

verus! {

/// Errors returned by the time-locked upgrade contract and its helpers.
#[derive(Copy, Clone, Debug, PartialEq, Eq, Structural, PartialOrd, Ord)]
pub enum ContractError {
    AlreadyInitialized,
    NotInitialized,
    NotAdmin,
    NoPendingUpgrade,
    UpgradeTimelockNotSatisfied,
    InvalidHeartbeatInterval,
    InvalidNonce,
    AlreadyRegistered,
    NotRegistered,
    InvalidStakeAmount,
    Overflow,
    Unauthorized,
    TargetNotAdmin,
    ProposalAlreadyActive,
    NoActiveProposal,
    AlreadyVoted,
    ThresholdNotReached,
    SignatureExpired,
    InvalidSaltSignature,
    LedgerGapNotSatisfied,
    PremiumPoolAccessDenied,
}

/// `Ok` with `n` where `n` fits in a `u64`, else `Err(Overflow)`.
pub open spec fn u64_or_overflow(n: int) -> Result<u64, ContractError> {
    if 0 <= n <= u64::MAX {
        Ok(n as u64)
    } else {
        Err(ContractError::Overflow)
    }
}

/// `r` failed with exactly the error `e`.
pub open spec fn fails_with<T>(r: Result<T, ContractError>, e: ContractError) -> bool {
    r == Err::<T, ContractError>(e)
}

} // verus!
