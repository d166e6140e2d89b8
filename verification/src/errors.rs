//! Error taxonomy and approval outcomes.
use vstd::prelude::*;

verus! {

/// Why a call was rejected.
///
/// Every validation error is surfaced before any buffer byte is written; the
/// one exception is `ActionFailed`, which is reported after the approval bit
/// was already durably recorded (the quorum survives an action failure).
#[derive(Clone, Copy, Debug, PartialEq, Eq, Structural)]
pub enum MultisigError {
    /// Malformed signer set: wrong version, oversized, or an impossible
    /// threshold.
    InvalidConfig,
    /// A record buffer is too small or cannot be decoded.
    CorruptRecord,
    /// The calling identity is not in the signer set.
    NotASigner,
    /// The caller is a signer but did not authenticate this call.
    MissingSignature,
    /// The stored payload no longer matches the digest taken at creation.
    DigestMismatch,
    /// The presented config or target is not the one the proposal is bound to.
    AuthorityMismatch,
    /// The proposal is already sealed.
    AlreadyExecuted,
    /// Too few distinct authenticated signers were presented at once.
    ThresholdNotMet,
    /// The injected action reported failure; approvals remain recorded.
    ActionFailed,
    /// A double-execution was attempted. The verified core never produces
    /// this; it exists for embedders whose own dispatch detects the state.
    InternalInvariantViolation,
}

/// What an accepted approval call reports.
///
/// `approvals_now` is the number of distinct approving signers after the
/// call; `executed` tells whether the gated action has run and the proposal
/// is sealed, so a caller can distinguish "approval recorded, action still
/// pending" from "action ran and succeeded".
#[derive(Clone, Copy, Debug, PartialEq, Eq, Structural)]
pub enum Outcome {
    /// The caller's approval bit was newly set.
    Approved { approvals_now: u8, executed: bool },
    /// The caller had already approved; the bitmask is unchanged.
    AlreadyApproved { approvals_now: u8, executed: bool },
}

} // verus!
