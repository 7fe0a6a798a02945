use vstd::prelude::*;

use crate::migration::MigrationError;

verus! {

/// A rule of the multisig configuration that a candidate configuration breaks.
#[derive(Debug, Clone, Copy, PartialEq, Eq, Structural)]
pub enum ConfigViolation {
    TooFewMembers,
    TooManyMembers,
    ThresholdTooLow,
    ThresholdAboveMemberCount,
    ThresholdBelowMajority,
    DuplicateMembers,
}

/// Why a governance operation was refused.
#[derive(Debug, Clone, Copy, PartialEq, Eq, Structural)]
pub enum UpgradeError {
    /// The buffer reference handed to propose does not name an account.
    InvalidPubkey,
    /// No proposal with this id.
    ProposalNotFound(u64),
    /// The timelock has not elapsed yet.
    TimelockActive { remaining_seconds: i64 },
    /// Fewer distinct approvals than the proposal's threshold.
    InsufficientApprovals { current: usize, required: usize },
    /// The caller is not a member of the multisig.
    NotMultisigMember,
    /// The proposal already reached the Executed terminal state.
    AlreadyExecuted,
    /// The proposal already reached the Cancelled terminal state.
    AlreadyCancelled,
    /// This approver is already recorded for this proposal.
    AlreadyApproved,
    /// The requested delay is below the mandatory floor.
    TimelockTooShort { minimum_seconds: i64 },
    /// A multisig configuration change breaks a validation rule.
    InvalidConfig(ConfigViolation),
    /// The security audit ended Critical, so execution is forbidden.
    AuditRejected,
    /// An account handed to the auditor is malformed.
    InvalidProgramAccount,
    /// A record transformation failed during migration.
    MigrationFailed(MigrationError),
    /// The execution backend or the durable store failed; the proposal is
    /// left unchanged and the operation may be retried.
    BackendFailure,
    /// An unexpected internal limit or invariant violation, such as an
    /// exhausted id space.
    InternalError,
}

} // verus!
