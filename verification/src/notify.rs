//! The kinds of event the service announces to subscribers. Delivery is a
//! caller's concern; this module owns the kinds and their wire labels.

use vstd::prelude::*;

verus! {

/// An event kind announced to subscribers.
#[derive(Debug, Clone, Copy, PartialEq, Eq, Structural)]
pub enum NotificationType {
    ProposalCreated,
    ProposalApproved,
    TimelockExpired,
    UpgradeExecuted,
    MigrationProgress,
    RollbackInitiated,
}

/// The wire label of each event kind.
pub open spec fn spec_notification_label(t: NotificationType) -> Seq<char> {
    match t {
        NotificationType::ProposalCreated => "proposal_created"@,
        NotificationType::ProposalApproved => "proposal_approved"@,
        NotificationType::TimelockExpired => "timelock_expired"@,
        NotificationType::UpgradeExecuted => "upgrade_executed"@,
        NotificationType::MigrationProgress => "migration_progress"@,
        NotificationType::RollbackInitiated => "rollback_initiated"@,
    }
}

impl NotificationType {
    /// The label under which this event kind goes out.
    pub fn as_str(&self) -> (r: &'static str)
        ensures
            r@ == spec_notification_label(*self),
    {
        match self {
            NotificationType::ProposalCreated => "proposal_created",
            NotificationType::ProposalApproved => "proposal_approved",
            NotificationType::TimelockExpired => "timelock_expired",
            NotificationType::UpgradeExecuted => "upgrade_executed",
            NotificationType::MigrationProgress => "migration_progress",
            NotificationType::RollbackInitiated => "rollback_initiated",
        }
    }
}

} // verus!
