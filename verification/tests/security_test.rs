use upgrade_governance::approval::ApprovalLedger;
use upgrade_governance::errors::{ConfigViolation, UpgradeError};
use upgrade_governance::monitoring::{AlertLevel, HealthStatus, MonitoringService};
use upgrade_governance::notify::NotificationType;
use upgrade_governance::proposal::{ProposalManager, ProposalParams};
use upgrade_governance::security::{
    contains_review_ack, AuditIssue, AuditSeverity, AuditWarning, SecurityAuditor,
    MIN_TIMELOCK_SECONDS,
};

#[test]
fn test_multisig_config_rules() {
    let auditor = SecurityAuditor;
    assert!(auditor.verify_multisig_config(&vec![1, 2, 3, 4, 5], 3).unwrap());
    assert_eq!(
        auditor.verify_multisig_config(&vec![1, 2], 2),
        Err(UpgradeError::InvalidConfig(ConfigViolation::TooFewMembers))
    );
    let many: Vec<u64> = (1..=21).collect();
    assert_eq!(
        auditor.verify_multisig_config(&many, 15),
        Err(UpgradeError::InvalidConfig(ConfigViolation::TooManyMembers))
    );
    assert_eq!(
        auditor.verify_multisig_config(&vec![1, 2, 3], 1),
        Err(UpgradeError::InvalidConfig(ConfigViolation::ThresholdTooLow))
    );
    assert_eq!(
        auditor.verify_multisig_config(&vec![1, 2, 3], 4),
        Err(UpgradeError::InvalidConfig(ConfigViolation::ThresholdAboveMemberCount))
    );
    assert_eq!(
        auditor.verify_multisig_config(&vec![1, 2, 3, 4, 2], 3),
        Err(UpgradeError::InvalidConfig(ConfigViolation::DuplicateMembers))
    );
    // 2 of 5 is below the majority floor of ceil(5/2) == 3
    assert_eq!(
        auditor.verify_multisig_config(&vec![1, 2, 3, 4, 5], 2),
        Err(UpgradeError::InvalidConfig(ConfigViolation::ThresholdBelowMajority))
    );
}

#[test]
fn test_timelock_floor_boundary() {
    let auditor = SecurityAuditor;
    assert!(auditor.verify_timelock(MIN_TIMELOCK_SECONDS).unwrap());
    assert_eq!(
        auditor.verify_timelock(MIN_TIMELOCK_SECONDS - 1),
        Err(UpgradeError::TimelockTooShort { minimum_seconds: MIN_TIMELOCK_SECONDS })
    );
}

#[test]
fn test_sha256_known_vectors() {
    // SHA-256 of the empty input
    let empty: [u8; 32] = [
        0xe3, 0xb0, 0xc4, 0x42, 0x98, 0xfc, 0x1c, 0x14, 0x9a, 0xfb, 0xf4, 0xc8, 0x99, 0x6f,
        0xb9, 0x24, 0x27, 0xae, 0x41, 0xe4, 0x64, 0x9b, 0x93, 0x4c, 0xa4, 0x95, 0x99, 0x1b,
        0x78, 0x52, 0xb8, 0x55,
    ];
    assert_eq!(SecurityAuditor::calculate_program_hash(&[]), empty);

    // SHA-256 of "abc"
    let abc: [u8; 32] = [
        0xba, 0x78, 0x16, 0xbf, 0x8f, 0x01, 0xcf, 0xea, 0x41, 0x41, 0x40, 0xde, 0x5d, 0xae,
        0x22, 0x23, 0xb0, 0x03, 0x61, 0xa3, 0x96, 0x17, 0x7a, 0x9c, 0xb4, 0x10, 0xff, 0x61,
        0xf2, 0x00, 0x15, 0xad,
    ];
    assert_eq!(SecurityAuditor::calculate_program_hash(b"abc"), abc);

    let auditor = SecurityAuditor;
    assert!(auditor.verify_program_hash(b"abc", &abc));
    assert!(!auditor.verify_program_hash(b"abd", &abc));
}

#[test]
fn test_onchain_program_verification() {
    let auditor = SecurityAuditor;
    // 45-byte header, then the program bytes
    let mut account = vec![0u8; 45];
    account.extend_from_slice(b"abc");
    let expected = SecurityAuditor::calculate_program_hash(b"abc");
    assert!(auditor.verify_onchain_program(&account, &expected).unwrap());
    assert_eq!(
        auditor.verify_onchain_program(&account[..44], &expected),
        Err(UpgradeError::InvalidProgramAccount)
    );
}

#[test]
fn test_audit_outcomes() {
    let auditor = SecurityAuditor;
    let binary = b"program".to_vec();
    let hash = SecurityAuditor::calculate_program_hash(&binary);
    let other = SecurityAuditor::calculate_program_hash(b"another");

    let good_description =
        b"Upgrade of the settlement path; the diff was reviewed by the core maintainers."
            .to_vec();
    let audit = auditor.audit_proposal(&hash, &hash, true, false, &good_description);
    assert!(audit.passed);
    assert_eq!(audit.severity, AuditSeverity::Pass);
    assert!(audit.can_proceed());

    // a short description without a review acknowledgment only warns
    let brief = b"hotfix".to_vec();
    let audit = auditor.audit_proposal(&hash, &hash, true, false, &brief);
    assert!(audit.passed);
    assert_eq!(audit.severity, AuditSeverity::Warning);
    assert_eq!(
        audit.warnings,
        vec![AuditWarning::DescriptionTooShort, AuditWarning::NoReviewAcknowledgment]
    );
    assert!(audit.can_proceed());

    // a hash mismatch, an unverified buffer or a vulnerable fingerprint block
    let audit = auditor.audit_proposal(&other, &hash, false, true, &good_description);
    assert!(!audit.passed);
    assert_eq!(audit.severity, AuditSeverity::Critical);
    assert_eq!(
        audit.issues,
        vec![
            AuditIssue::HashMismatch,
            AuditIssue::BufferUnverified,
            AuditIssue::KnownVulnerability
        ]
    );
    assert!(!audit.can_proceed());
}

#[test]
fn test_review_marker_is_case_insensitive() {
    assert!(contains_review_ack(&b"REVIEWED by ops".to_vec()));
    assert!(contains_review_ack(&b"was Reviewed.".to_vec()));
    assert!(!contains_review_ack(&b"in review".to_vec()));
    assert!(!contains_review_ack(&b"".to_vec()));
}

#[test]
fn test_approval_ledger_counts() {
    let mut ledger = ApprovalLedger::new();
    assert_eq!(ledger.count(1), 0);
    assert_eq!(ledger.approve(1, 10, None).unwrap(), 1);
    assert_eq!(ledger.approve(1, 11, Some(b"sig".to_vec())).unwrap(), 2);
    assert_eq!(ledger.approve(1, 10, None), Err(UpgradeError::AlreadyApproved));
    assert_eq!(ledger.count(1), 2);
    // approvals of another proposal are separate
    assert_eq!(ledger.approve(2, 10, None).unwrap(), 1);
    assert_eq!(ledger.count(2), 1);
    assert!(!ledger.quorum_met(1, 3));
    assert_eq!(ledger.approve(1, 12, None).unwrap(), 3);
    assert!(ledger.quorum_met(1, 3));
}

#[test]
fn test_monitoring_counters_and_alerts() {
    let mut monitoring = MonitoringService::new();
    monitoring.record_proposal_created();
    monitoring.record_proposal_created();
    monitoring.record_proposal_executed();
    monitoring.record_proposal_cancelled();
    monitoring.record_migration_completed();
    monitoring.record_rollback(9_000);

    let metrics = monitoring.get_metrics();
    assert_eq!(metrics.proposals_created, 2);
    assert_eq!(metrics.proposals_executed, 1);
    assert_eq!(metrics.proposals_cancelled, 1);
    assert_eq!(metrics.migrations_completed, 1);
    assert_eq!(metrics.rollbacks_initiated, 1);

    // the rollback raised a critical alert
    let alerts = monitoring.get_alerts(10);
    assert_eq!(alerts.len(), 1);
    assert_eq!(alerts[0].level, AlertLevel::Critical);
    assert_eq!(alerts[0].component, "rollback_handler");
    assert_eq!(alerts[0].timestamp, 9_000);

    monitoring.send_alert(AlertLevel::Info, "all quiet".to_string(), "system".to_string(), 9_100);
    let alerts = monitoring.get_alerts(1);
    assert_eq!(alerts.len(), 1);
    assert_eq!(alerts[0].level, AlertLevel::Info); // newest first
}

#[test]
fn test_monitoring_health() {
    let mut monitoring = MonitoringService::new();
    let component = "timelock".to_string();
    assert_eq!(monitoring.check_health(&component), HealthStatus::Healthy);
    monitoring.update_health(component.clone(), HealthStatus::Degraded, 100);
    assert_eq!(monitoring.check_health(&component), HealthStatus::Degraded);
    assert_eq!(monitoring.get_alerts(10).len(), 0);

    monitoring.update_health(component.clone(), HealthStatus::Unhealthy, 200);
    assert_eq!(monitoring.check_health(&component), HealthStatus::Unhealthy);
    let alerts = monitoring.get_alerts(10);
    assert_eq!(alerts.len(), 1);
    assert_eq!(alerts[0].level, AlertLevel::Critical);
    assert_eq!(alerts[0].component, "timelock");
}

#[test]
fn test_cancellation_rate_sweep() {
    let mut monitoring = MonitoringService::new();
    for _ in 0..4 {
        monitoring.record_proposal_created();
    }
    monitoring.record_proposal_cancelled();
    monitoring.record_proposal_cancelled();
    // 2 of 4 is not above half
    assert!(!monitoring.cancellation_rate_high());
    monitoring.check_cancellation_health(300);
    assert_eq!(monitoring.get_alerts(10).len(), 0);

    monitoring.record_proposal_cancelled();
    // 3 of 4 is
    assert!(monitoring.cancellation_rate_high());
    monitoring.check_cancellation_health(400);
    let alerts = monitoring.get_alerts(10);
    assert_eq!(alerts.len(), 1);
    assert_eq!(alerts[0].level, AlertLevel::Warning);
    assert_eq!(alerts[0].component, "monitoring");
}

#[test]
fn test_notification_labels() {
    assert_eq!(NotificationType::ProposalCreated.as_str(), "proposal_created");
    assert_eq!(NotificationType::ProposalApproved.as_str(), "proposal_approved");
    assert_eq!(NotificationType::TimelockExpired.as_str(), "timelock_expired");
    assert_eq!(NotificationType::UpgradeExecuted.as_str(), "upgrade_executed");
    assert_eq!(NotificationType::MigrationProgress.as_str(), "migration_progress");
    assert_eq!(NotificationType::RollbackInitiated.as_str(), "rollback_initiated");
}

#[test]
fn test_propose_rejects_null_buffer() {
    let mut manager = ProposalManager::new(vec![1, 2, 3, 4, 5], 3).unwrap();
    let r = manager.propose_upgrade(
        ProposalParams {
            proposer: 1,
            program: 7,
            new_buffer: 0,
            description: b"Test upgrade".to_vec(),
            timelock: MIN_TIMELOCK_SECONDS,
        },
        1_000,
    );
    assert_eq!(r, Err(UpgradeError::InvalidPubkey));
}

#[test]
fn test_unknown_proposal_is_reported() {
    let mut manager = ProposalManager::new(vec![1, 2, 3, 4, 5], 3).unwrap();
    assert_eq!(manager.approve_upgrade(77, 1), Err(UpgradeError::ProposalNotFound(77)));
    assert_eq!(manager.cancel_upgrade(77), Err(UpgradeError::ProposalNotFound(77)));
    assert!(manager.get_proposal(77).is_err());
}

#[test]
fn test_audit_rejection_blocks_execution() {
    let auditor = SecurityAuditor;
    let hash = SecurityAuditor::calculate_program_hash(b"x");
    let other = SecurityAuditor::calculate_program_hash(b"y");
    let critical = auditor.audit_proposal(&other, &hash, true, false, &b"d".to_vec());
    assert!(!critical.can_proceed());

    let mut manager = ProposalManager::new(vec![1, 2, 3, 4, 5], 3).unwrap();
    let id = manager
        .propose_upgrade(
            ProposalParams {
                proposer: 1,
                program: 7,
                new_buffer: 9,
                description: b"Test upgrade".to_vec(),
                timelock: MIN_TIMELOCK_SECONDS,
            },
            1_000,
        )
        .unwrap();
    for m in [1, 2, 3] {
        manager.approve_upgrade(id, m).unwrap();
    }
    assert_eq!(
        manager.execute_upgrade(id, 1_000 + MIN_TIMELOCK_SECONDS, &critical),
        Err(UpgradeError::AuditRejected)
    );
}
