use upgrade_governance::errors::UpgradeError;
use upgrade_governance::migration::{MigrationManager, UserAccountMigrator};
use upgrade_governance::proposal::{ProposalManager, ProposalParams, ProposalStatus};
use upgrade_governance::rollback::{RollbackHandler, RollbackStage};
use upgrade_governance::security::SecurityAuditor;

const HOUR: i64 = 60 * 60;
const DAY_48H: i64 = 48 * HOUR;

fn passing_audit() -> upgrade_governance::security::AuditResult {
    let auditor = SecurityAuditor;
    let binary = b"candidate program".to_vec();
    let hash = SecurityAuditor::calculate_program_hash(&binary);
    let description =
        b"Upgrade the matching engine; changes were reviewed by two maintainers and audited."
            .to_vec();
    let audit = auditor.audit_proposal(&hash, &hash, true, false, &description);
    assert!(audit.can_proceed());
    audit
}

#[test]
fn test_proposal_flow() {
    // threshold 3 of 5 members, 48 h delay, proposed at t0
    let t0: i64 = 1_000;
    let mut manager = ProposalManager::new(vec![1, 2, 3, 4, 5], 3).unwrap();
    let id = manager
        .propose_upgrade(
            ProposalParams {
                proposer: 1,
                program: 7,
                new_buffer: 9,
                description: b"Test upgrade".to_vec(),
                timelock: DAY_48H,
            },
            t0,
        )
        .unwrap();
    let audit = passing_audit();

    // two approvals are not quorum
    assert_eq!(manager.approve_upgrade(id, 1).unwrap(), 1);
    assert_eq!(manager.approve_upgrade(id, 2).unwrap(), 2);
    assert_eq!(
        manager.execute_upgrade(id, t0 + HOUR, &audit),
        Err(UpgradeError::InsufficientApprovals { current: 2, required: 3 })
    );

    // the third approval meets quorum, but the timelock still gates
    assert_eq!(manager.approve_upgrade(id, 3).unwrap(), 3);
    match manager.execute_upgrade(id, t0 + HOUR, &audit) {
        Err(UpgradeError::TimelockActive { remaining_seconds }) => {
            assert!(remaining_seconds > 0);
            assert_eq!(remaining_seconds, DAY_48H - HOUR);
        }
        other => panic!("expected TimelockActive, got {:?}", other),
    }

    // past the 48 h window the upgrade executes
    manager.check_execution(id, t0 + DAY_48H, &audit).unwrap();
    manager.execute_upgrade(id, t0 + DAY_48H, &audit).unwrap();
    let status = manager.get_proposal_status(id).unwrap();
    assert_eq!(status.status, ProposalStatus::Executed);
    assert_eq!(status.executed_at, Some(t0 + DAY_48H));

    // terminal: nothing moves it again
    assert_eq!(
        manager.execute_upgrade(id, t0 + DAY_48H + 1, &audit),
        Err(UpgradeError::AlreadyExecuted)
    );
    assert_eq!(manager.cancel_upgrade(id), Err(UpgradeError::AlreadyExecuted));
}

#[test]
fn test_multisig_approval() {
    // approval is idempotent per approver
    let mut manager = ProposalManager::new(vec![1, 2, 3, 4, 5], 3).unwrap();
    let id = manager
        .propose_upgrade(
            ProposalParams {
                proposer: 1,
                program: 7,
                new_buffer: 9,
                description: b"Test upgrade".to_vec(),
                timelock: DAY_48H,
            },
            1_000,
        )
        .unwrap();
    assert_eq!(manager.approve_upgrade(id, 2).unwrap(), 1);
    assert_eq!(manager.approve_upgrade(id, 2), Err(UpgradeError::AlreadyApproved));
    assert_eq!(manager.get_proposal_status(id).unwrap().approvals, 1);

    // every distinct member's approval is counted exactly once
    assert_eq!(manager.approve_upgrade(id, 1).unwrap(), 2);
    assert_eq!(manager.approve_upgrade(id, 3).unwrap(), 3);
    assert_eq!(manager.approve_upgrade(id, 4).unwrap(), 4);
    assert_eq!(manager.approve_upgrade(id, 5).unwrap(), 5);
    assert_eq!(manager.get_proposal_status(id).unwrap().approvals, 5);

    // an outsider is refused
    assert_eq!(manager.approve_upgrade(id, 99), Err(UpgradeError::NotMultisigMember));
}

#[test]
fn integration_test_test_timelock_enforcement() {
    // a delay below the 48 h floor is rejected at creation
    let mut manager = ProposalManager::new(vec![1, 2, 3, 4, 5], 3).unwrap();
    let r = manager.propose_upgrade(
        ProposalParams {
            proposer: 1,
            program: 7,
            new_buffer: 9,
            description: b"Test upgrade".to_vec(),
            timelock: DAY_48H - 1,
        },
        1_000,
    );
    assert_eq!(
        r,
        Err(UpgradeError::TimelockTooShort { minimum_seconds: DAY_48H })
    );
    assert!(manager.list_proposals().is_empty());
}

#[test]
fn test_migration_process() {
    let mut manager = MigrationManager::new();
    let migrator = UserAccountMigrator::new();
    let records = vec![vec![1u8; 48], vec![2u8; 40], vec![3u8; 8]];
    let id = manager.start_migration(records.len(), 100).unwrap();
    manager.migrate_accounts_batch(id, &records, &migrator, 160).unwrap();
    let progress = manager.get_progress_of(id).unwrap();
    assert_eq!(progress.migrated_accounts + progress.failed_accounts, progress.total_accounts);
    assert_eq!(progress.migrated_accounts, 2);
}

#[test]
fn test_rollback_mechanism() {
    // a failure at the return-funds stage halts the pipeline: no redeploy
    let handler = RollbackHandler::new();
    let mut pipeline = handler.begin_rollback(17, 3);
    assert_eq!(pipeline.current_stage(), Some(RollbackStage::PauseIntake));
    assert_eq!(
        pipeline.record_stage_result(true),
        Some(RollbackStage::CloseAllPositions)
    );
    assert_eq!(pipeline.record_stage_result(true), Some(RollbackStage::ReturnFunds));
    assert_eq!(pipeline.record_stage_result(false), None);
    assert_eq!(pipeline.failed_stage(), Some(RollbackStage::ReturnFunds));
    assert!(!pipeline.is_complete());
    assert_eq!(pipeline.current_stage(), None);
}

#[test]
fn test_rollback_completion_recorded() {
    let mut handler = RollbackHandler::new();
    let mut pipeline = handler.begin_rollback(17, 3);
    for _ in 0..5 {
        pipeline.record_stage_result(true);
    }
    assert!(pipeline.is_complete());
    handler.record_completed_rollback(&pipeline, b"unsafe upgrade".to_vec(), 12, true);
    let events = handler.events();
    assert_eq!(events.len(), 1);
    assert_eq!(events[0].proposal_id, 17);
    assert_eq!(events[0].prior_program, 3);
    assert_eq!(events[0].positions_closed, 12);
    assert!(events[0].funds_returned);
}

#[test]
fn test_cancel_blocks_later_operations() {
    // cancel after one approval; every later approve and execute fails
    let mut manager = ProposalManager::new(vec![1, 2, 3, 4, 5], 3).unwrap();
    let id = manager
        .propose_upgrade(
            ProposalParams {
                proposer: 1,
                program: 7,
                new_buffer: 9,
                description: b"Test upgrade".to_vec(),
                timelock: DAY_48H,
            },
            1_000,
        )
        .unwrap();
    manager.approve_upgrade(id, 2).unwrap();
    manager.cancel_upgrade(id).unwrap();

    assert_eq!(manager.approve_upgrade(id, 3), Err(UpgradeError::AlreadyCancelled));
    let audit = passing_audit();
    assert_eq!(
        manager.execute_upgrade(id, 1_000 + DAY_48H, &audit),
        Err(UpgradeError::AlreadyCancelled)
    );
    assert_eq!(
        manager.get_proposal_status(id).unwrap().status,
        ProposalStatus::Cancelled
    );
}
