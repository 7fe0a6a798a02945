use upgrade_governance::proposal::{ProposalManager, ProposalParams, ProposalStatus};
use upgrade_governance::timelock::TimelockManager;

const HOUR: i64 = 60 * 60;
const DAY_48H: i64 = 48 * HOUR;

fn manager_3_of_5() -> ProposalManager {
    ProposalManager::new(vec![1, 2, 3, 4, 5], 3).unwrap()
}

fn params(buffer: u64) -> ProposalParams {
    ProposalParams {
        proposer: 1,
        program: 7,
        new_buffer: buffer,
        description: b"Test upgrade".to_vec(),
        timelock: DAY_48H,
    }
}

#[test]
fn test_proposal_creation() {
    let mut manager = manager_3_of_5();
    let proposal_id = manager.propose_upgrade(params(9), 1_000).unwrap();
    assert!(proposal_id != 0);
    let proposals = manager.list_proposals();
    assert_eq!(proposals.len(), 1);
    assert_eq!(proposals[0].id, proposal_id);
    assert_eq!(proposals[0].description, b"Test upgrade".to_vec());
    assert_eq!(proposals[0].status, ProposalStatus::Proposed);
}

#[test]
fn test_proposal_approval_flow() {
    let mut manager = manager_3_of_5();
    let proposal_id = manager.propose_upgrade(params(9), 1_000).unwrap();
    manager.approve_upgrade(proposal_id, 2).unwrap();
    let status = manager.get_proposal_status(proposal_id).unwrap();
    assert_eq!(status.approvals, 1);
    assert_eq!(status.threshold, 3);
}

#[test]
fn proposal_test_test_timelock_enforcement() {
    let mut timelock = TimelockManager::new();
    let proposal_id = 42;
    let now = 1_000;
    timelock.set_timelock(proposal_id, now, 3600).unwrap();

    let expired = timelock.is_timelock_expired(proposal_id, now).unwrap();
    assert!(!expired);

    let remaining = timelock.get_remaining_time(proposal_id, now).unwrap();
    assert!(remaining > 0);
    assert_eq!(remaining, 3600);

    assert_eq!(timelock.get_timelock_end(proposal_id).unwrap(), now + 3600);
    assert!(timelock.is_timelock_expired(proposal_id, now + 3600).unwrap());
    assert_eq!(timelock.get_remaining_time(proposal_id, now + 7200).unwrap(), 0);
}

#[test]
fn test_proposal_cancellation() {
    let mut manager = manager_3_of_5();
    let proposal_id = manager.propose_upgrade(params(9), 1_000).unwrap();
    manager.cancel_upgrade(proposal_id).unwrap();
    let proposals = manager.list_proposals();
    let proposal = proposals.iter().find(|p| p.id == proposal_id).unwrap();
    assert_eq!(proposal.status, ProposalStatus::Cancelled);
}

#[test]
fn test_timelock_rearm_overwrites() {
    let mut timelock = TimelockManager::new();
    timelock.set_timelock(7, 1_000, 3_600).unwrap();
    timelock.set_timelock(7, 2_000, 7_200).unwrap();
    assert_eq!(timelock.get_timelock_end(7).unwrap(), 9_200);
}

#[test]
fn test_timelock_unknown_id() {
    let timelock = TimelockManager::new();
    assert!(matches!(
        timelock.get_remaining_time(99, 1_000),
        Err(upgrade_governance::errors::UpgradeError::ProposalNotFound(99))
    ));
}

#[test]
fn test_timelock_expiring_soon() {
    let mut timelock = TimelockManager::new();
    timelock.set_timelock(1, 1_000, 30 * 60).unwrap(); // ends within the hour
    timelock.set_timelock(2, 1_000, 10 * HOUR).unwrap(); // far off
    timelock.set_timelock(3, 1_000, 0).unwrap(); // already over
    let soon = timelock.expiring_soon(1_000, HOUR);
    assert_eq!(soon, vec![1]);
}
