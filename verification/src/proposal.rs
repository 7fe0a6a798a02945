//! The governance coordinator: owns the proposal lifecycle and drives the
//! approval ledger and the timelock registry through it. Every state
//! transition is guarded here; no other component mutates a proposal.
//!
//! The clock is injected: operations that depend on time take `now` (unix
//! seconds) as an argument. The timelock arms once, at creation, and is not
//! re-armed when quorum is reached.

use vstd::prelude::*;

use crate::approval::ApprovalLedger;
use crate::errors::UpgradeError;
use crate::security::{
    spec_config_ok, spec_config_violation, AuditResult, SecurityAuditor, MIN_TIMELOCK_SECONDS,
};
use crate::timelock::TimelockManager;

verus! {

#[derive(Debug, Clone, Copy, PartialEq, Eq, Structural)]
pub enum ProposalStatus {
    Proposed,
    Approved,
    TimelockActive,
    Executed,
    Cancelled,
}

/// The canonical lifecycle record of one upgrade proposal.
#[derive(Debug, Clone)]
pub struct Proposal {
    pub id: u64,
    pub proposer: u64,
    pub program: u64,
    pub new_buffer: u64,
    pub description: Vec<u8>,
    pub proposed_at: i64,
    pub timelock_until: i64,
    pub approvals: Vec<u64>,
    pub approval_threshold: u8,
    pub status: ProposalStatus,
    pub executed_at: Option<i64>,
}

/// What a caller hands to propose.
#[derive(Debug, Clone)]
pub struct ProposalParams {
    pub proposer: u64,
    pub program: u64,
    pub new_buffer: u64,
    pub description: Vec<u8>,
    /// Requested delay in seconds between creation and permitted execution.
    pub timelock: i64,
}

/// A read-only summary of one proposal's progress.
#[derive(Debug, Clone, Copy, PartialEq, Eq, Structural)]
pub struct ProposalStatusSummary {
    pub id: u64,
    pub status: ProposalStatus,
    pub approvals: usize,
    pub threshold: u8,
    pub timelock_until: i64,
    pub executed_at: Option<i64>,
}

/// Coordinates proposals through their lifecycle, composing the approval
/// ledger and the timelock registry with a fixed multisig configuration.
#[derive(Debug)]
pub struct ProposalManager {
    proposals: Vec<Proposal>,
    ledger: ApprovalLedger,
    timelock_manager: TimelockManager,
    members: Vec<u64>,
    threshold: u8,
    next_id: u64,
}

impl ProposalManager {
    pub closed spec fn spec_proposals(self) -> Seq<Proposal> {
        self.proposals@
    }

    pub closed spec fn spec_members(self) -> Seq<u64> {
        self.members@
    }

    pub closed spec fn spec_threshold(self) -> u8 {
        self.threshold
    }

    pub closed spec fn spec_next_id(self) -> u64 {
        self.next_id
    }

    pub closed spec fn spec_ledger(self) -> ApprovalLedger {
        self.ledger
    }

    pub closed spec fn spec_timelocks(self) -> TimelockManager {
        self.timelock_manager
    }

    /// Whether a proposal with this id exists.
    pub open spec fn spec_has(self, id: u64) -> bool {
        exists|i: int| 0 <= i < self.spec_proposals().len() && self.spec_proposals()[i].id == id
    }

    /// The index of this id's record (well defined under `wf()` when it exists).
    pub closed spec fn spec_pindex(self, id: u64) -> int {
        choose|i: int| 0 <= i < self.spec_proposals().len() && self.spec_proposals()[i].id == id
    }

    /// The record of this id.
    pub open spec fn spec_proposal(self, id: u64) -> Proposal {
        self.spec_proposals()[self.spec_pindex(id)]
    }

    /// The coordinator's invariant. Besides bookkeeping (distinct ids, the
    /// ledger and the timelock registry agreeing with each record), it
    /// carries the governance guarantees: an executed proposal reached its
    /// threshold and its timelock had elapsed at the execute call that set
    /// it, and every timelock spans at least the mandatory floor.
    pub closed spec fn wf(self) -> bool {
        let ps = self.spec_proposals();
        &&& self.ledger.wf()
        &&& self.timelock_manager.wf()
        &&& spec_config_ok(self.members@, self.threshold)
        &&& forall|i: int, j: int| 0 <= i < j < ps.len() ==> ps[i].id != ps[j].id
        &&& forall|i: int| 0 <= i < ps.len() ==> ps[i].id < self.next_id
        &&& forall|i: int|
            0 <= i < ps.len() ==> ps[i].approvals@ == self.ledger.spec_approvers(ps[i].id)
        &&& forall|id: u64|
            id >= self.next_id ==> self.ledger.spec_approvers(id) == Seq::<u64>::empty()
        &&& forall|i: int|
            0 <= i < ps.len() ==> self.timelock_manager.spec_contains(ps[i].id)
                && self.timelock_manager.spec_end(ps[i].id) == ps[i].timelock_until
        &&& forall|i: int, k: int|
            0 <= i < ps.len() && 0 <= k < ps[i].approvals@.len() ==> self.members@.contains(
                #[trigger] ps[i].approvals@[k],
            )
        &&& forall|i: int|
            0 <= i < ps.len() && ps[i].status == ProposalStatus::Executed ==> {
                &&& ps[i].approvals@.len() >= ps[i].approval_threshold
                &&& ps[i].executed_at matches Some(t) && t >= ps[i].timelock_until
            }
        &&& forall|i: int|
            0 <= i < ps.len() && ps[i].status != ProposalStatus::Executed ==> ps[i].executed_at
                is None
        &&& forall|i: int|
            0 <= i < ps.len() ==> 0 <= ps[i].proposed_at && ps[i].proposed_at
                + MIN_TIMELOCK_SECONDS <= ps[i].timelock_until
    }

    /// Under `wf()`, any witness index for an existing id is the chosen one.
    proof fn lemma_pindex_unique(self, id: u64)
        requires
            self.wf(),
        ensures
            forall|i: int|
                0 <= i < self.spec_proposals().len() && self.spec_proposals()[i].id == id ==> i
                    == self.spec_pindex(id),
    {
        let ps = self.spec_proposals();
        assert forall|i: int| 0 <= i < ps.len() && ps[i].id == id implies i == self.spec_pindex(
            id,
        ) by {
            let j = self.spec_pindex(id);
            assert(0 <= j < ps.len() && ps[j].id == id);
            if i != j {
                assert(ps[i].id != ps[j].id);
            }
        }
    }

    /// Two states with the same ids at the same positions resolve every id
    /// to the same record position.
    proof fn lemma_same_ids_same_index(pre: Self, post: Self)
        requires
            pre.wf(),
            post.wf(),
            pre.spec_proposals().len() == post.spec_proposals().len(),
            forall|j: int|
                0 <= j < pre.spec_proposals().len() ==> post.spec_proposals()[j].id
                    == pre.spec_proposals()[j].id,
        ensures
            forall|id: u64| post.spec_has(id) <==> pre.spec_has(id),
            forall|id: u64|
                pre.spec_has(id) ==> post.spec_pindex(id) == pre.spec_pindex(id),
    {
        assert forall|id: u64| post.spec_has(id) <==> pre.spec_has(id) by {
            if pre.spec_has(id) {
                let i = pre.spec_pindex(id);
                assert(post.spec_proposals()[i].id == id);
            }
            if post.spec_has(id) {
                let i = post.spec_pindex(id);
                assert(pre.spec_proposals()[i].id == id);
            }
        }
        assert forall|id: u64| pre.spec_has(id) implies post.spec_pindex(id) == pre.spec_pindex(
            id,
        ) by {
            let i = pre.spec_pindex(id);
            assert(post.spec_proposals()[i].id == id);
            post.lemma_pindex_unique(id);
        }
    }

    /// Builds a coordinator over a multisig configuration, refusing any
    /// configuration that breaks a rule of the auditor.
    pub fn new(members: Vec<u64>, threshold: u8) -> (r: Result<ProposalManager, UpgradeError>)
        ensures
            r is Ok <==> spec_config_ok(members@, threshold),
            !spec_config_ok(members@, threshold) ==> r == Err::<ProposalManager, UpgradeError>(
                UpgradeError::InvalidConfig(spec_config_violation(members@, threshold)),
            ),
            r matches Ok(m) ==> {
                &&& m.wf()
                &&& m.spec_proposals() == Seq::<Proposal>::empty()
                &&& m.spec_members() == members@
                &&& m.spec_threshold() == threshold
                &&& m.spec_next_id() == 1
            },
    {
        let auditor = SecurityAuditor;
        match auditor.verify_multisig_config(&members, threshold) {
            Ok(_) => {
                let manager = ProposalManager {
                    proposals: Vec::new(),
                    ledger: ApprovalLedger::new(),
                    timelock_manager: TimelockManager::new(),
                    members,
                    threshold,
                    next_id: 1,
                };
                proof {
                    assert(manager.spec_proposals() =~= Seq::<Proposal>::empty());
                }
                Ok(manager)
            },
            Err(e) => Err(e),
        }
    }

    /// The position of this id's record, if any.
    fn find_proposal_index(&self, proposal_id: u64) -> (r: Option<usize>)
        requires
            self.wf(),
        ensures
            match r {
                Some(i) => i < self.spec_proposals().len() && self.spec_proposals()[i as int].id
                    == proposal_id && i == self.spec_pindex(proposal_id),
                None => !self.spec_has(proposal_id),
            },
    {
        let n = self.proposals.len();
        for i in 0..n
            invariant
                n == self.proposals@.len(),
                self.wf(),
                forall|j: int| 0 <= j < i ==> self.proposals@[j].id != proposal_id,
        {
            if self.proposals[i].id == proposal_id {
                proof {
                    self.lemma_pindex_unique(proposal_id);
                }
                return Some(i);
            }
        }
        None
    }

    /// Whether this identity belongs to the multisig.
    fn is_member(&self, who: u64) -> (r: bool)
        ensures
            r == self.spec_members().contains(who),
    {
        let n = self.members.len();
        for i in 0..n
            invariant
                n == self.members@.len(),
                forall|j: int| 0 <= j < i ==> self.members@[j] != who,
        {
            if self.members[i] == who {
                return true;
            }
        }
        false
    }

    /// Creates a proposal: validates the buffer reference and the requested
    /// delay against the mandatory floor, arms the timelock at `now +
    /// delay`, and records the proposal as `Proposed` with no approvals.
    /// A delay below the floor is rejected here, at creation.
    pub fn propose_upgrade(&mut self, params: ProposalParams, now: i64) -> (r: Result<
        u64,
        UpgradeError,
    >)
        requires
            old(self).wf(),
            0 <= now,
            params.timelock >= MIN_TIMELOCK_SECONDS ==> now + params.timelock <= i64::MAX,
        ensures
            final(self).wf(),
            old(self).spec_next_id() == u64::MAX ==> {
                &&& r == Err::<u64, UpgradeError>(UpgradeError::InternalError)
                &&& *final(self) == *old(self)
            },
            old(self).spec_next_id() < u64::MAX ==> params.new_buffer == 0 ==> {
                &&& r == Err::<u64, UpgradeError>(UpgradeError::InvalidPubkey)
                &&& *final(self) == *old(self)
            },
            old(self).spec_next_id() < u64::MAX && params.new_buffer != 0 && params.timelock
                < MIN_TIMELOCK_SECONDS ==> {
                &&& r == Err::<u64, UpgradeError>(
                    UpgradeError::TimelockTooShort { minimum_seconds: MIN_TIMELOCK_SECONDS },
                )
                &&& *final(self) == *old(self)
            },
            old(self).spec_next_id() < u64::MAX && params.new_buffer != 0 && params.timelock
                >= MIN_TIMELOCK_SECONDS ==> {
                &&& r == Ok::<u64, UpgradeError>(old(self).spec_next_id())
                &&& final(self).spec_next_id() == old(self).spec_next_id() + 1
                &&& final(self).spec_proposals().len() == old(self).spec_proposals().len() + 1
                &&& forall|i: int|
                    0 <= i < old(self).spec_proposals().len() ==> final(self).spec_proposals()[i]
                        == old(self).spec_proposals()[i]
                &&& {
                    let p = final(self).spec_proposals().last();
                    &&& p.id == old(self).spec_next_id()
                    &&& p.proposer == params.proposer
                    &&& p.program == params.program
                    &&& p.new_buffer == params.new_buffer
                    &&& p.description == params.description
                    &&& p.proposed_at == now
                    &&& p.timelock_until == now + params.timelock
                    &&& p.approvals@.len() == 0
                    &&& p.approval_threshold == old(self).spec_threshold()
                    &&& p.status == ProposalStatus::Proposed
                    &&& p.executed_at is None
                }
                &&& final(self).spec_has(old(self).spec_next_id())
                &&& final(self).spec_pindex(old(self).spec_next_id())
                    == old(self).spec_proposals().len()
                &&& forall|id: u64|
                    old(self).spec_has(id) ==> final(self).spec_has(id)
                        && final(self).spec_pindex(id) == old(self).spec_pindex(id)
            },
            final(self).spec_members() == old(self).spec_members(),
            final(self).spec_threshold() == old(self).spec_threshold(),
    {
        if self.next_id == u64::MAX {
            return Err(UpgradeError::InternalError);
        }
        if params.new_buffer == 0 {
            return Err(UpgradeError::InvalidPubkey);
        }
        let auditor = SecurityAuditor;
        if let Err(e) = auditor.verify_timelock(params.timelock) {
            return Err(e);
        }
        let proposal_id = self.next_id;
        self.next_id = self.next_id + 1;
        if let Err(e) = self.timelock_manager.set_timelock(proposal_id, now, params.timelock) {
            proof {
                assert(false);
            }
            return Err(e);
        }
        let proposal = Proposal {
            id: proposal_id,
            proposer: params.proposer,
            program: params.program,
            new_buffer: params.new_buffer,
            description: params.description,
            proposed_at: now,
            timelock_until: now + params.timelock,
            approvals: Vec::new(),
            approval_threshold: self.threshold,
            status: ProposalStatus::Proposed,
            executed_at: None,
        };
        self.proposals.push(proposal);
        proof {
            let ps = self.spec_proposals();
            let old_ps = old(self).spec_proposals();
            assert(ps.last().approvals@ =~= Seq::<u64>::empty());
            assert(self.ledger.spec_approvers(proposal_id) == Seq::<u64>::empty());
            assert forall|i: int, j: int| 0 <= i < j < ps.len() implies ps[i].id != ps[j].id by {
                if j == ps.len() - 1 {
                    assert(old_ps[i].id < old(self).spec_next_id());
                }
            }
            assert(ps[ps.len() - 1].id == proposal_id);
            self.lemma_pindex_unique(proposal_id);
            assert forall|id: u64| old(self).spec_has(id) implies self.spec_has(id)
                && self.spec_pindex(id) == old(self).spec_pindex(id) by {
                let i = old(self).spec_pindex(id);
                assert(ps[i].id == id);
                self.lemma_pindex_unique(id);
            }
        }
        Ok(proposal_id)
    }

    /// The proposal store, the ledger and the registry all read the same in
    /// both states.
    pub open spec fn spec_unchanged(pre: ProposalManager, post: ProposalManager) -> bool {
        &&& post.spec_proposals() == pre.spec_proposals()
        &&& post.spec_ledger().spec_records() == pre.spec_ledger().spec_records()
        &&& post.spec_timelocks() == pre.spec_timelocks()
    }

    /// Records one approval. Repeating an approver's call after the first
    /// never changes anything and always fails with `AlreadyApproved`; a
    /// cancelled or executed proposal rejects every approval. On success the
    /// new count is returned, and the status flips to `TimelockActive` once
    /// the threshold is met (the timelock itself is not re-armed), else to
    /// `Approved`.
    pub fn approve_upgrade(&mut self, proposal_id: u64, approver: u64) -> (r: Result<
        usize,
        UpgradeError,
    >)
        requires
            old(self).wf(),
        ensures
            final(self).wf(),
            final(self).spec_members() == old(self).spec_members(),
            final(self).spec_threshold() == old(self).spec_threshold(),
            final(self).spec_next_id() == old(self).spec_next_id(),
            !old(self).spec_has(proposal_id) ==> {
                &&& r == Err::<usize, UpgradeError>(UpgradeError::ProposalNotFound(proposal_id))
                &&& Self::spec_unchanged(*old(self), *final(self))
            },
            old(self).spec_has(proposal_id) && !old(self).spec_members().contains(approver) ==> {
                &&& r == Err::<usize, UpgradeError>(UpgradeError::NotMultisigMember)
                &&& Self::spec_unchanged(*old(self), *final(self))
            },
            old(self).spec_has(proposal_id) && old(self).spec_members().contains(approver) && old(
                self,
            ).spec_proposal(proposal_id).status == ProposalStatus::Executed ==> {
                &&& r == Err::<usize, UpgradeError>(UpgradeError::AlreadyExecuted)
                &&& Self::spec_unchanged(*old(self), *final(self))
            },
            old(self).spec_has(proposal_id) && old(self).spec_members().contains(approver) && old(
                self,
            ).spec_proposal(proposal_id).status == ProposalStatus::Cancelled ==> {
                &&& r == Err::<usize, UpgradeError>(UpgradeError::AlreadyCancelled)
                &&& Self::spec_unchanged(*old(self), *final(self))
            },
            old(self).spec_has(proposal_id) && old(self).spec_members().contains(approver)
                && old(self).spec_proposal(proposal_id).status != ProposalStatus::Executed
                && old(self).spec_proposal(proposal_id).status != ProposalStatus::Cancelled
                && old(self).spec_proposal(proposal_id).approvals@.contains(approver) ==> {
                &&& r == Err::<usize, UpgradeError>(UpgradeError::AlreadyApproved)
                &&& Self::spec_unchanged(*old(self), *final(self))
            },
            old(self).spec_has(proposal_id) && old(self).spec_members().contains(approver)
                && old(self).spec_proposal(proposal_id).status != ProposalStatus::Executed
                && old(self).spec_proposal(proposal_id).status != ProposalStatus::Cancelled
                && !old(self).spec_proposal(proposal_id).approvals@.contains(approver) ==> {
                let i = old(self).spec_pindex(proposal_id);
                let q = old(self).spec_proposals()[i];
                let p = final(self).spec_proposals()[i];
                &&& r == Ok::<usize, UpgradeError>((q.approvals@.len() + 1) as usize)
                &&& final(self).spec_proposals().len() == old(self).spec_proposals().len()
                &&& forall|j: int|
                    0 <= j < old(self).spec_proposals().len() && j != i
                        ==> final(self).spec_proposals()[j] == old(self).spec_proposals()[j]
                &&& p.approvals@ == q.approvals@.push(approver)
                &&& p.approvals@.contains(approver)
                &&& p.status == (if q.approvals@.len() + 1 >= q.approval_threshold {
                    ProposalStatus::TimelockActive
                } else {
                    ProposalStatus::Approved
                })
                &&& p.id == q.id
                &&& p.proposer == q.proposer
                &&& p.program == q.program
                &&& p.new_buffer == q.new_buffer
                &&& p.description == q.description
                &&& p.proposed_at == q.proposed_at
                &&& p.timelock_until == q.timelock_until
                &&& p.approval_threshold == q.approval_threshold
                &&& p.executed_at == q.executed_at
                &&& final(self).spec_timelocks() == old(self).spec_timelocks()
            },
            forall|id: u64| final(self).spec_has(id) <==> old(self).spec_has(id),
            forall|id: u64|
                old(self).spec_has(id) ==> final(self).spec_pindex(id) == old(self).spec_pindex(
                    id,
                ),
    {
        let idx = match self.find_proposal_index(proposal_id) {
            Some(i) => i,
            None => {
                return Err(UpgradeError::ProposalNotFound(proposal_id));
            },
        };
        if !self.is_member(approver) {
            return Err(UpgradeError::NotMultisigMember);
        }
        match self.proposals[idx].status {
            ProposalStatus::Executed => {
                return Err(UpgradeError::AlreadyExecuted);
            },
            ProposalStatus::Cancelled => {
                return Err(UpgradeError::AlreadyCancelled);
            },
            _ => {},
        }
        let ghost pre = *self;
        let new_count = match self.ledger.approve(proposal_id, approver, None) {
            Ok(c) => c,
            Err(e) => {
                proof {
                    assert(pre.spec_proposal(proposal_id).approvals@ == pre.ledger.spec_approvers(
                        proposal_id,
                    ));
                }
                return Err(e);
            },
        };
        proof {
            assert(pre.spec_proposal(proposal_id).approvals@ == pre.ledger.spec_approvers(
                proposal_id,
            ));
        }
        let threshold = self.proposals[idx].approval_threshold;
        let p = &mut self.proposals[idx];
        p.approvals.push(approver);
        let reached = p.approvals.len() >= threshold as usize;
        p.status = if reached {
            ProposalStatus::TimelockActive
        } else {
            ProposalStatus::Approved
        };
        proof {
            let i = idx as int;
            let ps = self.spec_proposals();
            let old_ps = pre.spec_proposals();
            assert(ps[i].approvals@ == old_ps[i].approvals@.push(approver));
            assert(ps[i].approvals@[ps[i].approvals@.len() - 1] == approver);
            assert(ps[i].approvals@.contains(approver));
            pre.lemma_pindex_unique(proposal_id);
            assert forall|j: int, k: int| 0 <= j < ps.len() && 0 <= k
                < ps[j].approvals@.len() implies self.members@.contains(
                #[trigger] ps[j].approvals@[k],
            ) by {
                if j == i && k == ps[j].approvals@.len() - 1 {
                } else {
                    assert(old_ps[j].approvals@[k] == ps[j].approvals@[k]);
                }
            }
            assert forall|j: int| 0 <= j < ps.len() implies ps[j].approvals@
                == self.ledger.spec_approvers(ps[j].id) by {
                if j != i {
                    assert(old_ps[j].id != old_ps[i].id);
                }
            }
            Self::lemma_same_ids_same_index(pre, *self);
        }
        Ok(new_count)
    }

    /// Validates an execution attempt without touching any state: the same
    /// guards as `execute_upgrade`, plus nothing. A caller submits to the
    /// execution backend only after this returns `Ok`, and commits with
    /// `execute_upgrade` only if the backend succeeded; a backend failure
    /// thus leaves the proposal unchanged and retryable.
    pub fn check_execution(&self, proposal_id: u64, now: i64, audit: &AuditResult) -> (r: Result<
        (),
        UpgradeError,
    >)
        requires
            self.wf(),
            0 <= now,
        ensures
            Self::spec_execution_guard(*self, proposal_id, now, *audit, r),
    {
        let idx = match self.find_proposal_index(proposal_id) {
            Some(i) => i,
            None => {
                return Err(UpgradeError::ProposalNotFound(proposal_id));
            },
        };
        match self.proposals[idx].status {
            ProposalStatus::Executed => {
                return Err(UpgradeError::AlreadyExecuted);
            },
            ProposalStatus::Cancelled => {
                return Err(UpgradeError::AlreadyCancelled);
            },
            _ => {},
        }
        let current = self.ledger.count(proposal_id);
        let required = self.proposals[idx].approval_threshold as usize;
        if current < required {
            return Err(UpgradeError::InsufficientApprovals { current, required });
        }
        let remaining = match self.timelock_manager.get_remaining_time(proposal_id, now) {
            Ok(rem) => rem,
            Err(e) => {
                proof {
                    assert(false);
                }
                return Err(e);
            },
        };
        if remaining > 0 {
            return Err(UpgradeError::TimelockActive { remaining_seconds: remaining });
        }
        if !audit.can_proceed() {
            return Err(UpgradeError::AuditRejected);
        }
        Ok(())
    }

    /// How one execution attempt must end, given the state it read.
    pub open spec fn spec_execution_guard(m: ProposalManager, proposal_id: u64, now: i64,
        audit: AuditResult, r: Result<(), UpgradeError>) -> bool {
        let q = m.spec_proposal(proposal_id);
        if !m.spec_has(proposal_id) {
            r == Err::<(), UpgradeError>(UpgradeError::ProposalNotFound(proposal_id))
        } else if q.status == ProposalStatus::Executed {
            r == Err::<(), UpgradeError>(UpgradeError::AlreadyExecuted)
        } else if q.status == ProposalStatus::Cancelled {
            r == Err::<(), UpgradeError>(UpgradeError::AlreadyCancelled)
        } else if q.approvals@.len() < q.approval_threshold {
            r == Err::<(), UpgradeError>(
                UpgradeError::InsufficientApprovals {
                    current: q.approvals@.len() as usize,
                    required: q.approval_threshold as usize,
                },
            )
        } else if now < q.timelock_until {
            r == Err::<(), UpgradeError>(
                UpgradeError::TimelockActive {
                    remaining_seconds: (q.timelock_until - now) as i64,
                },
            )
        } else if !(audit.passed && audit.severity != crate::security::AuditSeverity::Critical) {
            r == Err::<(), UpgradeError>(UpgradeError::AuditRejected)
        } else {
            r == Ok::<(), UpgradeError>(())
        }
    }

    /// Commits an execution: re-checks every guard (the status, the quorum,
    /// the elapsed timelock, the audit) and only then marks the proposal
    /// `Executed` at instant `now`. On any failed guard nothing changes.
    pub fn execute_upgrade(&mut self, proposal_id: u64, now: i64, audit: &AuditResult) -> (r:
        Result<(), UpgradeError>)
        requires
            old(self).wf(),
            0 <= now,
        ensures
            final(self).wf(),
            Self::spec_execution_guard(*old(self), proposal_id, now, *audit, r),
            final(self).spec_members() == old(self).spec_members(),
            final(self).spec_threshold() == old(self).spec_threshold(),
            final(self).spec_next_id() == old(self).spec_next_id(),
            final(self).spec_ledger().spec_records() == old(self).spec_ledger().spec_records(),
            final(self).spec_timelocks() == old(self).spec_timelocks(),
            r is Err ==> final(self).spec_proposals() == old(self).spec_proposals(),
            r is Ok ==> {
                let i = old(self).spec_pindex(proposal_id);
                let q = old(self).spec_proposals()[i];
                let p = final(self).spec_proposals()[i];
                &&& final(self).spec_proposals().len() == old(self).spec_proposals().len()
                &&& forall|j: int|
                    0 <= j < old(self).spec_proposals().len() && j != i
                        ==> final(self).spec_proposals()[j] == old(self).spec_proposals()[j]
                &&& p.status == ProposalStatus::Executed
                &&& p.executed_at == Some(now)
                &&& p.approvals@ == q.approvals@
                &&& p.id == q.id
                &&& p.proposer == q.proposer
                &&& p.program == q.program
                &&& p.new_buffer == q.new_buffer
                &&& p.description == q.description
                &&& p.proposed_at == q.proposed_at
                &&& p.timelock_until == q.timelock_until
                &&& p.approval_threshold == q.approval_threshold
            },
            forall|id: u64| final(self).spec_has(id) <==> old(self).spec_has(id),
            forall|id: u64|
                old(self).spec_has(id) ==> final(self).spec_pindex(id) == old(self).spec_pindex(
                    id,
                ),
    {
        if let Err(e) = self.check_execution(proposal_id, now, audit) {
            return Err(e);
        }
        let idx = match self.find_proposal_index(proposal_id) {
            Some(i) => i,
            None => {
                proof {
                    assert(false);
                }
                return Err(UpgradeError::ProposalNotFound(proposal_id));
            },
        };
        let ghost pre = *self;
        let p = &mut self.proposals[idx];
        p.status = ProposalStatus::Executed;
        p.executed_at = Some(now);
        proof {
            let i = idx as int;
            let ps = self.spec_proposals();
            let old_ps = pre.spec_proposals();
            pre.lemma_pindex_unique(proposal_id);
            assert(old_ps[i].approvals@.len() >= old_ps[i].approval_threshold);
            assert forall|j: int| 0 <= j < ps.len() implies ps[j].approvals@
                == self.ledger.spec_approvers(ps[j].id) by {
                assert(old_ps[j].approvals@ == pre.ledger.spec_approvers(old_ps[j].id));
            }
            assert forall|j: int, k: int| 0 <= j < ps.len() && 0 <= k
                < ps[j].approvals@.len() implies self.members@.contains(
                #[trigger] ps[j].approvals@[k],
            ) by {
                assert(old_ps[j].approvals@[k] == ps[j].approvals@[k]);
            }
            Self::lemma_same_ids_same_index(pre, *self);
        }
        Ok(())
    }

    /// Cancels a proposal: a one-way terminal transition, legal from any
    /// state but `Executed` (cancelling twice is harmless). Once cancelled,
    /// every later approve or execute on this id fails.
    pub fn cancel_upgrade(&mut self, proposal_id: u64) -> (r: Result<(), UpgradeError>)
        requires
            old(self).wf(),
        ensures
            final(self).wf(),
            final(self).spec_members() == old(self).spec_members(),
            final(self).spec_threshold() == old(self).spec_threshold(),
            final(self).spec_next_id() == old(self).spec_next_id(),
            final(self).spec_ledger().spec_records() == old(self).spec_ledger().spec_records(),
            final(self).spec_timelocks() == old(self).spec_timelocks(),
            !old(self).spec_has(proposal_id) ==> {
                &&& r == Err::<(), UpgradeError>(UpgradeError::ProposalNotFound(proposal_id))
                &&& final(self).spec_proposals() == old(self).spec_proposals()
            },
            old(self).spec_has(proposal_id) && old(self).spec_proposal(proposal_id).status
                == ProposalStatus::Executed ==> {
                &&& r == Err::<(), UpgradeError>(UpgradeError::AlreadyExecuted)
                &&& final(self).spec_proposals() == old(self).spec_proposals()
            },
            old(self).spec_has(proposal_id) && old(self).spec_proposal(proposal_id).status
                != ProposalStatus::Executed ==> {
                let i = old(self).spec_pindex(proposal_id);
                let q = old(self).spec_proposals()[i];
                let p = final(self).spec_proposals()[i];
                &&& r == Ok::<(), UpgradeError>(())
                &&& final(self).spec_proposals().len() == old(self).spec_proposals().len()
                &&& forall|j: int|
                    0 <= j < old(self).spec_proposals().len() && j != i
                        ==> final(self).spec_proposals()[j] == old(self).spec_proposals()[j]
                &&& p.status == ProposalStatus::Cancelled
                &&& p.approvals@ == q.approvals@
                &&& p.id == q.id
                &&& p.proposer == q.proposer
                &&& p.program == q.program
                &&& p.new_buffer == q.new_buffer
                &&& p.description == q.description
                &&& p.proposed_at == q.proposed_at
                &&& p.timelock_until == q.timelock_until
                &&& p.approval_threshold == q.approval_threshold
                &&& p.executed_at == q.executed_at
            },
            forall|id: u64| final(self).spec_has(id) <==> old(self).spec_has(id),
            forall|id: u64|
                old(self).spec_has(id) ==> final(self).spec_pindex(id) == old(self).spec_pindex(
                    id,
                ),
    {
        let idx = match self.find_proposal_index(proposal_id) {
            Some(i) => i,
            None => {
                return Err(UpgradeError::ProposalNotFound(proposal_id));
            },
        };
        match self.proposals[idx].status {
            ProposalStatus::Executed => {
                return Err(UpgradeError::AlreadyExecuted);
            },
            _ => {},
        }
        let ghost pre = *self;
        let p = &mut self.proposals[idx];
        p.status = ProposalStatus::Cancelled;
        proof {
            let i = idx as int;
            let ps = self.spec_proposals();
            let old_ps = pre.spec_proposals();
            pre.lemma_pindex_unique(proposal_id);
            assert forall|j: int| 0 <= j < ps.len() implies ps[j].approvals@
                == self.ledger.spec_approvers(ps[j].id) by {
                assert(old_ps[j].approvals@ == pre.ledger.spec_approvers(old_ps[j].id));
            }
            assert forall|j: int, k: int| 0 <= j < ps.len() && 0 <= k
                < ps[j].approvals@.len() implies self.members@.contains(
                #[trigger] ps[j].approvals@[k],
            ) by {
                assert(old_ps[j].approvals@[k] == ps[j].approvals@[k]);
            }
            Self::lemma_same_ids_same_index(pre, *self);
        }
        Ok(())
    }

    /// Every proposal record, in creation order.
    pub fn list_proposals(&self) -> (r: &Vec<Proposal>)
        ensures
            r@ == self.spec_proposals(),
    {
        &self.proposals
    }

    /// One proposal's record.
    pub fn get_proposal(&self, proposal_id: u64) -> (r: Result<&Proposal, UpgradeError>)
        requires
            self.wf(),
        ensures
            self.spec_has(proposal_id) ==> (r matches Ok(p) && *p == self.spec_proposal(
                proposal_id,
            )),
            !self.spec_has(proposal_id) ==> (r matches Err(e) && e
                == UpgradeError::ProposalNotFound(proposal_id)),
    {
        match self.find_proposal_index(proposal_id) {
            Some(i) => Ok(&self.proposals[i]),
            None => Err(UpgradeError::ProposalNotFound(proposal_id)),
        }
    }

    /// A read-only progress summary of one proposal.
    pub fn get_proposal_status(&self, proposal_id: u64) -> (r: Result<
        ProposalStatusSummary,
        UpgradeError,
    >)
        requires
            self.wf(),
        ensures
            self.spec_has(proposal_id) ==> {
                let q = self.spec_proposal(proposal_id);
                r == Ok::<ProposalStatusSummary, UpgradeError>(
                    ProposalStatusSummary {
                        id: q.id,
                        status: q.status,
                        approvals: q.approvals@.len() as usize,
                        threshold: q.approval_threshold,
                        timelock_until: q.timelock_until,
                        executed_at: q.executed_at,
                    },
                )
            },
            !self.spec_has(proposal_id) ==> r == Err::<ProposalStatusSummary, UpgradeError>(
                UpgradeError::ProposalNotFound(proposal_id),
            ),
    {
        match self.find_proposal_index(proposal_id) {
            Some(i) => {
                let p = &self.proposals[i];
                Ok(
                    ProposalStatusSummary {
                        id: p.id,
                        status: p.status,
                        approvals: p.approvals.len(),
                        threshold: p.approval_threshold,
                        timelock_until: p.timelock_until,
                        executed_at: p.executed_at,
                    },
                )
            },
            None => Err(UpgradeError::ProposalNotFound(proposal_id)),
        }
    }

    /// Ids whose timelock window is still open at `now` but closes within
    /// `horizon_seconds`: the feed of the expiring-soon monitor.
    pub fn expiring_timelocks(&self, now: i64, horizon_seconds: i64) -> (r: Vec<u64>)
        requires
            self.wf(),
            0 <= now,
            0 < horizon_seconds,
        ensures
            forall|k: int|
                0 <= k < r@.len() ==> {
                    &&& self.spec_timelocks().spec_contains(r@[k])
                    &&& now < self.spec_timelocks().spec_end(r@[k]) < now + horizon_seconds
                },
            forall|id: u64|
                self.spec_timelocks().spec_contains(id) && now < self.spec_timelocks().spec_end(
                    id,
                ) < now + horizon_seconds ==> r@.contains(id),
    {
        self.timelock_manager.expiring_soon(now, horizon_seconds)
    }

    /// The multisig membership.
    pub fn get_members(&self) -> (r: &Vec<u64>)
        ensures
            r@ == self.spec_members(),
    {
        &self.members
    }

    /// The configured approval threshold.
    pub fn get_threshold(&self) -> (r: u8)
        ensures
            r == self.spec_threshold(),
    {
        self.threshold
    }

    /// An executed proposal reached its threshold of distinct approvals, and
    /// the instant recorded for the execute call that set it lay at or past
    /// the proposal's timelock expiry.
    pub proof fn lemma_executed_requires_quorum_and_expiry(self, i: int)
        requires
            self.wf(),
            0 <= i < self.spec_proposals().len(),
            self.spec_proposals()[i].status == ProposalStatus::Executed,
        ensures
            self.spec_proposals()[i].approvals@.len()
                >= self.spec_proposals()[i].approval_threshold,
            self.spec_proposals()[i].executed_at matches Some(t) && t
                >= self.spec_proposals()[i].timelock_until,
    {
    }

    /// Every proposal's timelock window spans at least the mandatory floor
    /// from its creation instant: a shorter request never produced a record.
    pub proof fn lemma_timelock_floor(self, i: int)
        requires
            self.wf(),
            0 <= i < self.spec_proposals().len(),
        ensures
            self.spec_proposals()[i].proposed_at + MIN_TIMELOCK_SECONDS
                <= self.spec_proposals()[i].timelock_until,
    {
    }
}

} // verus!
