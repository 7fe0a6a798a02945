//! The rollback orchestrator: an ordered, resumable recovery pipeline of
//! five discrete stages. Each stage must be confirmed before the next
//! begins; a failed stage halts the pipeline and stays observable, so no
//! later stage (in particular no redeploy) can run past a failure. A
//! completed rollback is recorded as an immutable audit event.
//!
//! The stages themselves act on the outside world, so the caller performs
//! each one and reports its outcome here; this module owns the order and
//! the halting rule.

use vstd::prelude::*;

verus! {

/// The five recovery stages, in the only order they may run.
#[derive(Debug, Clone, Copy, PartialEq, Eq, Structural)]
pub enum RollbackStage {
    PauseIntake,
    CloseAllPositions,
    ReturnFunds,
    RedeployPriorVersion,
    ResumeIntake,
}

/// The position of a stage in the pipeline.
pub open spec fn spec_stage_order(stage: RollbackStage) -> int {
    match stage {
        RollbackStage::PauseIntake => 0,
        RollbackStage::CloseAllPositions => 1,
        RollbackStage::ReturnFunds => 2,
        RollbackStage::RedeployPriorVersion => 3,
        RollbackStage::ResumeIntake => 4,
    }
}

/// The stage at a position.
pub open spec fn spec_stage_at(i: int) -> RollbackStage {
    if i == 0 {
        RollbackStage::PauseIntake
    } else if i == 1 {
        RollbackStage::CloseAllPositions
    } else if i == 2 {
        RollbackStage::ReturnFunds
    } else if i == 3 {
        RollbackStage::RedeployPriorVersion
    } else {
        RollbackStage::ResumeIntake
    }
}

/// An immutable audit record of one completed rollback.
#[derive(Debug, Clone)]
pub struct RollbackEvent {
    pub proposal_id: u64,
    pub prior_program: u64,
    pub reason: Vec<u8>,
    pub positions_closed: u64,
    pub funds_returned: bool,
}

/// One rollback attempt in flight: how many stages have been confirmed and
/// whether a stage failure has halted the pipeline.
#[derive(Debug)]
pub struct RollbackPipeline {
    proposal_id: u64,
    prior_program: u64,
    stages_done: usize,
    halted_at: Option<RollbackStage>,
}

impl RollbackPipeline {
    /// The proposal this rollback attempt reverts.
    pub closed spec fn spec_proposal_id(self) -> u64 {
        self.proposal_id
    }

    /// The program version this rollback attempt redeploys.
    pub closed spec fn spec_prior_program(self) -> u64 {
        self.prior_program
    }

    pub fn proposal_id(&self) -> (r: u64)
        ensures
            r == self.spec_proposal_id(),
    {
        self.proposal_id
    }

    pub fn prior_program(&self) -> (r: u64)
        ensures
            r == self.spec_prior_program(),
    {
        self.prior_program
    }

    /// How many stages have completed, in order from the first.
    pub closed spec fn spec_stages_done(self) -> int {
        self.stages_done as int
    }

    /// The stage whose failure halted the pipeline, if any.
    pub closed spec fn spec_halted_at(self) -> Option<RollbackStage> {
        self.halted_at
    }

    /// Every stage ran and none failed.
    pub open spec fn spec_is_complete(self) -> bool {
        self.spec_stages_done() == 5 && self.spec_halted_at() is None
    }

    /// At most five stages run, and a halt names exactly the first stage
    /// that did not complete.
    pub closed spec fn wf(self) -> bool {
        &&& self.stages_done <= 5
        &&& (self.halted_at matches Some(stage) ==> spec_stage_order(stage) == self.stages_done
            && self.stages_done < 5)
    }

    /// A fresh pipeline for one proposal, nothing run yet.
    pub fn new(proposal_id: u64, prior_program: u64) -> (r: RollbackPipeline)
        ensures
            r.wf(),
            r.spec_proposal_id() == proposal_id,
            r.spec_prior_program() == prior_program,
            r.spec_stages_done() == 0,
            r.spec_halted_at() is None,
    {
        RollbackPipeline { proposal_id, prior_program, stages_done: 0, halted_at: None }
    }

    /// The next stage the caller must perform: none once the pipeline is
    /// complete or halted.
    pub fn current_stage(&self) -> (r: Option<RollbackStage>)
        requires
            self.wf(),
        ensures
            self.spec_halted_at() is Some || self.spec_stages_done() == 5 ==> r is None,
            self.spec_halted_at() is None && self.spec_stages_done() < 5 ==> r == Some(
                spec_stage_at(self.spec_stages_done()),
            ),
    {
        if self.halted_at.is_some() || self.stages_done >= 5 {
            return None;
        }
        Some(
            if self.stages_done == 0 {
                RollbackStage::PauseIntake
            } else if self.stages_done == 1 {
                RollbackStage::CloseAllPositions
            } else if self.stages_done == 2 {
                RollbackStage::ReturnFunds
            } else if self.stages_done == 3 {
                RollbackStage::RedeployPriorVersion
            } else {
                RollbackStage::ResumeIntake
            },
        )
    }

    /// Reports the outcome of the stage that `current_stage` named: success
    /// confirms it and moves to the next stage; failure halts the pipeline
    /// at that stage, and nothing past it ever runs.
    pub fn record_stage_result(&mut self, succeeded: bool) -> (r: Option<RollbackStage>)
        requires
            old(self).wf(),
            old(self).spec_halted_at() is None,
            old(self).spec_stages_done() < 5,
        ensures
            final(self).wf(),
            final(self).spec_proposal_id() == old(self).spec_proposal_id(),
            final(self).spec_prior_program() == old(self).spec_prior_program(),
            succeeded ==> {
                &&& final(self).spec_stages_done() == old(self).spec_stages_done() + 1
                &&& final(self).spec_halted_at() is None
                &&& r == (if old(self).spec_stages_done() + 1 == 5 {
                    Option::<RollbackStage>::None
                } else {
                    Some(spec_stage_at(old(self).spec_stages_done() + 1))
                })
            },
            !succeeded ==> {
                &&& final(self).spec_stages_done() == old(self).spec_stages_done()
                &&& final(self).spec_halted_at() == Some(
                    spec_stage_at(old(self).spec_stages_done()),
                )
                &&& r is None
            },
    {
        if succeeded {
            self.stages_done = self.stages_done + 1;
            self.current_stage()
        } else {
            let failed = match self.current_stage() {
                Some(stage) => stage,
                None => {
                    proof {
                        assert(false);
                    }
                    RollbackStage::PauseIntake
                },
            };
            self.halted_at = Some(failed);
            None
        }
    }

    /// Whether every stage completed.
    pub fn is_complete(&self) -> (r: bool)
        ensures
            r == self.spec_is_complete(),
    {
        self.stages_done == 5 && self.halted_at.is_none()
    }

    /// The stage whose failure halted this rollback attempt, if any.
    pub fn failed_stage(&self) -> (r: Option<RollbackStage>)
        ensures
            r == self.spec_halted_at(),
    {
        self.halted_at
    }

    /// A halted pipeline stopped exactly at its failed stage: every earlier
    /// stage completed and no later one ran.
    pub proof fn lemma_halt_blocks_later_stages(self)
        requires
            self.wf(),
            self.spec_halted_at() is Some,
        ensures
            spec_stage_order(self.spec_halted_at()->Some_0) == self.spec_stages_done(),
            self.spec_stages_done() < 5,
            !self.spec_is_complete(),
    {
    }
}

/// Drives rollback attempts and keeps the append-only record of completed
/// rollbacks.
#[derive(Debug)]
pub struct RollbackHandler {
    events: Vec<RollbackEvent>,
}

impl RollbackHandler {
    /// The audit events appended so far.
    pub closed spec fn spec_events(self) -> Seq<RollbackEvent> {
        self.events@
    }

    pub fn new() -> (r: Self)
        ensures
            r.spec_events() == Seq::<RollbackEvent>::empty(),
    {
        let handler = RollbackHandler { events: Vec::new() };
        proof {
            assert(handler.spec_events() =~= Seq::<RollbackEvent>::empty());
        }
        handler
    }

    /// Starts a rollback of one proposal to the prior program version.
    pub fn begin_rollback(&self, proposal_id: u64, prior_program: u64) -> (r: RollbackPipeline)
        ensures
            r.wf(),
            r.spec_proposal_id() == proposal_id,
            r.spec_prior_program() == prior_program,
            r.spec_stages_done() == 0,
            r.spec_halted_at() is None,
    {
        RollbackPipeline::new(proposal_id, prior_program)
    }

    /// Appends the immutable audit record of a rollback whose five stages
    /// all completed. Nothing else is ever recorded here.
    pub fn record_completed_rollback(&mut self, pipeline: &RollbackPipeline, reason: Vec<u8>,
        positions_closed: u64, funds_returned: bool)
        requires
            pipeline.wf(),
            pipeline.spec_is_complete(),
        ensures
            final(self).spec_events().len() == old(self).spec_events().len() + 1,
            forall|i: int|
                0 <= i < old(self).spec_events().len() ==> final(self).spec_events()[i] == old(
                    self,
                ).spec_events()[i],
            ({
                let e = final(self).spec_events().last();
                &&& e.proposal_id == pipeline.spec_proposal_id()
                &&& e.prior_program == pipeline.spec_prior_program()
                &&& e.reason == reason
                &&& e.positions_closed == positions_closed
                &&& e.funds_returned == funds_returned
            }),
    {
        self.events.push(
            RollbackEvent {
                proposal_id: pipeline.proposal_id(),
                prior_program: pipeline.prior_program(),
                reason,
                positions_closed,
                funds_returned,
            },
        );
    }

    /// The completed-rollback audit log.
    pub fn events(&self) -> (r: &Vec<RollbackEvent>)
        ensures
            r@ == self.spec_events(),
    {
        &self.events
    }
}

} // verus!
