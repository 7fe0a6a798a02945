//! Registry of timelock expiries: maps a proposal id to the absolute instant
//! (unix seconds) at which its delay window ends. The clock is injected: every
//! time-dependent operation takes `now` as an argument.

use vstd::prelude::*;

use crate::errors::UpgradeError;

verus! {

/// One armed timelock: a proposal id and the instant its delay ends.
#[derive(Debug, Clone, Copy, PartialEq, Eq, Structural)]
pub struct TimelockEntry {
    pub proposal_id: u64,
    pub timelock_end: i64,
}

/// Maps each registered proposal id to its timelock expiry instant.
/// Re-arming an id overwrites its previous expiry.
#[derive(Debug)]
pub struct TimelockManager {
    entries: Vec<TimelockEntry>,
}

impl TimelockManager {
    /// True of this id is registered.
    pub closed spec fn spec_contains(self, proposal_id: u64) -> bool {
        exists|i: int|
            0 <= i < self.entries@.len() && self.entries@[i].proposal_id == proposal_id
    }

    /// The index of this id's entry (well defined when `wf()` holds and the
    /// id is registered).
    closed spec fn spec_index(self, proposal_id: u64) -> int {
        choose|i: int|
            0 <= i < self.entries@.len() && self.entries@[i].proposal_id == proposal_id
    }

    /// The expiry instant registered for this id.
    pub closed spec fn spec_end(self, proposal_id: u64) -> i64 {
        self.entries@[self.spec_index(proposal_id)].timelock_end
    }

    /// Each id appears at most once, and every expiry is a non-negative instant.
    pub closed spec fn wf(self) -> bool {
        &&& forall|i: int, j: int|
            0 <= i < j < self.entries@.len() ==> self.entries@[i].proposal_id
                != self.entries@[j].proposal_id
        &&& forall|i: int| 0 <= i < self.entries@.len() ==> self.entries@[i].timelock_end >= 0
    }

    pub fn new() -> (r: Self)
        ensures
            r.wf(),
            forall|id: u64| !r.spec_contains(id),
    {
        TimelockManager { entries: Vec::new() }
    }

    /// The position of this id's entry, if any.
    fn find_index(&self, proposal_id: u64) -> (r: Option<usize>)
        requires
            self.wf(),
        ensures
            match r {
                Some(i) => i < self.entries@.len() && self.entries@[i as int].proposal_id
                    == proposal_id && i == self.spec_index(proposal_id),
                None => !self.spec_contains(proposal_id),
            },
    {
        let n = self.entries.len();
        for i in 0..n
            invariant
                n == self.entries@.len(),
                self.wf(),
                forall|j: int| 0 <= j < i ==> self.entries@[j].proposal_id != proposal_id,
        {
            if self.entries[i].proposal_id == proposal_id {
                return Some(i);
            }
        }
        None
    }

    /// Arms (or re-arms) the timelock for `proposal_id` to end at
    /// `now + duration_seconds`. All other ids keep their expiry.
    pub fn set_timelock(&mut self, proposal_id: u64, now: i64, duration_seconds: i64) -> (r:
        Result<(), UpgradeError>)
        requires
            old(self).wf(),
            0 <= now,
            0 <= duration_seconds,
            now + duration_seconds <= i64::MAX,
        ensures
            r is Ok,
            final(self).wf(),
            final(self).spec_contains(proposal_id),
            final(self).spec_end(proposal_id) == now + duration_seconds,
            forall|id: u64|
                id != proposal_id ==> (final(self).spec_contains(id) <==> old(
                    self,
                ).spec_contains(id)),
            forall|id: u64|
                id != proposal_id && old(self).spec_contains(id) ==> final(self).spec_end(id)
                    == old(self).spec_end(id),
    {
        let timelock_end = now + duration_seconds;
        match self.find_index(proposal_id) {
            Some(i) => {
                self.entries[i].timelock_end = timelock_end;
                proof {
                    self.lemma_index_unique(proposal_id);
                    assert forall|id: u64|
                        id != proposal_id && old(self).spec_contains(id) implies {
                        &&& self.spec_contains(id)
                        &&& self.spec_end(id) == old(self).spec_end(id)
                    } by {
                        let j = old(self).spec_index(id);
                        assert(self.entries@[j].proposal_id == id);
                        self.lemma_index_unique(id);
                    }
                    assert forall|id: u64|
                        id != proposal_id && self.spec_contains(id) implies old(
                        self,
                    ).spec_contains(id) by {
                        let j = self.spec_index(id);
                        assert(old(self).entries@[j].proposal_id == id);
                    }
                }
            },
            None => {
                self.entries.push(TimelockEntry { proposal_id, timelock_end });
                proof {
                    assert(self.entries@[self.entries@.len() - 1].proposal_id == proposal_id);
                    assert forall|id: u64|
                        id != proposal_id && old(self).spec_contains(id) implies {
                        &&& self.spec_contains(id)
                        &&& self.spec_end(id) == old(self).spec_end(id)
                    } by {
                        let j = old(self).spec_index(id);
                        assert(self.entries@[j].proposal_id == id);
                        self.lemma_index_unique(id);
                    }
                    assert forall|id: u64|
                        id != proposal_id && self.spec_contains(id) implies old(
                        self,
                    ).spec_contains(id) by {
                        let j = self.spec_index(id);
                        assert(0 <= j < old(self).entries@.len());
                        assert(old(self).entries@[j].proposal_id == id);
                    }
                }
            },
        }
        Ok(())
    }

    /// Under `wf()`, any witness index for a registered id is the chosen one.
    proof fn lemma_index_unique(self, proposal_id: u64)
        requires
            self.wf(),
        ensures
            forall|i: int|
                0 <= i < self.entries@.len() && self.entries@[i].proposal_id == proposal_id ==> i
                    == self.spec_index(proposal_id),
    {
        assert forall|i: int|
            0 <= i < self.entries@.len() && self.entries@[i].proposal_id
                == proposal_id implies i == self.spec_index(proposal_id) by {
            let j = self.spec_index(proposal_id);
            assert(0 <= j < self.entries@.len() && self.entries@[j].proposal_id == proposal_id);
            if i != j {
                assert(self.entries@[i].proposal_id != self.entries@[j].proposal_id);
            }
        }
    }

    /// The registered expiry instant, or `ProposalNotFound`.
    pub fn get_timelock_end(&self, proposal_id: u64) -> (r: Result<i64, UpgradeError>)
        requires
            self.wf(),
        ensures
            self.spec_contains(proposal_id) ==> r == Ok::<i64, UpgradeError>(
                self.spec_end(proposal_id),
            ),
            !self.spec_contains(proposal_id) ==> r == Err::<i64, UpgradeError>(
                UpgradeError::ProposalNotFound(proposal_id),
            ),
    {
        match self.find_index(proposal_id) {
            Some(i) => Ok(self.entries[i].timelock_end),
            None => Err(UpgradeError::ProposalNotFound(proposal_id)),
        }
    }

    /// Whether the delay window has elapsed at instant `now`.
    pub fn is_timelock_expired(&self, proposal_id: u64, now: i64) -> (r: Result<
        bool,
        UpgradeError,
    >)
        requires
            self.wf(),
        ensures
            self.spec_contains(proposal_id) ==> r == Ok::<bool, UpgradeError>(
                now >= self.spec_end(proposal_id),
            ),
            !self.spec_contains(proposal_id) ==> r == Err::<bool, UpgradeError>(
                UpgradeError::ProposalNotFound(proposal_id),
            ),
    {
        match self.get_timelock_end(proposal_id) {
            Ok(timelock_end) => Ok(now >= timelock_end),
            Err(e) => Err(e),
        }
    }

    /// Seconds still to wait at instant `now`: zero once the window has
    /// elapsed, never negative.
    pub fn get_remaining_time(&self, proposal_id: u64, now: i64) -> (r: Result<i64, UpgradeError>)
        requires
            self.wf(),
            0 <= now,
        ensures
            self.spec_contains(proposal_id) ==> r == Ok::<i64, UpgradeError>(
                if now >= self.spec_end(proposal_id) {
                    0
                } else {
                    (self.spec_end(proposal_id) - now) as i64
                },
            ),
            !self.spec_contains(proposal_id) ==> r == Err::<i64, UpgradeError>(
                UpgradeError::ProposalNotFound(proposal_id),
            ),
    {
        let timelock_end = self.get_timelock_end(proposal_id)?;
        proof {
            let i = self.spec_index(proposal_id);
            assert(self.entries@[i].timelock_end >= 0);
        }
        if now >= timelock_end {
            Ok(0)
        } else {
            Ok(timelock_end - now)
        }
    }

    /// Ids whose window is still open at `now` but closes within
    /// `horizon_seconds`, for an expiring-soon warning.
    pub fn expiring_soon(&self, now: i64, horizon_seconds: i64) -> (r: Vec<u64>)
        requires
            self.wf(),
            0 <= now,
            0 < horizon_seconds,
        ensures
            forall|k: int|
                0 <= k < r@.len() ==> {
                    &&& self.spec_contains(r@[k])
                    &&& now < self.spec_end(r@[k]) < now + horizon_seconds
                },
            forall|id: u64|
                self.spec_contains(id) && now < self.spec_end(id) < now + horizon_seconds
                    ==> r@.contains(id),
    {
        let mut soon: Vec<u64> = Vec::new();
        let n = self.entries.len();
        for i in 0..n
            invariant
                n == self.entries@.len(),
                self.wf(),
                0 <= now,
                forall|k: int|
                    0 <= k < soon@.len() ==> {
                        &&& self.spec_contains(soon@[k])
                        &&& now < self.spec_end(soon@[k]) < now + horizon_seconds
                    },
                forall|j: int|
                    0 <= j < i && now < self.entries@[j].timelock_end < now + horizon_seconds
                        ==> soon@.contains(self.entries@[j].proposal_id),
        {
            let e = self.entries[i];
            if e.timelock_end > now && e.timelock_end - now < horizon_seconds {
                proof {
                    self.lemma_index_unique(e.proposal_id);
                    assert(self.entries@[i as int].proposal_id == e.proposal_id);
                }
                let ghost prev = soon@;
                soon.push(e.proposal_id);
                proof {
                    assert forall|j: int|
                        0 <= j < i + 1 && now < self.entries@[j].timelock_end < now
                            + horizon_seconds implies soon@.contains(
                        self.entries@[j].proposal_id,
                    ) by {
                        if j < i {
                            let k = choose|k: int|
                                0 <= k < prev.len() && prev[k] == self.entries@[j].proposal_id;
                            assert(soon@[k] == self.entries@[j].proposal_id);
                        } else {
                            assert(soon@[soon@.len() - 1] == self.entries@[j].proposal_id);
                        }
                    }
                }
            }
        }
        proof {
            assert forall|id: u64|
                self.spec_contains(id) && now < self.spec_end(id) < now
                    + horizon_seconds implies soon@.contains(id) by {
                let j = self.spec_index(id);
                assert(self.entries@[j].proposal_id == id);
                assert(self.entries@[j].timelock_end == self.spec_end(id));
            }
        }
        soon
    }
}

} // verus!
