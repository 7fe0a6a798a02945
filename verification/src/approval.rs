//! The approval ledger: an append-only record of which distinct identities
//! have approved which proposal, and the quorum test over it.

use vstd::prelude::*;

use crate::errors::UpgradeError;

verus! {

/// One approval: appended at most once per (proposal, approver) pair.
#[derive(Debug, Clone)]
pub struct ApprovalRecord {
    pub proposal_id: u64,
    pub approver: u64,
    pub signature: Option<Vec<u8>>,
}

/// The approvers recorded for one proposal, in insertion order.
pub open spec fn approvers_of(records: Seq<ApprovalRecord>, proposal_id: u64) -> Seq<u64>
    decreases records.len(),
{
    if records.len() == 0 {
        Seq::empty()
    } else {
        let prefix = approvers_of(records.drop_last(), proposal_id);
        if records.last().proposal_id == proposal_id {
            prefix.push(records.last().approver)
        } else {
            prefix
        }
    }
}

/// Appending one record extends exactly the approver list of its proposal.
pub proof fn lemma_approvers_push(records: Seq<ApprovalRecord>, rec: ApprovalRecord, pid: u64)
    ensures
        rec.proposal_id == pid ==> approvers_of(records.push(rec), pid) == approvers_of(
            records,
            pid,
        ).push(rec.approver),
        rec.proposal_id != pid ==> approvers_of(records.push(rec), pid) == approvers_of(
            records,
            pid,
        ),
{
    let extended = records.push(rec);
    assert(extended.drop_last() =~= records);
    assert(extended.last() == rec);
}

/// An approver stands in the list of a proposal exactly when some record
/// pairs the two.
pub proof fn lemma_approvers_contains(records: Seq<ApprovalRecord>, pid: u64, approver: u64)
    ensures
        approvers_of(records, pid).contains(approver) <==> exists|i: int|
            0 <= i < records.len() && records[i].proposal_id == pid && records[i].approver
                == approver,
    decreases records.len(),
{
    if records.len() > 0 {
        let prefix = records.drop_last();
        lemma_approvers_contains(prefix, pid, approver);
        let last = records.last();
        if last.proposal_id == pid {
            let with_last = approvers_of(prefix, pid).push(last.approver);
            if approvers_of(records, pid).contains(approver) {
                let k = choose|k: int|
                    0 <= k < with_last.len() && with_last[k] == approver;
                if k < with_last.len() - 1 {
                    assert(approvers_of(prefix, pid)[k] == approver);
                    assert(approvers_of(prefix, pid).contains(approver));
                    let i = choose|i: int|
                        0 <= i < prefix.len() && prefix[i].proposal_id == pid
                            && prefix[i].approver == approver;
                    assert(records[i].proposal_id == pid && records[i].approver == approver);
                } else {
                    assert(records[records.len() - 1].proposal_id == pid
                        && records[records.len() - 1].approver == approver);
                }
            }
            if exists|i: int|
                0 <= i < records.len() && records[i].proposal_id == pid && records[i].approver
                    == approver {
                let i = choose|i: int|
                    0 <= i < records.len() && records[i].proposal_id == pid && records[i].approver
                        == approver;
                if i < records.len() - 1 {
                    assert(prefix[i].proposal_id == pid && prefix[i].approver == approver);
                    let k = choose|k: int|
                        0 <= k < approvers_of(prefix, pid).len() && approvers_of(prefix, pid)[k]
                            == approver;
                    assert(with_last[k] == approver);
                } else {
                    assert(with_last.last() == approver);
                }
            }
        } else {
            if exists|i: int|
                0 <= i < records.len() && records[i].proposal_id == pid && records[i].approver
                    == approver {
                let i = choose|i: int|
                    0 <= i < records.len() && records[i].proposal_id == pid && records[i].approver
                        == approver;
                assert(i < records.len() - 1);
                assert(prefix[i].proposal_id == pid && prefix[i].approver == approver);
            }
        }
    }
}

/// One appended approval record per approver of `batch`, in order.
pub open spec fn records_for(pid: u64, batch: Seq<u64>) -> Seq<ApprovalRecord> {
    batch.map(
        |i: int, a: u64| ApprovalRecord { proposal_id: pid, approver: a, signature: None },
    )
}

/// Appending one approval per approver of `batch` loses none of them: the
/// proposal's approver list afterwards is the old list followed by the
/// whole batch, so the final count is the old count plus the batch size,
/// whatever order the appends were linearized to.
pub proof fn lemma_batch_approvals_all_counted(records: Seq<ApprovalRecord>, pid: u64,
    batch: Seq<u64>)
    ensures
        approvers_of(records + records_for(pid, batch), pid) == approvers_of(records, pid)
            + batch,
    decreases batch.len(),
{
    if batch.len() == 0 {
        assert(records + records_for(pid, batch) =~= records);
        assert(approvers_of(records, pid) + batch =~= approvers_of(records, pid));
    } else {
        let prefix = batch.drop_last();
        lemma_batch_approvals_all_counted(records, pid, prefix);
        let rec = ApprovalRecord { proposal_id: pid, approver: batch.last(), signature: None };
        assert(records + records_for(pid, batch) =~= (records + records_for(pid, prefix)).push(
            rec,
        ));
        lemma_approvers_push(records + records_for(pid, prefix), rec, pid);
        assert(approvers_of(records, pid) + batch =~= (approvers_of(records, pid) + prefix).push(
            batch.last(),
        ));
    }
}

/// With the batch free of duplicates and of approvers already recorded for
/// the proposal, every single append in the batch meets a ledger on which
/// its approver is still fresh: each of the N approve calls succeeds, none
/// reports `AlreadyApproved`.
pub proof fn lemma_batch_approvals_each_fresh(records: Seq<ApprovalRecord>, pid: u64,
    batch: Seq<u64>)
    requires
        forall|i: int, j: int| 0 <= i < j < batch.len() ==> batch[i] != batch[j],
        forall|i: int|
            0 <= i < batch.len() ==> !approvers_of(records, pid).contains(#[trigger] batch[i]),
    ensures
        forall|k: int|
            0 <= k < batch.len() ==> !approvers_of(
                records + records_for(pid, #[trigger] batch.take(k)),
                pid,
            ).contains(batch[k]),
{
    assert forall|k: int| 0 <= k < batch.len() implies !approvers_of(
        records + records_for(pid, batch.take(k)),
        pid,
    ).contains(batch[k]) by {
        lemma_batch_approvals_all_counted(records, pid, batch.take(k));
        let seen = approvers_of(records, pid) + batch.take(k);
        if seen.contains(batch[k]) {
            let x = choose|x: int| 0 <= x < seen.len() && seen[x] == batch[k];
            if x < approvers_of(records, pid).len() {
                assert(approvers_of(records, pid)[x] == batch[k]);
                assert(approvers_of(records, pid).contains(batch[k]));
            } else {
                let y = x - approvers_of(records, pid).len();
                assert(batch[y] == batch[k] && y < k);
            }
        }
    }
}

/// Stepping a prefix of the record sequence one record forward.
pub proof fn lemma_approvers_take_step(records: Seq<ApprovalRecord>, pid: u64, i: int)
    requires
        0 <= i < records.len(),
    ensures
        records[i].proposal_id == pid ==> approvers_of(records.take(i + 1), pid) == approvers_of(
            records.take(i),
            pid,
        ).push(records[i].approver),
        records[i].proposal_id != pid ==> approvers_of(records.take(i + 1), pid) == approvers_of(
            records.take(i),
            pid,
        ),
{
    assert(records.take(i + 1).drop_last() =~= records.take(i));
    assert(records.take(i + 1).last() == records[i]);
}

/// Tracks, per proposal, the distinct approving identities.
#[derive(Debug)]
pub struct ApprovalLedger {
    records: Vec<ApprovalRecord>,
}

impl ApprovalLedger {
    /// The full append-only record sequence.
    pub closed spec fn spec_records(self) -> Seq<ApprovalRecord> {
        self.records@
    }

    /// The approvers recorded for one proposal, in insertion order.
    pub open spec fn spec_approvers(self, proposal_id: u64) -> Seq<u64> {
        approvers_of(self.spec_records(), proposal_id)
    }

    /// No (proposal, approver) pair is recorded twice.
    pub closed spec fn wf(self) -> bool {
        forall|i: int, j: int|
            0 <= i < j < self.records@.len() && self.records@[i].proposal_id
                == self.records@[j].proposal_id ==> self.records@[i].approver
                != self.records@[j].approver
    }

    pub fn new() -> (r: Self)
        ensures
            r.wf(),
            forall|pid: u64| r.spec_approvers(pid) == Seq::<u64>::empty(),
    {
        let ledger = ApprovalLedger { records: Vec::new() };
        proof {
            assert(forall|pid: u64| ledger.spec_approvers(pid) =~= Seq::<u64>::empty());
        }
        ledger
    }

    /// Whether this approver is already recorded for this proposal.
    fn is_recorded(&self, proposal_id: u64, approver: u64) -> (r: bool)
        ensures
            r == self.spec_approvers(proposal_id).contains(approver),
    {
        let n = self.records.len();
        let mut found = false;
        for i in 0..n
            invariant
                n == self.records@.len(),
                found == exists|j: int|
                    0 <= j < i && self.records@[j].proposal_id == proposal_id
                        && self.records@[j].approver == approver,
        {
            if self.records[i].proposal_id == proposal_id && self.records[i].approver == approver {
                found = true;
            }
        }
        proof {
            lemma_approvers_contains(self.records@, proposal_id, approver);
        }
        found
    }

    /// The number of distinct approvers recorded for this proposal.
    pub fn count(&self, proposal_id: u64) -> (r: usize)
        ensures
            r == self.spec_approvers(proposal_id).len(),
    {
        let n = self.records.len();
        let mut c: usize = 0;
        for i in 0..n
            invariant
                n == self.records@.len(),
                c == approvers_of(self.records@.take(i as int), proposal_id).len(),
                c <= i,
        {
            proof {
                lemma_approvers_take_step(self.records@, proposal_id, i as int);
            }
            if self.records[i].proposal_id == proposal_id {
                c = c + 1;
            }
        }
        proof {
            assert(self.records@.take(n as int) =~= self.records@);
        }
        c
    }

    /// Records an approval, or reports `AlreadyApproved` without any change.
    /// Approvals for other proposals are untouched either way.
    pub fn approve(&mut self, proposal_id: u64, approver: u64, signature: Option<Vec<u8>>) -> (r:
        Result<usize, UpgradeError>)
        requires
            old(self).wf(),
        ensures
            final(self).wf(),
            old(self).spec_approvers(proposal_id).contains(approver) ==> {
                &&& r == Err::<usize, UpgradeError>(UpgradeError::AlreadyApproved)
                &&& final(self).spec_records() == old(self).spec_records()
            },
            !old(self).spec_approvers(proposal_id).contains(approver) ==> {
                &&& r == Ok::<usize, UpgradeError>(
                    (old(self).spec_approvers(proposal_id).len() + 1) as usize,
                )
                &&& final(self).spec_approvers(proposal_id) == old(self).spec_approvers(
                    proposal_id,
                ).push(approver)
            },
            forall|pid: u64|
                pid != proposal_id ==> final(self).spec_approvers(pid) == old(self).spec_approvers(
                    pid,
                ),
    {
        if self.is_recorded(proposal_id, approver) {
            return Err(UpgradeError::AlreadyApproved);
        }
        proof {
            lemma_approvers_contains(self.records@, proposal_id, approver);
        }
        let rec = ApprovalRecord { proposal_id, approver, signature };
        self.records.push(rec);
        proof {
            let s = self.records@;
            assert(s.drop_last() =~= old(self).spec_records());
            assert(s.last().proposal_id == proposal_id && s.last().approver == approver);
            assert forall|pid: u64| #[trigger]
                self.spec_approvers(pid) == if pid == proposal_id {
                    old(self).spec_approvers(pid).push(approver)
                } else {
                    old(self).spec_approvers(pid)
                } by {
                assert(approvers_of(s, pid) == if s.last().proposal_id == pid {
                    approvers_of(s.drop_last(), pid).push(s.last().approver)
                } else {
                    approvers_of(s.drop_last(), pid)
                });
            }
            assert forall|i: int, j: int|
                0 <= i < j < s.len() && s[i].proposal_id == s[j].proposal_id implies s[i].approver
                != s[j].approver by {
                if j == s.len() - 1 && s[i].proposal_id == proposal_id {
                    lemma_approvers_contains(old(self).spec_records(), proposal_id, s[i].approver);
                }
            }
        }
        let new_count = self.count(proposal_id);
        Ok(new_count)
    }

    /// Whether the recorded approvals reach the threshold.
    pub fn quorum_met(&self, proposal_id: u64, threshold: u8) -> (r: bool)
        ensures
            r == (self.spec_approvers(proposal_id).len() >= threshold),
    {
        let c = self.count(proposal_id);
        c >= threshold as usize
    }
}

} // verus!
