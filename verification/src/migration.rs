//! The migration supervisor: after an upgrade, data records are transformed
//! batch-wise to the new format. A registered transformer produces the new
//! bytes and a verifier confirms the old bytes survive as a prefix with new
//! fields appended; a failed record raises the failed counter without
//! halting the batch, and a finished job always accounts for every record.

use vstd::prelude::*;

use crate::errors::UpgradeError;

verus! {

#[derive(Debug, Clone, Copy, PartialEq, Eq, Structural)]
pub enum MigrationStatus {
    NotStarted,
    InProgress,
    Completed,
    Failed,
}

#[derive(Debug, Clone, Copy, PartialEq, Eq, Structural)]
pub enum MigrationError {
    InvalidData,
    TransformationFailed,
    VerificationFailed,
    AccountNotFound,
}

impl From<MigrationError> for UpgradeError {
    fn from(err: MigrationError) -> (r: UpgradeError) {
        UpgradeError::MigrationFailed(err)
    }
}

impl vstd::std_specs::convert::FromSpecImpl<MigrationError> for UpgradeError {
    open spec fn obeys_from_spec() -> bool {
        true
    }

    open spec fn from_spec(t: MigrationError) -> UpgradeError {
        UpgradeError::MigrationFailed(t)
    }
}

/// Progress of one migration job.
#[derive(Debug, Clone, Copy, PartialEq, Eq, Structural)]
pub struct MigrationProgress {
    pub migration_id: u64,
    pub total_accounts: usize,
    pub migrated_accounts: usize,
    pub failed_accounts: usize,
    pub status: MigrationStatus,
    pub started_at: i64,
    pub completed_at: Option<i64>,
}

/// A versioned transformation of one record's bytes, paired with the check
/// that accepts its output.
pub trait AccountMigrator: Sized {
    /// Which record bytes this migrator can transform.
    spec fn spec_migratable(&self, old_data: Seq<u8>) -> bool;

    /// What the verifier accepts as a sound transformation of `old_data`.
    spec fn spec_verified(&self, old_data: Seq<u8>, new_data: Seq<u8>) -> bool;

    /// Transforms a record to the new format; fails exactly on records this
    /// migrator cannot transform, and always produces verifiable output.
    fn migrate(&self, old_data: &Vec<u8>) -> (r: Result<Vec<u8>, MigrationError>)
        ensures
            r is Ok <==> self.spec_migratable(old_data@),
            r matches Ok(new_data) ==> self.spec_verified(old_data@, new_data@),
    ;

    /// Decides whether the transformed bytes are a sound extension of the
    /// old record.
    fn verify(&self, old_data: &Vec<u8>, new_data: &Vec<u8>) -> (r: Result<bool, MigrationError>)
        ensures
            r == Ok::<bool, MigrationError>(self.spec_verified(old_data@, new_data@)),
    ;
}

/// The current unix time in seconds.
///
/// Relies on `chrono::Utc::now`: the wall clock, about whose value nothing
/// is promised.
#[verifier::external_body]
fn current_unix_time() -> i64 {
    chrono::Utc::now().timestamp()
}

/// The eight little-endian bytes of a timestamp.
fn le_bytes_8(x: i64) -> (r: [u8; 8])
    ensures
        r@.len() == 8,
{
    let u = #[verifier::truncate] (x as u64);
    [
        #[verifier::truncate] (u as u8),
        #[verifier::truncate] ((u >> 8) as u8),
        #[verifier::truncate] ((u >> 16) as u8),
        #[verifier::truncate] ((u >> 24) as u8),
        #[verifier::truncate] ((u >> 32) as u8),
        #[verifier::truncate] ((u >> 40) as u8),
        #[verifier::truncate] ((u >> 48) as u8),
        #[verifier::truncate] ((u >> 56) as u8),
    ]
}

/// The four little-endian bytes of a version marker.
fn le_bytes_4(x: u32) -> (r: [u8; 4])
    ensures
        r@.len() == 4,
{
    [
        #[verifier::truncate] (x as u8),
        #[verifier::truncate] ((x >> 8) as u8),
        #[verifier::truncate] ((x >> 16) as u8),
        #[verifier::truncate] ((x >> 24) as u8),
    ]
}

/// Migrates a user account record from the first to the second layout:
/// the old bytes survive unchanged, a last-active timestamp (8 bytes) and a
/// version marker (4 bytes) are appended.
pub struct UserAccountMigrator {
    old_version: u32,
    new_version: u32,
}

impl UserAccountMigrator {
    pub fn new() -> (r: Self)
        ensures
            r.spec_old_version() == 1,
            r.spec_new_version() == 2,
    {
        UserAccountMigrator { old_version: 1, new_version: 2 }
    }

    pub closed spec fn spec_old_version(self) -> u32 {
        self.old_version
    }

    pub closed spec fn spec_new_version(self) -> u32 {
        self.new_version
    }
}

impl AccountMigrator for UserAccountMigrator {
    /// A well-formed old-layout record holds at least an owner (32 bytes)
    /// and a balance (8 bytes).
    open spec fn spec_migratable(&self, old_data: Seq<u8>) -> bool {
        old_data.len() >= 40
    }

    /// The old bytes are a prefix of the new, and at least the appended
    /// timestamp (8 bytes) and version marker (4 bytes) follow them.
    open spec fn spec_verified(&self, old_data: Seq<u8>, new_data: Seq<u8>) -> bool {
        &&& new_data.len() >= old_data.len() + 12
        &&& new_data.subrange(0, old_data.len() as int) == old_data
    }

    fn migrate(&self, old_data: &Vec<u8>) -> (r: Result<Vec<u8>, MigrationError>) {
        if old_data.len() < 40 {
            return Err(MigrationError::InvalidData);
        }
        let mut new_data: Vec<u8> = Vec::new();
        let n = old_data.len();
        for i in 0..n
            invariant
                n == old_data@.len(),
                new_data@ =~= old_data@.take(i as int),
        {
            new_data.push(old_data[i]);
        }
        proof {
            assert(new_data@ =~= old_data@);
        }
        let last_active = le_bytes_8(current_unix_time());
        for i in 0..8
            invariant
                new_data@.len() == old_data@.len() + i,
                new_data@.subrange(0, old_data@.len() as int) =~= old_data@,
        {
            new_data.push(last_active[i]);
        }
        let version_marker = le_bytes_4(self.new_version);
        for i in 0..4
            invariant
                new_data@.len() == old_data@.len() + 8 + i,
                new_data@.subrange(0, old_data@.len() as int) =~= old_data@,
        {
            new_data.push(version_marker[i]);
        }
        Ok(new_data)
    }

    fn verify(&self, old_data: &Vec<u8>, new_data: &Vec<u8>) -> (r: Result<bool, MigrationError>) {
        if new_data.len() < old_data.len() {
            return Ok(false);
        }
        let old_len = old_data.len();
        for i in 0..old_len
            invariant
                old_len == old_data@.len(),
                new_data@.len() >= old_data@.len(),
                forall|j: int| 0 <= j < i ==> new_data@[j] == old_data@[j],
        {
            if new_data[i] != old_data[i] {
                proof {
                    assert(new_data@.subrange(0, old_data@.len() as int)[i as int]
                        != old_data@[i as int]);
                }
                return Ok(false);
            }
        }
        if new_data.len() - old_len < 12 {
            proof {
                assert(!self.spec_verified(old_data@, new_data@));
            }
            return Ok(false);
        }
        proof {
            assert(new_data@.subrange(0, old_data@.len() as int) =~= old_data@);
        }
        Ok(true)
    }
}

/// Transforms one record and confirms the result, handing back the new
/// bytes; a record the migrator cannot transform, or whose transformation
/// the verifier rejects, is a failure for that record alone.
pub fn migrate_single_account<M: AccountMigrator>(account_data: &Vec<u8>, migrator: &M) -> (r:
    Result<Vec<u8>, MigrationError>)
    ensures
        r is Ok <==> migrator.spec_migratable(account_data@),
        r matches Ok(new_data) ==> migrator.spec_verified(account_data@, new_data@),
{
    let new_data = match migrator.migrate(account_data) {
        Ok(d) => d,
        Err(e) => {
            return Err(e);
        },
    };
    let verified = match migrator.verify(account_data, &new_data) {
        Ok(v) => v,
        Err(e) => {
            return Err(e);
        },
    };
    if !verified {
        return Err(MigrationError::VerificationFailed);
    }
    Ok(new_data)
}

/// How many records of the batch the migrator can transform.
pub open spec fn spec_migratable_count<M: AccountMigrator>(migrator: M, records: Seq<Vec<u8>>)
    -> int
    decreases records.len(),
{
    if records.len() == 0 {
        0
    } else {
        spec_migratable_count(migrator, records.drop_last()) + if migrator.spec_migratable(
            records.last()@,
        ) {
            1int
        } else {
            0int
        }
    }
}

/// The count over a batch prefix grows by at most one per record.
proof fn lemma_migratable_count_take_step<M: AccountMigrator>(migrator: M, records: Seq<Vec<u8>>,
    i: int)
    requires
        0 <= i < records.len(),
    ensures
        spec_migratable_count(migrator, records.take(i + 1)) == spec_migratable_count(
            migrator,
            records.take(i),
        ) + if migrator.spec_migratable(records[i]@) {
            1int
        } else {
            0int
        },
{
    assert(records.take(i + 1).drop_last() =~= records.take(i));
    assert(records.take(i + 1).last() == records[i]);
}

/// The count never exceeds the batch length.
proof fn lemma_migratable_count_bound<M: AccountMigrator>(migrator: M, records: Seq<Vec<u8>>)
    ensures
        0 <= spec_migratable_count(migrator, records) <= records.len(),
    decreases records.len(),
{
    if records.len() > 0 {
        lemma_migratable_count_bound(migrator, records.drop_last());
    }
}

/// Supervises migration jobs: creates them, runs batches through a
/// migrator, and answers progress queries.
#[derive(Debug)]
pub struct MigrationManager {
    migrations: Vec<MigrationProgress>,
    next_migration_id: u64,
}

impl MigrationManager {
    pub closed spec fn spec_jobs(self) -> Seq<MigrationProgress> {
        self.migrations@
    }

    pub closed spec fn spec_next_id(self) -> u64 {
        self.next_migration_id
    }

    /// Whether a job with this id exists.
    pub open spec fn spec_has(self, migration_id: u64) -> bool {
        exists|i: int|
            0 <= i < self.spec_jobs().len() && self.spec_jobs()[i].migration_id == migration_id
    }

    /// The index of this id's job (well defined under `wf()` when it exists).
    pub closed spec fn spec_jindex(self, migration_id: u64) -> int {
        choose|i: int|
            0 <= i < self.spec_jobs().len() && self.spec_jobs()[i].migration_id == migration_id
    }

    /// The job with this id.
    pub open spec fn spec_job(self, migration_id: u64) -> MigrationProgress {
        self.spec_jobs()[self.spec_jindex(migration_id)]
    }

    /// Job ids are distinct, counters never outrun the total, and a
    /// completed job accounts for every record: migrated + failed == total.
    pub closed spec fn wf(self) -> bool {
        let js = self.spec_jobs();
        &&& forall|i: int, j: int|
            0 <= i < j < js.len() ==> js[i].migration_id != js[j].migration_id
        &&& forall|i: int| 0 <= i < js.len() ==> js[i].migration_id < self.next_migration_id
        &&& forall|i: int|
            0 <= i < js.len() ==> js[i].migrated_accounts + js[i].failed_accounts
                <= js[i].total_accounts
        &&& forall|i: int|
            0 <= i < js.len() && js[i].status == MigrationStatus::Completed
                ==> js[i].migrated_accounts + js[i].failed_accounts == js[i].total_accounts
    }

    /// Under `wf()`, any witness index for an existing id is the chosen one.
    proof fn lemma_jindex_unique(self, migration_id: u64)
        requires
            self.wf(),
        ensures
            forall|i: int|
                0 <= i < self.spec_jobs().len() && self.spec_jobs()[i].migration_id == migration_id
                    ==> i == self.spec_jindex(migration_id),
    {
        let js = self.spec_jobs();
        assert forall|i: int|
            0 <= i < js.len() && js[i].migration_id == migration_id implies i == self.spec_jindex(
            migration_id,
        ) by {
            let j = self.spec_jindex(migration_id);
            assert(0 <= j < js.len() && js[j].migration_id == migration_id);
            if i != j {
                assert(js[i].migration_id != js[j].migration_id);
            }
        }
    }

    pub fn new() -> (r: Self)
        ensures
            r.wf(),
            r.spec_jobs() == Seq::<MigrationProgress>::empty(),
    {
        let manager = MigrationManager { migrations: Vec::new(), next_migration_id: 1 };
        proof {
            assert(manager.spec_jobs() =~= Seq::<MigrationProgress>::empty());
        }
        manager
    }

    /// The position of this id's job, if any.
    fn find_job_index(&self, migration_id: u64) -> (r: Option<usize>)
        requires
            self.wf(),
        ensures
            match r {
                Some(i) => i < self.spec_jobs().len() && self.spec_jobs()[i as int].migration_id
                    == migration_id && i == self.spec_jindex(migration_id),
                None => !self.spec_has(migration_id),
            },
    {
        let n = self.migrations.len();
        for i in 0..n
            invariant
                n == self.migrations@.len(),
                self.wf(),
                forall|j: int| 0 <= j < i ==> self.migrations@[j].migration_id != migration_id,
        {
            if self.migrations[i].migration_id == migration_id {
                proof {
                    self.lemma_jindex_unique(migration_id);
                }
                return Some(i);
            }
        }
        None
    }

    /// Creates a job for a batch of `total_accounts` records, in progress
    /// with both counters at zero, and returns its id.
    pub fn start_migration(&mut self, total_accounts: usize, now: i64) -> (r: Result<
        u64,
        UpgradeError,
    >)
        requires
            old(self).wf(),
        ensures
            final(self).wf(),
            old(self).spec_next_id() == u64::MAX ==> {
                &&& r == Err::<u64, UpgradeError>(UpgradeError::InternalError)
                &&& *final(self) == *old(self)
            },
            old(self).spec_next_id() < u64::MAX ==> {
                &&& r == Ok::<u64, UpgradeError>(old(self).spec_next_id())
                &&& final(self).spec_next_id() == old(self).spec_next_id() + 1
                &&& final(self).spec_jobs().len() == old(self).spec_jobs().len() + 1
                &&& forall|i: int|
                    0 <= i < old(self).spec_jobs().len() ==> final(self).spec_jobs()[i] == old(
                        self,
                    ).spec_jobs()[i]
                &&& final(self).spec_jobs().last() == (MigrationProgress {
                    migration_id: old(self).spec_next_id(),
                    total_accounts,
                    migrated_accounts: 0,
                    failed_accounts: 0,
                    status: MigrationStatus::InProgress,
                    started_at: now,
                    completed_at: None,
                })
                &&& final(self).spec_has(old(self).spec_next_id())
                &&& final(self).spec_jindex(old(self).spec_next_id()) == old(
                    self,
                ).spec_jobs().len()
            },
    {
        if self.next_migration_id == u64::MAX {
            return Err(UpgradeError::InternalError);
        }
        let migration_id = self.next_migration_id;
        self.next_migration_id = self.next_migration_id + 1;
        let job = MigrationProgress {
            migration_id,
            total_accounts,
            migrated_accounts: 0,
            failed_accounts: 0,
            status: MigrationStatus::InProgress,
            started_at: now,
            completed_at: None,
        };
        self.migrations.push(job);
        proof {
            let js = self.spec_jobs();
            assert forall|i: int, j: int| 0 <= i < j < js.len() implies js[i].migration_id
                != js[j].migration_id by {
                if j == js.len() - 1 {
                    assert(old(self).spec_jobs()[i].migration_id < old(self).spec_next_id());
                }
            }
            let js = self.spec_jobs();
            assert(js[js.len() - 1].migration_id == migration_id);
            self.lemma_jindex_unique(migration_id);
        }
        Ok(migration_id)
    }

    /// Processes a whole batch against one migrator: every record is counted
    /// exactly once, as migrated or as failed, and the job completes with
    /// `migrated + failed == total` whatever the individual outcomes.
    pub fn migrate_accounts_batch<M: AccountMigrator>(&mut self, migration_id: u64, records: &Vec<
        Vec<u8>,
    >, migrator: &M, now: i64) -> (r: Result<(), UpgradeError>)
        requires
            old(self).wf(),
            old(self).spec_has(migration_id),
            old(self).spec_job(migration_id).status == MigrationStatus::InProgress,
            old(self).spec_job(migration_id).migrated_accounts == 0,
            old(self).spec_job(migration_id).failed_accounts == 0,
            old(self).spec_job(migration_id).total_accounts == records@.len(),
        ensures
            final(self).wf(),
            r is Ok,
            final(self).spec_next_id() == old(self).spec_next_id(),
            final(self).spec_jobs().len() == old(self).spec_jobs().len(),
            forall|j: int|
                0 <= j < old(self).spec_jobs().len() && j != old(self).spec_jindex(migration_id)
                    ==> final(self).spec_jobs()[j] == old(self).spec_jobs()[j],
            ({
                let i = old(self).spec_jindex(migration_id);
                let q = old(self).spec_jobs()[i];
                let p = final(self).spec_jobs()[i];
                &&& p.migration_id == q.migration_id
                &&& p.total_accounts == q.total_accounts
                &&& p.migrated_accounts == spec_migratable_count(*migrator, records@)
                &&& p.migrated_accounts + p.failed_accounts == p.total_accounts
                &&& p.status == MigrationStatus::Completed
                &&& p.started_at == q.started_at
                &&& p.completed_at == Some(now)
            }),
    {
        let idx = match self.find_job_index(migration_id) {
            Some(i) => i,
            None => {
                proof {
                    assert(false);
                }
                return Err(UpgradeError::ProposalNotFound(migration_id));
            },
        };
        let ghost pre = *self;
        let n = records.len();
        let mut k: usize = 0;
        while k < n
            invariant
                pre.wf(),
                n == records@.len(),
                k <= n,
                idx < self.migrations@.len(),
                self.migrations@.len() == pre.spec_jobs().len(),
                self.spec_next_id() == pre.spec_next_id(),
                forall|j: int|
                    0 <= j < pre.spec_jobs().len() && j != idx ==> self.migrations@[j]
                        == pre.spec_jobs()[j],
                ({
                    let q = pre.spec_jobs()[idx as int];
                    let p = self.migrations@[idx as int];
                    &&& p.migration_id == q.migration_id
                    &&& p.total_accounts == q.total_accounts
                    &&& p.migrated_accounts == spec_migratable_count(
                        *migrator,
                        records@.take(k as int),
                    )
                    &&& p.migrated_accounts + p.failed_accounts == k
                    &&& p.status == q.status
                    &&& p.started_at == q.started_at
                    &&& p.completed_at == q.completed_at
                }),
                pre.spec_jobs()[idx as int].total_accounts == records@.len(),
                pre.spec_jobs()[idx as int].migrated_accounts == 0,
                pre.spec_jobs()[idx as int].failed_accounts == 0,
            decreases n - k,
        {
            proof {
                lemma_migratable_count_take_step(*migrator, records@, k as int);
                lemma_migratable_count_bound(*migrator, records@.take(k as int));
            }
            let outcome = migrate_single_account(&records[k], migrator);
            let job = &mut self.migrations[idx];
            match outcome {
                Ok(_) => {
                    job.migrated_accounts = job.migrated_accounts + 1;
                },
                Err(_) => {
                    job.failed_accounts = job.failed_accounts + 1;
                },
            }
            k = k + 1;
        }
        proof {
            assert(records@.take(n as int) =~= records@);
        }
        let job = &mut self.migrations[idx];
        job.status = MigrationStatus::Completed;
        job.completed_at = Some(now);
        proof {
            pre.lemma_jindex_unique(migration_id);
            assert(idx as int == pre.spec_jindex(migration_id));
            lemma_migratable_count_bound(*migrator, records@);
            let js = self.spec_jobs();
            let pjs = pre.spec_jobs();
            assert forall|a: int, b: int| 0 <= a < b < js.len() implies js[a].migration_id
                != js[b].migration_id by {
                assert(js[a].migration_id == pjs[a].migration_id);
                assert(js[b].migration_id == pjs[b].migration_id);
            }
            assert forall|a: int| 0 <= a < js.len() implies js[a].migration_id
                < self.next_migration_id by {
                assert(js[a].migration_id == pjs[a].migration_id);
            }
            assert forall|a: int| 0 <= a < js.len() implies {
                &&& js[a].migrated_accounts + js[a].failed_accounts <= js[a].total_accounts
                &&& (js[a].status == MigrationStatus::Completed ==> js[a].migrated_accounts
                    + js[a].failed_accounts == js[a].total_accounts)
            } by {
                if a != idx {
                    assert(js[a] == pjs[a]);
                }
            }
        }
        Ok(())
    }

    /// The most recently created job, if any.
    pub fn get_progress(&self) -> (r: Option<&MigrationProgress>)
        ensures
            self.spec_jobs().len() == 0 ==> r is None,
            self.spec_jobs().len() > 0 ==> (r matches Some(p) && *p == self.spec_jobs().last()),
    {
        let n = self.migrations.len();
        if n == 0 {
            None
        } else {
            Some(&self.migrations[n - 1])
        }
    }

    /// The job with the given id.
    pub fn get_progress_of(&self, migration_id: u64) -> (r: Result<
        &MigrationProgress,
        UpgradeError,
    >)
        requires
            self.wf(),
        ensures
            self.spec_has(migration_id) ==> (r matches Ok(p) && *p == self.spec_job(migration_id)),
            !self.spec_has(migration_id) ==> (r matches Err(e) && e
                == UpgradeError::ProposalNotFound(migration_id)),
    {
        match self.find_job_index(migration_id) {
            Some(i) => Ok(&self.migrations[i]),
            None => Err(UpgradeError::ProposalNotFound(migration_id)),
        }
    }

    /// Once a job reads `Completed`, its two counters account for exactly
    /// the records it was created over.
    pub proof fn lemma_completed_job_accounts_for_all(self, i: int)
        requires
            self.wf(),
            0 <= i < self.spec_jobs().len(),
            self.spec_jobs()[i].status == MigrationStatus::Completed,
        ensures
            self.spec_jobs()[i].migrated_accounts + self.spec_jobs()[i].failed_accounts
                == self.spec_jobs()[i].total_accounts,
    {
    }
}

} // verus!
