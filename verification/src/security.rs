//! Security checks consumed by the coordinator before propose and execute:
//! multisig configuration rules, the timelock floor, and the pre-execution
//! audit of a candidate binary.

use sha2::Digest;
use vstd::prelude::*;

use crate::errors::{ConfigViolation, UpgradeError};

verus! {

/// The mandatory minimum delay between proposing an upgrade and being allowed
/// to execute it: 48 hours.
pub const MIN_TIMELOCK_SECONDS: i64 = 48 * 60 * 60;

/// A blocking finding of the pre-execution audit.
#[derive(Debug, Clone, Copy, PartialEq, Eq, Structural)]
pub enum AuditIssue {
    /// The candidate binary's hash differs from the trusted expected hash.
    HashMismatch,
    /// The buffer account could not be independently verified to exist.
    BufferUnverified,
    /// The binary matches a known-vulnerable fingerprint.
    KnownVulnerability,
}

/// A non-blocking finding of the pre-execution audit.
#[derive(Debug, Clone, Copy, PartialEq, Eq, Structural)]
pub enum AuditWarning {
    /// The upgrade description is implausibly short.
    DescriptionTooShort,
    /// The description carries no explicit review acknowledgment.
    NoReviewAcknowledgment,
}

#[derive(Debug, Clone, Copy, PartialEq, Eq, Structural)]
pub enum AuditSeverity {
    Pass,
    Warning,
    Critical,
}

/// Outcome of auditing one proposal.
#[derive(Debug, Clone)]
pub struct AuditResult {
    pub passed: bool,
    pub severity: AuditSeverity,
    pub issues: Vec<AuditIssue>,
    pub warnings: Vec<AuditWarning>,
}

impl AuditResult {
    /// Execution is permitted only when the audit found no blocking issue.
    pub fn can_proceed(&self) -> (r: bool)
        ensures
            r == (self.passed && self.severity != AuditSeverity::Critical),
    {
        self.passed && self.severity != AuditSeverity::Critical
    }
}

/// What `sha2::Sha256::digest` returns for the given bytes: a pure function
/// of the input alone, left unspecified here.
pub uninterp spec fn sha256_of(data: Seq<u8>) -> Seq<u8>;

/// Whether every member id in the sequence is distinct.
pub open spec fn distinct_members(members: Seq<u64>) -> bool {
    forall|i: int, j: int| 0 <= i < j < members.len() ==> members[i] != members[j]
}

/// The multisig configuration rules: size within [3, 20], threshold within
/// [2, size], threshold at least half the membership (rounded up), and no
/// duplicate members.
pub open spec fn spec_config_ok(members: Seq<u64>, threshold: u8) -> bool {
    &&& 3 <= members.len() <= 20
    &&& 2 <= threshold
    &&& threshold <= members.len()
    &&& threshold >= (members.len() + 1) / 2
    &&& distinct_members(members)
}

/// The first configuration rule a candidate configuration breaks, in the
/// order the checks run (meaningful only when `spec_config_ok` fails).
pub open spec fn spec_config_violation(members: Seq<u64>, threshold: u8) -> ConfigViolation {
    if members.len() < 3 {
        ConfigViolation::TooFewMembers
    } else if members.len() > 20 {
        ConfigViolation::TooManyMembers
    } else if threshold < 2 {
        ConfigViolation::ThresholdTooLow
    } else if threshold > members.len() {
        ConfigViolation::ThresholdAboveMemberCount
    } else if !distinct_members(members) {
        ConfigViolation::DuplicateMembers
    } else {
        ConfigViolation::ThresholdBelowMajority
    }
}

/// ASCII letters folded to lower case; every other byte unchanged.
pub open spec fn ascii_lower(b: u8) -> u8 {
    if 65 <= b <= 90 {
        (b + 32) as u8
    } else {
        b
    }
}

/// The bytes of the review marker word, lower case.
pub open spec fn review_marker() -> Seq<u8> {
    seq![114u8, 101u8, 118u8, 105u8, 101u8, 119u8, 101u8, 100u8]
}

/// Whether the marker word occurs in the description at position `i`,
/// compared case-insensitively over ASCII.
pub open spec fn review_marker_at(description: Seq<u8>, i: int) -> bool {
    &&& 0 <= i
    &&& i + review_marker().len() <= description.len()
    &&& forall|j: int|
        0 <= j < review_marker().len() ==> ascii_lower(description[i + j]) == review_marker()[j]
}

/// Whether the description acknowledges a review anywhere.
pub open spec fn has_review_ack(description: Seq<u8>) -> bool {
    exists|i: int| review_marker_at(description, i)
}

/// The blocking findings of an audit, in the order the audit reports them.
pub open spec fn spec_audit_issues(hash_matches: bool, buffer_verified: bool, known_vulnerable: bool)
    -> Seq<AuditIssue> {
    (if !hash_matches {
        seq![AuditIssue::HashMismatch]
    } else {
        Seq::empty()
    }) + (if !buffer_verified {
        seq![AuditIssue::BufferUnverified]
    } else {
        Seq::empty()
    }) + (if known_vulnerable {
        seq![AuditIssue::KnownVulnerability]
    } else {
        Seq::empty()
    })
}

/// The non-blocking findings of an audit, in the order the audit reports them.
pub open spec fn spec_audit_warnings(description: Seq<u8>) -> Seq<AuditWarning> {
    (if description.len() < 50 {
        seq![AuditWarning::DescriptionTooShort]
    } else {
        Seq::empty()
    }) + (if !has_review_ack(description) {
        seq![AuditWarning::NoReviewAcknowledgment]
    } else {
        Seq::empty()
    })
}

/// Security audit checks for upgrade proposals.
pub struct SecurityAuditor;

impl SecurityAuditor {
    /// SHA-256 of a program binary.
    ///
    /// Relies on `sha2::Sha256::digest`: the digest is a function of the
    /// input bytes alone, named here by `sha256_of`.
    #[verifier::external_body]
    pub fn calculate_program_hash(program_binary: &[u8]) -> (r: [u8; 32])
        ensures
            r@ == sha256_of(program_binary@),
    {
        sha2::Sha256::digest(program_binary).into()
    }

    /// Whether a binary hashes to the expected digest.
    pub fn verify_program_hash(&self, program_binary: &[u8], expected_hash: &[u8; 32]) -> (r: bool)
        ensures
            r == (sha256_of(program_binary@) == expected_hash@),
    {
        let hash = Self::calculate_program_hash(program_binary);
        let same = bytes32_eq(&hash, expected_hash);
        proof {
            if same {
                assert(sha256_of(program_binary@) =~= expected_hash@);
            }
        }
        same
    }

    /// Whether the program data held in an on-chain account hashes to the
    /// expected digest. The first 45 bytes of the account are its header; a
    /// shorter account is malformed.
    pub fn verify_onchain_program(&self, account_data: &[u8], expected_hash: &[u8; 32]) -> (r:
        Result<bool, UpgradeError>)
        ensures
            account_data@.len() < 45 ==> r == Err::<bool, UpgradeError>(
                UpgradeError::InvalidProgramAccount,
            ),
            account_data@.len() >= 45 ==> r == Ok::<bool, UpgradeError>(
                sha256_of(account_data@.subrange(45, account_data@.len() as int))
                    == expected_hash@,
            ),
    {
        if account_data.len() < 45 {
            return Err(UpgradeError::InvalidProgramAccount);
        }
        let program_data: &[u8] = &account_data[45..account_data.len()];
        Ok(self.verify_program_hash(program_data, expected_hash))
    }

    /// Checks a candidate multisig configuration against every rule; a
    /// violation is reported, never silently clamped.
    pub fn verify_multisig_config(&self, members: &Vec<u64>, threshold: u8) -> (r: Result<
        bool,
        UpgradeError,
    >)
        ensures
            r is Ok <==> spec_config_ok(members@, threshold),
            r is Ok ==> r == Ok::<bool, UpgradeError>(true),
            !spec_config_ok(members@, threshold) ==> r == Err::<bool, UpgradeError>(
                UpgradeError::InvalidConfig(spec_config_violation(members@, threshold)),
            ),
    {
        if members.len() < 3 {
            return Err(UpgradeError::InvalidConfig(ConfigViolation::TooFewMembers));
        }
        if members.len() > 20 {
            return Err(UpgradeError::InvalidConfig(ConfigViolation::TooManyMembers));
        }
        if threshold < 2 {
            return Err(UpgradeError::InvalidConfig(ConfigViolation::ThresholdTooLow));
        }
        if threshold as usize > members.len() {
            return Err(UpgradeError::InvalidConfig(ConfigViolation::ThresholdAboveMemberCount));
        }
        if has_duplicate(members) {
            return Err(UpgradeError::InvalidConfig(ConfigViolation::DuplicateMembers));
        }
        let min_threshold = (members.len() + 1) / 2;
        if (threshold as usize) < min_threshold {
            return Err(UpgradeError::InvalidConfig(ConfigViolation::ThresholdBelowMajority));
        }
        Ok(true)
    }

    /// Checks a requested delay against the mandatory floor; a shorter delay
    /// is rejected here, at creation time, never at execute time.
    pub fn verify_timelock(&self, timelock_seconds: i64) -> (r: Result<bool, UpgradeError>)
        ensures
            timelock_seconds >= MIN_TIMELOCK_SECONDS ==> r == Ok::<bool, UpgradeError>(true),
            timelock_seconds < MIN_TIMELOCK_SECONDS ==> r == Err::<bool, UpgradeError>(
                UpgradeError::TimelockTooShort { minimum_seconds: MIN_TIMELOCK_SECONDS },
            ),
    {
        if timelock_seconds < MIN_TIMELOCK_SECONDS {
            return Err(UpgradeError::TimelockTooShort { minimum_seconds: MIN_TIMELOCK_SECONDS });
        }
        Ok(true)
    }

    /// Audits an upgrade proposal before execution. The expected hash, the
    /// buffer-existence check and the vulnerability-fingerprint check come
    /// from the caller's trusted sources; the audit itself decides the
    /// outcome from them and from the description.
    pub fn audit_proposal(&self, program_hash: &[u8; 32], expected_hash: &[u8; 32],
        buffer_verified: bool, known_vulnerable: bool, description: &Vec<u8>) -> (r: AuditResult)
        ensures
            r.issues@ == spec_audit_issues(
                program_hash@ == expected_hash@,
                buffer_verified,
                known_vulnerable,
            ),
            r.warnings@ == spec_audit_warnings(description@),
            r.passed == (r.issues@.len() == 0),
            r.severity == (if r.issues@.len() > 0 {
                AuditSeverity::Critical
            } else if r.warnings@.len() > 0 {
                AuditSeverity::Warning
            } else {
                AuditSeverity::Pass
            }),
    {
        let mut issues: Vec<AuditIssue> = Vec::new();
        let mut warnings: Vec<AuditWarning> = Vec::new();

        let hash_matches = bytes32_eq(program_hash, expected_hash);
        proof {
            if hash_matches {
                assert(program_hash@ =~= expected_hash@);
            }
        }
        if !hash_matches {
            issues.push(AuditIssue::HashMismatch);
        }
        if description.len() < 50 {
            warnings.push(AuditWarning::DescriptionTooShort);
        }
        if !buffer_verified {
            issues.push(AuditIssue::BufferUnverified);
        }
        if known_vulnerable {
            issues.push(AuditIssue::KnownVulnerability);
        }
        if !contains_review_ack(description) {
            warnings.push(AuditWarning::NoReviewAcknowledgment);
        }

        proof {
            assert(issues@ =~= spec_audit_issues(
                program_hash@ == expected_hash@,
                buffer_verified,
                known_vulnerable,
            ));
            assert(warnings@ =~= spec_audit_warnings(description@));
        }

        let passed = issues.len() == 0;
        let severity = if issues.len() > 0 {
            AuditSeverity::Critical
        } else if warnings.len() > 0 {
            AuditSeverity::Warning
        } else {
            AuditSeverity::Pass
        };
        AuditResult { passed, severity, issues, warnings }
    }
}

/// Whether any member id occurs twice.
fn has_duplicate(members: &Vec<u64>) -> (r: bool)
    ensures
        r == !distinct_members(members@),
{
    let n = members.len();
    for i in 0..n
        invariant
            n == members@.len(),
            forall|a: int, b: int| 0 <= a < b < n && a < i ==> members@[a] != members@[b],
    {
        for j in (i + 1)..n
            invariant
                n == members@.len(),
                i < n,
                forall|a: int, b: int| 0 <= a < b < n && a < i ==> members@[a] != members@[b],
                forall|b: int| i < b < j ==> members@[i as int] != members@[b],
        {
            if members[i] == members[j] {
                return true;
            }
        }
    }
    false
}

/// Elementwise equality of two 32-byte digests.
fn bytes32_eq(a: &[u8; 32], b: &[u8; 32]) -> (r: bool)
    ensures
        r == (forall|i: int| 0 <= i < 32 ==> a@[i] == b@[i]),
{
    for i in 0..32
        invariant
            forall|j: int| 0 <= j < i ==> a@[j] == b@[j],
    {
        if a[i] != b[i] {
            return false;
        }
    }
    true
}

/// A byte with ASCII letters folded to lower case.
fn ascii_lower_byte(b: u8) -> (r: u8)
    ensures
        r == ascii_lower(b),
{
    if 65 <= b && b <= 90 {
        b + 32
    } else {
        b
    }
}

/// Whether the marker word stands at position `i` of the description,
/// compared case-insensitively over ASCII.
fn marker_matches_at(description: &Vec<u8>, marker: &[u8; 8], i: usize) -> (r: bool)
    requires
        i + 8 <= description@.len(),
        marker@ == review_marker(),
    ensures
        r == review_marker_at(description@, i as int),
{
    let n = description.len();
    let mut j: usize = 0;
    while j < 8
        invariant
            j <= 8,
            n == description@.len(),
            i + 8 <= n,
            marker@ == review_marker(),
            forall|m: int| 0 <= m < j ==> ascii_lower(description@[i + m]) == review_marker()[m],
        decreases 8 - j,
    {
        if ascii_lower_byte(description[i + j]) != marker[j] {
            proof {
                assert(ascii_lower(description@[i + j]) != review_marker()[j as int]);
            }
            return false;
        }
        j = j + 1;
    }
    proof {
        assert(review_marker_at(description@, i as int));
    }
    true
}

/// Whether the description mentions a review, compared case-insensitively
/// over ASCII.
pub fn contains_review_ack(description: &Vec<u8>) -> (r: bool)
    ensures
        r == has_review_ack(description@),
{
    let marker: [u8; 8] = [114, 101, 118, 105, 101, 119, 101, 100];
    proof {
        assert(marker@ =~= review_marker());
    }
    if description.len() < 8 {
        proof {
            assert(forall|i: int| !review_marker_at(description@, i));
        }
        return false;
    }
    let last_start = description.len() - 8;
    let mut i: usize = 0;
    while i <= last_start
        invariant
            description@.len() >= 8,
            last_start == description@.len() - 8,
            last_start <= usize::MAX - 8,
            i <= last_start + 1,
            marker@ == review_marker(),
            forall|k: int| 0 <= k < i ==> !review_marker_at(description@, k),
        decreases last_start - i + 1,
    {
        if marker_matches_at(description, &marker, i) {
            return true;
        }
        i = i + 1;
    }
    proof {
        assert forall|k: int| !review_marker_at(description@, k) by {
            if 0 <= k <= description@.len() - 8 {
                assert(k < i);
            }
        }
    }
    false
}

} // verus!
