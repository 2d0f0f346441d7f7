use vstd::prelude::*;

verus! {

/// Status of a certificate. `Revoked` and `Expired` are terminal: once a
/// record carries one of them, no operation mutates it again.
#[derive(Clone, Copy, Debug, PartialEq, Eq, Structural)]
pub enum CertificateStatus {
    Active,
    Revoked,
    Expired,
    Transferred,
}

/// Whether a status is terminal (no further transition is allowed from it).
pub open spec fn is_terminal(s: CertificateStatus) -> bool {
    s == CertificateStatus::Revoked || s == CertificateStatus::Expired
}

/// One certificate record. Identifiers (certificate, course, student,
/// instructor) are opaque tokens represented as integers; timestamps are
/// seconds. `original_expiry_date` is fixed at issuance and never changes;
/// `renewal_count` only grows.
pub struct CertificateMetadata {
    pub token_id: u64,
    pub course_id: u64,
    pub student_id: u64,
    pub instructor_id: u64,
    pub issue_date: u64,
    pub title: String,
    pub description: String,
    pub metadata_uri: String,
    pub status: CertificateStatus,
    pub expiry_date: u64,
    pub original_expiry_date: u64,
    pub renewal_count: u64,
    pub last_renewed_date: u64,
}

/// Per-record invariant: the expiry never sits before issuance, and renewals
/// only ever push `expiry_date` past the immutable `original_expiry_date`.
pub open spec fn wf_record(r: CertificateMetadata) -> bool {
    &&& r.issue_date <= r.original_expiry_date
    &&& r.original_expiry_date <= r.expiry_date
}

/// Caller-supplied inputs for minting one certificate.
pub struct MintCertificateParams {
    pub certificate_id: u64,
    pub course_id: u64,
    pub student: u64,
    pub title: String,
    pub description: String,
    pub metadata_uri: String,
    pub expiry_date: u64,
}

/// Append-only audit entry recorded when a certificate's metadata URI is
/// overridden.
pub struct MetadataUpdateEntry {
    pub updater: u64,
    pub updated_at: u64,
    pub previous_uri: String,
    pub new_uri: String,
}

/// A directed prerequisite edge: `course` depends on `required_course`.
/// Non-mandatory edges never block eligibility; they only inform
/// learning-path construction.
#[derive(Clone, Copy, Debug, PartialEq, Eq, Structural)]
pub struct CoursePrerequisite {
    pub course: u64,
    pub required_course: u64,
    pub mandatory: bool,
}

/// An admin-granted exception: satisfies the prerequisite `course` for one
/// `student` without the underlying certificate, until `expires_at` (if any).
pub struct PrerequisiteOverride {
    pub student: u64,
    pub course: u64,
    pub authority: u64,
    pub reason: String,
    pub expires_at: Option<u64>,
}

/// One unmet mandatory requirement reported by an eligibility check.
#[derive(Clone, Copy, Debug, PartialEq, Eq, Structural)]
pub struct PrerequisiteViolation {
    pub required_course: u64,
}

/// Outcome of an eligibility check: `satisfied` holds exactly when
/// `violations` is empty, and `violations` lists every unmet mandatory
/// requirement in increasing course order.
pub struct PrerequisiteCheckResult {
    pub satisfied: bool,
    pub violations: Vec<PrerequisiteViolation>,
}

/// A valid topological ordering of a course's transitive mandatory
/// prerequisites: every course appears after all of its prerequisites.
pub struct LearningPath {
    pub course: u64,
    pub sequence: Vec<u64>,
}

/// Category of a multi-signature-gated operation; policy is configured per
/// category.
#[derive(Clone, Copy, Debug, PartialEq, Eq, Structural)]
pub enum MultiSigOpKind {
    Revoke,
    BulkExpiry,
    MetadataOverride,
    LargeRenewal,
}

/// Dense code for a category, used to key the policy table.
pub open spec fn spec_op_kind_code(k: MultiSigOpKind) -> u64 {
    match k {
        MultiSigOpKind::Revoke => 0,
        MultiSigOpKind::BulkExpiry => 1,
        MultiSigOpKind::MetadataOverride => 2,
        MultiSigOpKind::LargeRenewal => 3,
    }
}

/// Executable twin of [`spec_op_kind_code`].
pub fn op_kind_code(k: MultiSigOpKind) -> (c: u64)
    ensures
        c == spec_op_kind_code(k),
{
    match k {
        MultiSigOpKind::Revoke => 0,
        MultiSigOpKind::BulkExpiry => 1,
        MultiSigOpKind::MetadataOverride => 2,
        MultiSigOpKind::LargeRenewal => 3,
    }
}

/// The operation a multi-signature request binds. The set of variants is
/// closed; execution dispatches exhaustively over it.
pub enum MultiSigOperation {
    Revoke { certificate_id: u64 },
    BulkExpiry { certificate_ids: Vec<u64> },
    MetadataOverride { certificate_id: u64, new_uri: String },
    LargeRenewal { certificate_id: u64, new_expiry: u64 },
}

/// The category an operation belongs to.
pub open spec fn spec_operation_kind(op: MultiSigOperation) -> MultiSigOpKind {
    match op {
        MultiSigOperation::Revoke { .. } => MultiSigOpKind::Revoke,
        MultiSigOperation::BulkExpiry { .. } => MultiSigOpKind::BulkExpiry,
        MultiSigOperation::MetadataOverride { .. } => MultiSigOpKind::MetadataOverride,
        MultiSigOperation::LargeRenewal { .. } => MultiSigOpKind::LargeRenewal,
    }
}

/// Executable twin of [`spec_operation_kind`].
pub fn operation_kind(op: &MultiSigOperation) -> (k: MultiSigOpKind)
    ensures
        k == spec_operation_kind(*op),
{
    match op {
        MultiSigOperation::Revoke { .. } => MultiSigOpKind::Revoke,
        MultiSigOperation::BulkExpiry { .. } => MultiSigOpKind::BulkExpiry,
        MultiSigOperation::MetadataOverride { .. } => MultiSigOpKind::MetadataOverride,
        MultiSigOperation::LargeRenewal { .. } => MultiSigOpKind::LargeRenewal,
    }
}

/// Per-category multi-signature policy: how many distinct signatures a
/// request needs, and who may sign.
pub struct MultiSigConfig {
    pub threshold: u32,
    pub signers: Vec<u64>,
}

/// Lifecycle status of a multi-signature request. Transitions are strictly
/// forward: `Pending` to `Approved` to `Executed`, or `Pending` to
/// `Rejected` / `Expired`. `Executed` is terminal.
#[derive(Clone, Copy, Debug, PartialEq, Eq, Structural)]
pub enum RequestStatus {
    Pending,
    Approved,
    Executed,
    Rejected,
    Expired,
}

/// One in-flight (or settled) multi-signature request. The threshold and the
/// eligible-signer set are frozen copies taken at proposal time; later policy
/// changes never affect a request already in flight.
pub struct MultiSigCertificateRequest {
    pub id: u64,
    pub operation: MultiSigOperation,
    pub proposer: u64,
    pub threshold: u32,
    pub eligible_signers: Vec<u64>,
    pub signed_by: Vec<u64>,
    pub status: RequestStatus,
    pub created_at: u64,
    pub deadline: u64,
}

/// What a multi-signature audit entry records happened.
#[derive(Clone, Copy, Debug, PartialEq, Eq, Structural)]
pub enum AuditAction {
    Proposed,
    Signed,
    Executed,
    Rejected,
    Expired,
}

/// Immutable log record appended on every propose / sign / execute / reject /
/// expire event; never mutated or removed.
#[derive(Clone, Copy, Debug, PartialEq, Eq, Structural)]
pub struct MultiSigAuditEntry {
    pub request_id: u64,
    pub actor: u64,
    pub action: AuditAction,
    pub timestamp: u64,
}

/// Summary of one bounded expiry sweep.
#[derive(Clone, Copy, Debug, PartialEq, Eq, Structural)]
pub struct BulkExpiryOperation {
    pub expired: u64,
    pub skipped_terminal: u64,
    pub skipped_not_due: u64,
}

/// A scheduled expiry notification; delivery is idempotent.
#[derive(Clone, Copy, Debug, PartialEq, Eq, Structural)]
pub struct ExpiryNotification {
    pub certificate_id: u64,
    pub scheduled_at: u64,
    pub delivered: bool,
}

/// How a renewal request was settled at creation time.
#[derive(Clone, Copy, Debug, PartialEq, Eq, Structural)]
pub enum RenewalStatus {
    /// The extension was small enough to apply immediately.
    Applied,
    /// The extension was routed through the multi-signature coordinator.
    PendingApproval,
}

/// How a renewal request was settled.
#[derive(Clone, Copy, Debug, PartialEq, Eq, Structural)]
pub enum RenewalOutcome {
    /// The extension was applied immediately.
    Applied,
    /// The extension was routed through the multi-signature coordinator; the
    /// payload is the new request's identifier.
    Routed(u64),
}

/// Record of one renewal request.
pub struct RenewalRequest {
    pub certificate_id: u64,
    pub requester: u64,
    pub proposed_expiry: u64,
    pub status: RenewalStatus,
    pub requested_at: u64,
    pub multisig_request_id: Option<u64>,
}

/// Permissions checked by the orchestrator before state-changing operations.
#[derive(Clone, Copy, Debug, PartialEq, Eq, Structural)]
pub enum Permission {
    IssueCertificate,
    RevokeCertificate,
    TransferCertificate,
    UpdateCertificateMetadata,
}

/// Role levels grantable to users. Levels are cumulative: each level holds
/// every permission of the levels below it.
#[derive(Clone, Copy, Debug, PartialEq, Eq, Structural)]
pub enum RoleLevel {
    Instructor,
    Moderator,
    Admin,
}

/// Decode a numeric role level; levels outside 1 to 3 are invalid.
pub open spec fn spec_role_from_u32(v: u32) -> Option<RoleLevel> {
    if v == 1 {
        Some(RoleLevel::Instructor)
    } else if v == 2 {
        Some(RoleLevel::Moderator)
    } else if v == 3 {
        Some(RoleLevel::Admin)
    } else {
        None
    }
}

/// Executable twin of [`spec_role_from_u32`].
pub fn role_from_u32(v: u32) -> (r: Option<RoleLevel>)
    ensures
        r == spec_role_from_u32(v),
{
    if v == 1 {
        Some(RoleLevel::Instructor)
    } else if v == 2 {
        Some(RoleLevel::Moderator)
    } else if v == 3 {
        Some(RoleLevel::Admin)
    } else {
        None
    }
}

/// Decode a numeric permission; codes outside 0 to 3 are unknown.
pub open spec fn spec_permission_from_u32(v: u32) -> Option<Permission> {
    if v == 0 {
        Some(Permission::IssueCertificate)
    } else if v == 1 {
        Some(Permission::RevokeCertificate)
    } else if v == 2 {
        Some(Permission::TransferCertificate)
    } else if v == 3 {
        Some(Permission::UpdateCertificateMetadata)
    } else {
        None
    }
}

/// Executable twin of [`spec_permission_from_u32`].
pub fn permission_from_u32(v: u32) -> (r: Option<Permission>)
    ensures
        r == spec_permission_from_u32(v),
{
    if v == 0 {
        Some(Permission::IssueCertificate)
    } else if v == 1 {
        Some(Permission::RevokeCertificate)
    } else if v == 2 {
        Some(Permission::TransferCertificate)
    } else if v == 3 {
        Some(Permission::UpdateCertificateMetadata)
    } else {
        None
    }
}

/// The permission table: which permissions each role level carries.
pub open spec fn spec_role_grants(level: RoleLevel, p: Permission) -> bool {
    match level {
        RoleLevel::Admin => true,
        RoleLevel::Moderator => p != Permission::RevokeCertificate,
        RoleLevel::Instructor => p == Permission::IssueCertificate,
    }
}

/// Executable twin of [`spec_role_grants`].
pub fn role_grants(level: RoleLevel, p: Permission) -> (b: bool)
    ensures
        b == spec_role_grants(level, p),
{
    match level {
        RoleLevel::Admin => true,
        RoleLevel::Moderator => !(p == Permission::RevokeCertificate),
        RoleLevel::Instructor => p == Permission::IssueCertificate,
    }
}

} // verus!
