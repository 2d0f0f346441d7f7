use vstd::prelude::*;

verus! {

/// Every failure a registry operation can report. Business-rule violations are
/// always surfaced as one of these values; no operation panics on an input its
/// contract admits.
#[derive(Clone, Copy, Debug, PartialEq, Eq, Structural)]
pub enum CertificateError {
    /// `initialize` was called on a registry that is already initialized.
    AlreadyInitialized,
    /// An operation that needs an initialized registry ran before `initialize`.
    NotInitialized,
    /// A role level outside the known range was supplied.
    InvalidRole,
    /// The caller lacks the permission the operation demands.
    Unauthorized,
    /// A mint parameter failed validation (empty or oversized text, or an
    /// expiry before the issue time).
    InvalidMetadata,
    /// A certificate with the given identifier already exists.
    CertificateAlreadyExists,
    /// No certificate with the given identifier exists.
    CertificateNotFound,
    /// The certificate exists but is not in a status that permits the
    /// requested mutation.
    CertificateNotActive,
    /// The student does not satisfy a mandatory prerequisite of the course.
    PrerequisiteNotMet,
    /// A certificate cannot be transferred to its current holder.
    InvalidTransfer,
    /// Inserting the edge would create a cycle in the prerequisite graph.
    CycleDetected,
    /// The edge is a self-loop.
    InvalidPrerequisite,
    /// The prerequisite graph has reached its size cap.
    GraphTooLarge,
    /// The supplied batch exceeds the per-invocation work bound.
    BatchTooLarge,
    /// The signer is not in the request's eligible-signer set.
    NotAuthorizedSigner,
    /// The signer already appears in the request's signed-by set.
    AlreadySigned,
    /// No multi-signature request with the given identifier exists.
    RequestNotFound,
    /// The request is not pending, so it can no longer be signed or rejected.
    RequestNotPending,
    /// The request's signing deadline has passed.
    RequestExpired,
    /// The request has not collected enough signatures to execute.
    InsufficientSignatures,
    /// The request was already executed; its operation runs exactly once.
    AlreadyExecuted,
    /// No multi-signature policy is configured for the operation category.
    ConfigNotSet,
    /// A multi-signature policy was rejected: the threshold must be at least
    /// one and no larger than the eligible-signer set.
    InvalidConfig,
    /// The proposed renewal does not extend the certificate's life, or the
    /// certificate cannot be renewed.
    InvalidRenewal,
}

} // verus!
