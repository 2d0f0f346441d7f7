use certificate::Certificate;
use certificate::errors::CertificateError;
use certificate::multisig::{execute, expire_stale, reject, sign};
use certificate::types::{
    AuditAction, CertificateStatus, MintCertificateParams, MultiSigOpKind, RequestStatus,
};

fn params(id: u64, course: u64, student: u64, expiry: u64) -> MintCertificateParams {
    MintCertificateParams {
        certificate_id: id,
        course_id: course,
        student,
        title: String::from("Course Completion"),
        description: String::from("Completed all coursework"),
        metadata_uri: String::from("ipfs://cert"),
        expiry_date: expiry,
    }
}

/// A registry with one active certificate (id 100) and a 2-of-3 revocation
/// policy for signers 31, 32, 33.
fn setup() -> Certificate {
    let mut c = Certificate::new();
    c.initialize(7).unwrap();
    c.grant_role(7, 21, 1).unwrap();
    c.grant_role(7, 8, 3).unwrap();
    c.mint_certificate(21, params(100, 1, 42, 100000), 10).unwrap();
    c.set_multisig_config(7, MultiSigOpKind::Revoke, 2, vec![31, 32, 33])
        .unwrap();
    c
}

#[test]
fn test_config_validation() {
    let mut c = Certificate::new();
    c.initialize(7).unwrap();
    assert_eq!(
        c.set_multisig_config(9, MultiSigOpKind::Revoke, 2, vec![31, 32]),
        Err(CertificateError::Unauthorized)
    );
    assert_eq!(
        c.set_multisig_config(7, MultiSigOpKind::Revoke, 0, vec![31, 32]),
        Err(CertificateError::InvalidConfig)
    );
    assert_eq!(
        c.set_multisig_config(7, MultiSigOpKind::Revoke, 3, vec![31, 32]),
        Err(CertificateError::InvalidConfig)
    );
    assert_eq!(
        c.set_multisig_config(7, MultiSigOpKind::Revoke, 2, vec![31, 32]),
        Ok(())
    );
}

#[test]
fn test_revoke_needs_permission_and_config() {
    let mut c = Certificate::new();
    c.initialize(7).unwrap();
    c.grant_role(7, 8, 3).unwrap();
    assert_eq!(
        c.revoke_certificate(5, 100, 20),
        Err(CertificateError::Unauthorized)
    );
    assert_eq!(
        c.revoke_certificate(8, 100, 20),
        Err(CertificateError::ConfigNotSet)
    );
}

#[test]
fn test_two_of_three_revocation_flow() {
    // Propose a revocation under a 2-of-3 policy; the first signature leaves
    // the request pending, the second approves it, execution revokes the
    // certificate exactly once, and a late signature is refused.
    let mut c = setup();
    let rid = c.revoke_certificate(8, 100, 20).unwrap();
    assert_eq!(c.store.requests[rid as usize].status, RequestStatus::Pending);
    assert_eq!(c.store.requests[rid as usize].threshold, 2);
    assert_eq!(c.store.requests[rid as usize].eligible_signers, vec![31, 32, 33]);

    assert_eq!(sign(&mut c.store, rid, 31, 21), Ok(()));
    assert_eq!(c.store.requests[rid as usize].status, RequestStatus::Pending);
    // Executing before the quorum is reached is refused.
    assert_eq!(
        execute(&mut c.store, rid, 9, 22),
        Err(CertificateError::InsufficientSignatures)
    );
    assert_eq!(sign(&mut c.store, rid, 32, 22), Ok(()));
    assert_eq!(c.store.requests[rid as usize].status, RequestStatus::Approved);
    assert_eq!(c.store.requests[rid as usize].signed_by, vec![31, 32]);

    assert_eq!(execute(&mut c.store, rid, 9, 23), Ok(()));
    assert_eq!(c.store.requests[rid as usize].status, RequestStatus::Executed);
    assert_eq!(
        c.get_certificate(100).unwrap().status,
        CertificateStatus::Revoked
    );
    // A third signature now fails: the request is no longer pending.
    assert_eq!(
        sign(&mut c.store, rid, 33, 24),
        Err(CertificateError::RequestNotPending)
    );
    // Executing a second time fails and changes nothing further.
    assert_eq!(
        execute(&mut c.store, rid, 9, 25),
        Err(CertificateError::AlreadyExecuted)
    );
    assert_eq!(
        c.get_certificate(100).unwrap().status,
        CertificateStatus::Revoked
    );
}

#[test]
fn test_sign_errors() {
    let mut c = setup();
    let rid = c.revoke_certificate(8, 100, 20).unwrap();
    assert_eq!(
        sign(&mut c.store, 99, 31, 21),
        Err(CertificateError::RequestNotFound)
    );
    assert_eq!(
        sign(&mut c.store, rid, 77, 21),
        Err(CertificateError::NotAuthorizedSigner)
    );
    sign(&mut c.store, rid, 31, 21).unwrap();
    assert_eq!(
        sign(&mut c.store, rid, 31, 22),
        Err(CertificateError::AlreadySigned)
    );
}

#[test]
fn test_deadline_expires_request() {
    let mut c = setup();
    // The default signing window is one day.
    let rid = c.revoke_certificate(8, 100, 20).unwrap();
    let deadline = c.store.requests[rid as usize].deadline;
    assert_eq!(deadline, 20 + 86400);
    assert_eq!(
        sign(&mut c.store, rid, 31, deadline + 1),
        Err(CertificateError::RequestExpired)
    );
    assert_eq!(c.store.requests[rid as usize].status, RequestStatus::Expired);
    assert_eq!(
        execute(&mut c.store, rid, 9, deadline + 2),
        Err(CertificateError::RequestNotPending)
    );
}

#[test]
fn test_approved_request_expires_unexecuted() {
    let mut c = setup();
    let rid = c.revoke_certificate(8, 100, 20).unwrap();
    sign(&mut c.store, rid, 31, 21).unwrap();
    sign(&mut c.store, rid, 32, 22).unwrap();
    let deadline = c.store.requests[rid as usize].deadline;
    assert_eq!(
        execute(&mut c.store, rid, 9, deadline + 1),
        Err(CertificateError::RequestExpired)
    );
    // The certificate is untouched.
    assert_eq!(
        c.get_certificate(100).unwrap().status,
        CertificateStatus::Active
    );
}

#[test]
fn test_reject() {
    let mut c = setup();
    let rid = c.revoke_certificate(8, 100, 20).unwrap();
    assert_eq!(
        reject(&mut c.store, rid, 77, 21),
        Err(CertificateError::NotAuthorizedSigner)
    );
    assert_eq!(reject(&mut c.store, rid, 8, 21), Ok(()));
    assert_eq!(c.store.requests[rid as usize].status, RequestStatus::Rejected);
    assert_eq!(
        sign(&mut c.store, rid, 31, 22),
        Err(CertificateError::RequestNotPending)
    );
    assert_eq!(
        reject(&mut c.store, rid, 8, 23),
        Err(CertificateError::RequestNotPending)
    );
}

#[test]
fn test_expire_stale_sweep() {
    let mut c = setup();
    let r1 = c.revoke_certificate(8, 100, 20).unwrap();
    let r2 = c.revoke_certificate(8, 100, 50000).unwrap();
    let audit_before = c.store.audit_log.len();
    expire_stale(&mut c.store, 5, 20 + 86400 + 1);
    assert_eq!(c.store.requests[r1 as usize].status, RequestStatus::Expired);
    assert_eq!(c.store.requests[r2 as usize].status, RequestStatus::Pending);
    assert_eq!(c.store.audit_log.len(), audit_before + 1);
    assert_eq!(c.store.audit_log[audit_before].action, AuditAction::Expired);
    // The sweep is idempotent.
    expire_stale(&mut c.store, 5, 20 + 86400 + 1);
    assert_eq!(c.store.audit_log.len(), audit_before + 1);
}

#[test]
fn test_metadata_override_flow() {
    let mut c = setup();
    c.set_multisig_config(7, MultiSigOpKind::MetadataOverride, 1, vec![31])
        .unwrap();
    let rid = c
        .update_certificate_metadata(8, 100, String::from("ipfs://cert-v2"), 30)
        .unwrap();
    sign(&mut c.store, rid, 31, 31).unwrap();
    assert_eq!(execute(&mut c.store, rid, 9, 32), Ok(()));
    assert_eq!(c.get_certificate(100).unwrap().metadata_uri, "ipfs://cert-v2");
    let hist = c.get_metadata_history(100).unwrap();
    assert_eq!(hist.len(), 1);
    assert_eq!(hist[0].previous_uri, "ipfs://cert");
    assert_eq!(hist[0].new_uri, "ipfs://cert-v2");
    assert_eq!(hist[0].updated_at, 32);
    assert_eq!(hist[0].updater, 9);
}

#[test]
fn test_execute_failing_operation_keeps_request_approved() {
    // Revoking a certificate that is already revoked fails inside the bound
    // operation; the request must not be marked executed.
    let mut c = setup();
    let r1 = c.revoke_certificate(8, 100, 20).unwrap();
    let r2 = c.revoke_certificate(8, 100, 20).unwrap();
    sign(&mut c.store, r1, 31, 21).unwrap();
    sign(&mut c.store, r1, 32, 21).unwrap();
    sign(&mut c.store, r2, 31, 21).unwrap();
    sign(&mut c.store, r2, 32, 21).unwrap();
    execute(&mut c.store, r1, 9, 22).unwrap();
    assert_eq!(
        execute(&mut c.store, r2, 9, 23),
        Err(CertificateError::CertificateNotActive)
    );
    assert_eq!(c.store.requests[r2 as usize].status, RequestStatus::Approved);
}

#[test]
fn test_audit_log_records_lifecycle() {
    let mut c = setup();
    let rid = c.revoke_certificate(8, 100, 20).unwrap();
    sign(&mut c.store, rid, 31, 21).unwrap();
    sign(&mut c.store, rid, 32, 22).unwrap();
    execute(&mut c.store, rid, 9, 23).unwrap();
    let log = &c.store.audit_log;
    assert_eq!(log.len(), 4);
    assert_eq!(log[0].action, AuditAction::Proposed);
    assert_eq!(log[0].actor, 8);
    assert_eq!(log[1].action, AuditAction::Signed);
    assert_eq!(log[1].actor, 31);
    assert_eq!(log[2].action, AuditAction::Signed);
    assert_eq!(log[2].actor, 32);
    assert_eq!(log[3].action, AuditAction::Executed);
    assert_eq!(log[3].actor, 9);
    assert!(log.iter().all(|e| e.request_id == rid));
}
