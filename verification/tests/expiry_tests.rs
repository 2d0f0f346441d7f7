use certificate::Certificate;
use certificate::errors::CertificateError;
use certificate::expiry::{deliver_notification, scan_and_expire};
use certificate::multisig::{execute, sign};
use certificate::types::{
    CertificateStatus, MintCertificateParams, MultiSigOpKind, RenewalOutcome, RenewalStatus,
    RequestStatus,
};

fn params(id: u64, course: u64, student: u64, expiry: u64) -> MintCertificateParams {
    MintCertificateParams {
        certificate_id: id,
        course_id: course,
        student,
        title: String::from("Course Completion"),
        description: String::from("Completed all coursework"),
        metadata_uri: String::from("ipfs://cert"),
        expiry_date: expiry,
    }
}

/// A registry with an instructor (21) and one certificate (id 100, student
/// 42, issued at t = 0, expiry t = 100).
fn setup() -> Certificate {
    let mut c = Certificate::new();
    c.initialize(7).unwrap();
    c.grant_role(7, 21, 1).unwrap();
    c.mint_certificate(21, params(100, 1, 42, 100), 0).unwrap();
    c
}

#[test]
fn test_scan_before_and_after_expiry() {
    // At t = 50 the certificate stays active; at t = 150 it expires and one
    // notification is scheduled.
    let mut c = setup();
    let s1 = scan_and_expire(&mut c.store, &vec![100], 50).unwrap();
    assert_eq!(s1.expired, 0);
    assert_eq!(s1.skipped_terminal, 0);
    assert_eq!(s1.skipped_not_due, 1);
    assert_eq!(
        c.get_certificate(100).unwrap().status,
        CertificateStatus::Active
    );
    let s2 = scan_and_expire(&mut c.store, &vec![100], 150).unwrap();
    assert_eq!(s2.expired, 1);
    assert_eq!(s2.skipped_terminal, 0);
    assert_eq!(s2.skipped_not_due, 0);
    assert_eq!(
        c.get_certificate(100).unwrap().status,
        CertificateStatus::Expired
    );
    let n = c.store.notifications.get(&100).unwrap();
    assert_eq!(n.certificate_id, 100);
    assert_eq!(n.scheduled_at, 150);
    assert!(!n.delivered);
}

#[test]
fn test_scan_idempotent() {
    // A second sweep of the same batch with time unchanged expires nothing.
    let mut c = setup();
    let s1 = scan_and_expire(&mut c.store, &vec![100], 150).unwrap();
    assert_eq!(s1.expired, 1);
    let s2 = scan_and_expire(&mut c.store, &vec![100], 150).unwrap();
    assert_eq!(s2.expired, 0);
    assert_eq!(s2.skipped_terminal, 1);
}

#[test]
fn test_scan_counts_missing_and_terminal() {
    let mut c = setup();
    c.transfer_certificate(42, 50, 100).unwrap();
    // Batch: one transferred (terminal for the sweep), one unknown id.
    let s = scan_and_expire(&mut c.store, &vec![100, 999], 150).unwrap();
    assert_eq!(s.expired, 0);
    assert_eq!(s.skipped_terminal, 1);
    assert_eq!(s.skipped_not_due, 1);
}

#[test]
fn test_scan_duplicate_ids_in_one_batch() {
    let mut c = setup();
    let s = scan_and_expire(&mut c.store, &vec![100, 100], 150).unwrap();
    assert_eq!(s.expired, 1);
    assert_eq!(s.skipped_terminal, 1);
}

#[test]
fn test_scan_batch_too_large() {
    let mut c = setup();
    let batch: Vec<u64> = (0..257u64).collect();
    assert_eq!(
        scan_and_expire(&mut c.store, &batch, 150),
        Err(CertificateError::BatchTooLarge)
    );
}

#[test]
fn test_renewal_applies_small_extension() {
    let mut c = setup();
    let r = c.request_renewal(42, 100, 500, 20).unwrap();
    assert_eq!(r, RenewalOutcome::Applied);
    let rec = c.get_certificate(100).unwrap();
    assert_eq!(rec.expiry_date, 500);
    assert_eq!(rec.original_expiry_date, 100);
    assert_eq!(rec.renewal_count, 1);
    assert_eq!(rec.last_renewed_date, 20);
    assert_eq!(c.store.renewal_requests.len(), 1);
    assert_eq!(c.store.renewal_requests[0].status, RenewalStatus::Applied);
    // A second renewal increments the counter by exactly one again.
    c.request_renewal(42, 100, 900, 30).unwrap();
    assert_eq!(c.get_certificate(100).unwrap().renewal_count, 2);
    assert_eq!(c.get_certificate(100).unwrap().original_expiry_date, 100);
}

#[test]
fn test_renewal_errors() {
    let mut c = setup();
    assert_eq!(
        c.request_renewal(42, 999, 500, 20),
        Err(CertificateError::CertificateNotFound)
    );
    assert_eq!(
        c.request_renewal(77, 100, 500, 20),
        Err(CertificateError::Unauthorized)
    );
    // Not an extension.
    assert_eq!(
        c.request_renewal(42, 100, 100, 20),
        Err(CertificateError::InvalidRenewal)
    );
    // A revoked certificate cannot be renewed.
    c.set_multisig_config(7, MultiSigOpKind::Revoke, 1, vec![31]).unwrap();
    c.grant_role(7, 8, 3).unwrap();
    let rid = c.revoke_certificate(8, 100, 20).unwrap();
    sign(&mut c.store, rid, 31, 21).unwrap();
    execute(&mut c.store, rid, 9, 22).unwrap();
    assert_eq!(
        c.request_renewal(42, 100, 500, 23),
        Err(CertificateError::InvalidRenewal)
    );
}

#[test]
fn test_large_renewal_routes_through_multisig() {
    // The default policy threshold is one year; a far-off expiry routes
    // through the coordinator and only applies once executed.
    let mut c = setup();
    assert_eq!(
        c.request_renewal(42, 100, 40000000, 20),
        Err(CertificateError::ConfigNotSet)
    );
    c.set_multisig_config(7, MultiSigOpKind::LargeRenewal, 1, vec![31])
        .unwrap();
    let r = c.request_renewal(42, 100, 40000000, 20).unwrap();
    let rid = match r {
        RenewalOutcome::Routed(rid) => rid,
        RenewalOutcome::Applied => panic!("large extension applied directly"),
    };
    assert_eq!(c.get_certificate(100).unwrap().expiry_date, 100);
    assert_eq!(
        c.store.renewal_requests[0].status,
        RenewalStatus::PendingApproval
    );
    assert_eq!(c.store.renewal_requests[0].multisig_request_id, Some(rid));
    sign(&mut c.store, rid, 31, 21).unwrap();
    assert_eq!(c.store.requests[rid as usize].status, RequestStatus::Approved);
    assert_eq!(execute(&mut c.store, rid, 9, 22), Ok(()));
    let rec = c.get_certificate(100).unwrap();
    assert_eq!(rec.expiry_date, 40000000);
    assert_eq!(rec.renewal_count, 1);
    assert_eq!(rec.original_expiry_date, 100);
    assert_eq!(rec.last_renewed_date, 22);
}

#[test]
fn test_instructor_may_request_renewal() {
    let mut c = setup();
    assert_eq!(c.request_renewal(21, 100, 500, 20), Ok(RenewalOutcome::Applied));
}

#[test]
fn test_deliver_notification_idempotent() {
    let mut c = setup();
    // Delivery with nothing scheduled is a no-op.
    deliver_notification(&mut c.store, 100);
    assert!(c.store.notifications.get(&100).is_none());
    scan_and_expire(&mut c.store, &vec![100], 150).unwrap();
    deliver_notification(&mut c.store, 100);
    assert!(c.store.notifications.get(&100).unwrap().delivered);
    // Marking delivered twice has no further effect.
    deliver_notification(&mut c.store, 100);
    assert!(c.store.notifications.get(&100).unwrap().delivered);
    assert_eq!(c.store.notifications.get(&100).unwrap().scheduled_at, 150);
}

#[test]
fn test_bulk_expiry_via_multisig() {
    let mut c = setup();
    c.grant_role(7, 8, 3).unwrap();
    c.mint_certificate(21, params(101, 2, 43, 90), 0).unwrap();
    c.set_multisig_config(7, MultiSigOpKind::BulkExpiry, 1, vec![31])
        .unwrap();
    let rid = certificate::multisig::propose(
        &mut c.store,
        certificate::types::MultiSigOperation::BulkExpiry { certificate_ids: vec![100, 101] },
        8,
        &certificate::types::MultiSigConfig { threshold: 1, signers: vec![31] },
        20,
        86400,
    );
    sign(&mut c.store, rid, 31, 21).unwrap();
    assert_eq!(execute(&mut c.store, rid, 9, 150), Ok(()));
    assert_eq!(
        c.get_certificate(100).unwrap().status,
        CertificateStatus::Expired
    );
    assert_eq!(
        c.get_certificate(101).unwrap().status,
        CertificateStatus::Expired
    );
    assert!(c.store.notifications.get(&100).is_some());
    assert!(c.store.notifications.get(&101).is_some());
}
