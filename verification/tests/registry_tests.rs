use certificate::Certificate;
use certificate::errors::CertificateError;
use certificate::types::{CertificateStatus, MintCertificateParams, RoleLevel};

fn params(id: u64, course: u64, student: u64, expiry: u64) -> MintCertificateParams {
    MintCertificateParams {
        certificate_id: id,
        course_id: course,
        student,
        title: String::from("Course Completion"),
        description: String::from("Completed all coursework"),
        metadata_uri: String::from("ipfs://cert"),
        expiry_date: expiry,
    }
}

#[test]
fn test_initialize() {
    let mut c = Certificate::new();
    assert_eq!(c.get_admin(), Err(CertificateError::NotInitialized));
    assert_eq!(c.initialize(7), Ok(()));
    assert_eq!(c.get_admin(), Ok(7));
    assert_eq!(c.get_role(7), Some(RoleLevel::Admin));
}

#[test]
fn test_cannot_reinitialize() {
    let mut c = Certificate::new();
    assert_eq!(c.initialize(7), Ok(()));
    assert_eq!(c.initialize(8), Err(CertificateError::AlreadyInitialized));
    assert_eq!(c.get_admin(), Ok(7));
}

#[test]
fn test_grant_and_revoke_role() {
    let mut c = Certificate::new();
    assert_eq!(
        c.grant_role(7, 21, 1),
        Err(CertificateError::NotInitialized)
    );
    c.initialize(7).unwrap();
    assert_eq!(c.grant_role(7, 21, 9), Err(CertificateError::InvalidRole));
    assert_eq!(c.grant_role(8, 21, 1), Err(CertificateError::Unauthorized));
    assert_eq!(c.grant_role(7, 21, 1), Ok(()));
    assert_eq!(c.get_role(21), Some(RoleLevel::Instructor));
    // An instructor may issue, and nothing else.
    assert!(c.has_permission(21, 0));
    assert!(!c.has_permission(21, 1));
    assert!(!c.has_permission(21, 2));
    assert!(!c.has_permission(21, 3));
    assert!(!c.has_permission(21, 4));
    assert_eq!(c.revoke_role(8, 21), Err(CertificateError::Unauthorized));
    assert_eq!(c.revoke_role(7, 21), Ok(()));
    assert_eq!(c.get_role(21), None);
    assert!(!c.has_permission(21, 0));
}

#[test]
fn test_mint_certificate() {
    let mut c = Certificate::new();
    c.initialize(7).unwrap();
    c.grant_role(7, 21, 1).unwrap();
    assert_eq!(c.mint_certificate(21, params(100, 1, 42, 1000), 10), Ok(()));
    let rec = c.get_certificate(100).unwrap();
    assert_eq!(rec.token_id, 100);
    assert_eq!(rec.course_id, 1);
    assert_eq!(rec.student_id, 42);
    assert_eq!(rec.instructor_id, 21);
    assert_eq!(rec.issue_date, 10);
    assert_eq!(rec.status, CertificateStatus::Active);
    assert_eq!(rec.expiry_date, 1000);
    assert_eq!(rec.original_expiry_date, 1000);
    assert_eq!(rec.renewal_count, 0);
    assert_eq!(rec.last_renewed_date, 0);
    assert_eq!(rec.title, "Course Completion");
    assert_eq!(c.get_user_certificates(42), vec![100]);
    assert_eq!(c.get_instructor_certificates(21), vec![100]);
    assert!(c.is_valid_certificate(100, 10));
    assert!(!c.is_certificate_expired(100, 10));
    assert!(c.is_certificate_expired(100, 1001));
    assert!(!c.is_valid_certificate(100, 1001));
    assert!(!c.is_valid_certificate(999, 10));
}

#[test]
fn test_mint_requires_permission() {
    let mut c = Certificate::new();
    c.initialize(7).unwrap();
    assert_eq!(
        c.mint_certificate(99, params(100, 1, 42, 1000), 10),
        Err(CertificateError::Unauthorized)
    );
    assert!(c.get_certificate(100).is_none());
}

#[test]
fn test_mint_validates_metadata() {
    let mut c = Certificate::new();
    c.initialize(7).unwrap();
    c.grant_role(7, 21, 1).unwrap();
    let mut p = params(100, 1, 42, 1000);
    p.title = String::new();
    assert_eq!(
        c.mint_certificate(21, p, 10),
        Err(CertificateError::InvalidMetadata)
    );
    // Expiry before the issue time is rejected.
    assert_eq!(
        c.mint_certificate(21, params(100, 1, 42, 5), 10),
        Err(CertificateError::InvalidMetadata)
    );
    assert!(c.get_certificate(100).is_none());
}

#[test]
fn test_mint_duplicate_identifier() {
    let mut c = Certificate::new();
    c.initialize(7).unwrap();
    c.grant_role(7, 21, 1).unwrap();
    c.mint_certificate(21, params(100, 1, 42, 1000), 10).unwrap();
    assert_eq!(
        c.mint_certificate(21, params(100, 2, 43, 2000), 11),
        Err(CertificateError::CertificateAlreadyExists)
    );
}

#[test]
fn test_transfer_certificate() {
    let mut c = Certificate::new();
    c.initialize(7).unwrap();
    c.grant_role(7, 21, 1).unwrap();
    c.mint_certificate(21, params(100, 1, 42, 1000), 10).unwrap();
    assert_eq!(
        c.transfer_certificate(99, 50, 100),
        Err(CertificateError::Unauthorized)
    );
    assert_eq!(
        c.transfer_certificate(42, 42, 100),
        Err(CertificateError::InvalidTransfer)
    );
    assert_eq!(
        c.transfer_certificate(42, 50, 999),
        Err(CertificateError::CertificateNotFound)
    );
    assert_eq!(c.transfer_certificate(42, 50, 100), Ok(()));
    let rec = c.get_certificate(100).unwrap();
    assert_eq!(rec.student_id, 50);
    assert_eq!(rec.status, CertificateStatus::Transferred);
    assert_eq!(c.get_user_certificates(42), Vec::<u64>::new());
    assert_eq!(c.get_user_certificates(50), vec![100]);
    // A transferred certificate is no longer active, so it cannot move again.
    assert_eq!(
        c.transfer_certificate(50, 60, 100),
        Err(CertificateError::CertificateNotActive)
    );
}

#[test]
fn test_mint_batch() {
    let mut c = Certificate::new();
    c.initialize(7).unwrap();
    c.grant_role(7, 21, 1).unwrap();
    let batch = vec![params(100, 1, 42, 1000), params(101, 2, 43, 1000)];
    assert_eq!(c.mint_certificates_batch(21, batch, 10), Ok(()));
    assert!(c.is_valid_certificate(100, 10));
    assert!(c.is_valid_certificate(101, 10));
    assert_eq!(c.get_user_certificates(43), vec![101]);
}

#[test]
fn test_mint_batch_atomic_on_duplicate() {
    let mut c = Certificate::new();
    c.initialize(7).unwrap();
    c.grant_role(7, 21, 1).unwrap();
    let batch = vec![
        params(100, 1, 42, 1000),
        params(100, 2, 43, 1000),
    ];
    assert_eq!(
        c.mint_certificates_batch(21, batch, 10),
        Err(CertificateError::CertificateAlreadyExists)
    );
    // The first item was valid, but the failing batch wrote nothing.
    assert!(c.get_certificate(100).is_none());
    assert_eq!(c.get_user_certificates(42), Vec::<u64>::new());
}

#[test]
fn test_mint_batch_too_large() {
    let mut c = Certificate::new();
    c.initialize(7).unwrap();
    c.grant_role(7, 21, 1).unwrap();
    let mut batch = Vec::new();
    let mut i: u64 = 0;
    while i < 257 {
        batch.push(params(1000 + i, 1, 42, 1000));
        i += 1;
    }
    assert_eq!(
        c.mint_certificates_batch(21, batch, 10),
        Err(CertificateError::BatchTooLarge)
    );
}
