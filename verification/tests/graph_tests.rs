use certificate::Certificate;
use certificate::errors::CertificateError;
use certificate::prerequisites::{
    build_learning_path, check_eligibility, grant_override, register_prerequisite,
    revoke_override,
};
use certificate::types::MintCertificateParams;

fn params(id: u64, course: u64, student: u64, expiry: u64) -> MintCertificateParams {
    MintCertificateParams {
        certificate_id: id,
        course_id: course,
        student,
        title: String::from("Course Completion"),
        description: String::from("Completed all coursework"),
        metadata_uri: String::from("ipfs://cert"),
        expiry_date: expiry,
    }
}

#[test]
fn test_self_loop_rejected() {
    let mut c = Certificate::new();
    assert_eq!(
        register_prerequisite(&mut c.store, 1, 1, true),
        Err(CertificateError::InvalidPrerequisite)
    );
    assert_eq!(c.store.prerequisites.len(), 0);
}

#[test]
fn test_cycle_rejected_graph_unchanged() {
    let mut c = Certificate::new();
    assert_eq!(register_prerequisite(&mut c.store, 1, 2, true), Ok(()));
    let snapshot = c.store.prerequisites.clone();
    assert_eq!(
        register_prerequisite(&mut c.store, 2, 1, true),
        Err(CertificateError::CycleDetected)
    );
    assert_eq!(c.store.prerequisites, snapshot);
    assert_eq!(c.store.prerequisites.len(), 1);
    assert_eq!(c.store.prerequisites[0].course, 1);
    assert_eq!(c.store.prerequisites[0].required_course, 2);
    assert!(c.store.prerequisites[0].mandatory);
}

#[test]
fn test_longer_cycle_rejected() {
    let mut c = Certificate::new();
    register_prerequisite(&mut c.store, 1, 2, true).unwrap();
    register_prerequisite(&mut c.store, 2, 3, true).unwrap();
    register_prerequisite(&mut c.store, 3, 4, false).unwrap();
    assert_eq!(
        register_prerequisite(&mut c.store, 4, 1, true),
        Err(CertificateError::CycleDetected)
    );
    assert_eq!(c.store.prerequisites.len(), 3);
}

#[test]
fn test_eligibility_end_to_end() {
    // Course 2 requires course 1 (mandatory). A student with no certificates
    // is ineligible for course 2 and course 1 is reported; after earning
    // course 1 the student becomes eligible.
    let mut c = Certificate::new();
    c.initialize(7).unwrap();
    c.grant_role(7, 21, 1).unwrap();
    register_prerequisite(&mut c.store, 2, 1, true).unwrap();
    let r = check_eligibility(&c.store, 42, 2, 10);
    assert!(!r.satisfied);
    assert_eq!(r.violations.len(), 1);
    assert_eq!(r.violations[0].required_course, 1);
    // Minting course 2 for the student is refused while ineligible.
    assert_eq!(
        c.mint_certificate(21, params(200, 2, 42, 1000), 10),
        Err(CertificateError::PrerequisiteNotMet)
    );
    c.mint_certificate(21, params(100, 1, 42, 1000), 10).unwrap();
    let r2 = check_eligibility(&c.store, 42, 2, 10);
    assert!(r2.satisfied);
    assert_eq!(r2.violations.len(), 0);
    assert_eq!(c.mint_certificate(21, params(200, 2, 42, 1000), 10), Ok(()));
}

#[test]
fn test_eligibility_pure_repeated_call() {
    let mut c = Certificate::new();
    register_prerequisite(&mut c.store, 2, 1, true).unwrap();
    register_prerequisite(&mut c.store, 2, 3, true).unwrap();
    let r1 = check_eligibility(&c.store, 42, 2, 10);
    let r2 = check_eligibility(&c.store, 42, 2, 10);
    assert_eq!(r1.satisfied, r2.satisfied);
    assert_eq!(r1.violations, r2.violations);
    // The violation list is sorted by course identifier.
    assert_eq!(r1.violations[0].required_course, 1);
    assert_eq!(r1.violations[1].required_course, 3);
}

#[test]
fn test_nonmandatory_edge_never_blocks() {
    let mut c = Certificate::new();
    register_prerequisite(&mut c.store, 2, 1, false).unwrap();
    let r = check_eligibility(&c.store, 42, 2, 10);
    assert!(r.satisfied);
}

#[test]
fn test_transitive_prerequisites_reported() {
    let mut c = Certificate::new();
    register_prerequisite(&mut c.store, 3, 2, true).unwrap();
    register_prerequisite(&mut c.store, 2, 1, true).unwrap();
    let r = check_eligibility(&c.store, 42, 3, 10);
    assert!(!r.satisfied);
    assert_eq!(r.violations.len(), 2);
    assert_eq!(r.violations[0].required_course, 1);
    assert_eq!(r.violations[1].required_course, 2);
}

#[test]
fn test_override_satisfies_requirement() {
    let mut c = Certificate::new();
    register_prerequisite(&mut c.store, 2, 1, true).unwrap();
    grant_override(&mut c.store, 42, 1, 7, String::from("waived"), Some(100));
    assert!(check_eligibility(&c.store, 42, 2, 50).satisfied);
    // The override has its own lifetime.
    assert!(!check_eligibility(&c.store, 42, 2, 101).satisfied);
    // It covers one student only.
    assert!(!check_eligibility(&c.store, 43, 2, 50).satisfied);
}

#[test]
fn test_revoke_override() {
    let mut c = Certificate::new();
    register_prerequisite(&mut c.store, 2, 1, true).unwrap();
    grant_override(&mut c.store, 42, 1, 7, String::from("waived"), None);
    assert!(check_eligibility(&c.store, 42, 2, 50).satisfied);
    revoke_override(&mut c.store, 42, 1);
    assert!(!check_eligibility(&c.store, 42, 2, 50).satisfied);
    assert_eq!(c.store.overrides.len(), 0);
}

#[test]
fn test_learning_path_order() {
    // 3 requires 2 requires 1; 3 also requires 1 directly (a diamond edge).
    let mut c = Certificate::new();
    register_prerequisite(&mut c.store, 3, 2, true).unwrap();
    register_prerequisite(&mut c.store, 2, 1, true).unwrap();
    register_prerequisite(&mut c.store, 3, 1, true).unwrap();
    let lp = build_learning_path(&c.store.prerequisites, 3).unwrap();
    assert_eq!(lp.course, 3);
    assert_eq!(lp.sequence.len(), 3);
    let pos = |x: u64| lp.sequence.iter().position(|&v| v == x).unwrap();
    assert!(pos(1) < pos(2));
    assert!(pos(2) < pos(3));
}

#[test]
fn test_learning_path_ignores_nonmandatory() {
    let mut c = Certificate::new();
    register_prerequisite(&mut c.store, 3, 2, true).unwrap();
    register_prerequisite(&mut c.store, 3, 9, false).unwrap();
    let lp = build_learning_path(&c.store.prerequisites, 3).unwrap();
    assert_eq!(lp.sequence.len(), 2);
    assert!(!lp.sequence.contains(&9));
}

#[test]
fn test_graph_size_cap() {
    let mut c = Certificate::new();
    let mut i: u64 = 0;
    while i < 16384 {
        register_prerequisite(&mut c.store, 2 * i + 10, 2 * i + 11, false).unwrap();
        i += 1;
    }
    assert_eq!(
        register_prerequisite(&mut c.store, 1, 2, true),
        Err(CertificateError::GraphTooLarge)
    );
    // The cycle check still answers ahead of the size cap.
    assert_eq!(
        register_prerequisite(&mut c.store, 11, 10, true),
        Err(CertificateError::CycleDetected)
    );
}
