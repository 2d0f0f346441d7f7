//! A registry for digital course certificates.
//!
//! Three subsystems decide whether a state-changing operation on a
//! certificate is allowed and correctly sequenced: a prerequisite dependency
//! graph that gates issuance on prior achievement, a multi-signature
//! coordinator that gates sensitive operations on a quorum of independent
//! approvals, and an expiry / renewal manager that advances certificates
//! through time-based transitions in bounded batches. All three share one
//! certificate store. Time and caller identity are explicit parameters of
//! every operation, so isolated instances can be constructed and driven
//! deterministically.

use vstd::prelude::*;

pub mod errors;
pub mod expiry;
pub mod multisig;
pub mod prerequisites;
pub mod store;
pub mod types;

use std::collections::HashMap;

use vstd::string::StrSliceExecFns;

use crate::errors::CertificateError;
use crate::expiry::request_renewal_post;
use crate::multisig::propose_post;
use crate::prerequisites::{
    check_eligibility, eligibility_result_matches, reachable, spec_covered, viol_contains,
};
use crate::store::{CertificateStore, copy_ids, lemma_wf_mint};
use crate::types::{
    PrerequisiteCheckResult,
    CertificateMetadata, CertificateStatus, MetadataUpdateEntry, MintCertificateParams,
    MultiSigConfig, MultiSigOpKind, MultiSigOperation, Permission, RenewalOutcome, RoleLevel,
    spec_op_kind_code, spec_permission_from_u32, spec_role_from_u32, spec_role_grants,
};

verus! {

/// Longest accepted certificate title, in characters.
pub const MAX_TITLE_LEN: usize = 200;

/// Longest accepted certificate description, in characters.
pub const MAX_DESCRIPTION_LEN: usize = 1000;

/// Longest accepted metadata URI, in characters.
pub const MAX_URI_LEN: usize = 300;

/// Whether mint parameters pass validation: a non-empty, bounded title,
/// bounded description and URI, and an expiry no earlier than issuance.
pub open spec fn spec_valid_mint_params(p: MintCertificateParams, now: u64) -> bool {
    &&& p.title@.len() >= 1
    &&& p.title@.len() <= MAX_TITLE_LEN
    &&& p.description@.len() <= MAX_DESCRIPTION_LEN
    &&& p.metadata_uri@.len() <= MAX_URI_LEN
    &&& p.expiry_date >= now
}

/// Whether `student` covers every mandatory transitive prerequisite of
/// `course` at `now`.
pub open spec fn spec_eligible(store: CertificateStore, student: u64, course: u64, now: u64) -> bool {
    forall|c: u64|
        c != course && #[trigger] reachable(store.prerequisites@, true, course, c) ==> spec_covered(
            store,
            student,
            c,
            now,
        )
}

/// The record a successful mint writes: active, with the original expiry
/// frozen at the requested expiry and a zeroed renewal history.
pub open spec fn minted_record(p: MintCertificateParams, issuer: u64, now: u64) -> CertificateMetadata {
    CertificateMetadata {
        token_id: p.certificate_id,
        course_id: p.course_id,
        student_id: p.student,
        instructor_id: issuer,
        issue_date: now,
        title: p.title,
        description: p.description,
        metadata_uri: p.metadata_uri,
        status: CertificateStatus::Active,
        expiry_date: p.expiry_date,
        original_expiry_date: p.expiry_date,
        renewal_count: 0,
        last_renewed_date: 0,
    }
}

/// Coverage is monotone: adding certificates to the store never revokes a
/// student's eligibility for a course.
pub proof fn lemma_eligible_monotone(
    pre: CertificateStore,
    post: CertificateStore,
    student: u64,
    course: u64,
    now: u64,
)
    requires
        spec_eligible(pre, student, course, now),
        post.overrides@ == pre.overrides@,
        post.prerequisites@ == pre.prerequisites@,
        forall|id: u64|
            #[trigger] pre.certificates@.contains_key(id) ==> post.certificates@.contains_key(id)
                && post.certificates@[id] == pre.certificates@[id],
    ensures
        spec_eligible(post, student, course, now),
{
    assert forall|c: u64|
        c != course && #[trigger] reachable(post.prerequisites@, true, course, c)
            implies spec_covered(post, student, c, now) by {
        assert(spec_covered(pre, student, c, now));
        if crate::prerequisites::spec_has_valid_cert(pre, student, c, now) {
            let id = choose|id: u64|
                #[trigger] pre.certificates@.contains_key(id)
                    && crate::prerequisites::cert_valid_for(
                    pre.certificates@[id],
                    student,
                    c,
                    now,
                );
            assert(post.certificates@.contains_key(id));
        }
    }
}

/// Whether item `k` of a batch can be minted against `store0`: parameters
/// valid, identifier fresh in the store and distinct from every earlier item
/// of the batch, and the student eligible.
pub open spec fn batch_item_ok(
    store0: CertificateStore,
    params: Seq<MintCertificateParams>,
    k: int,
    now: u64,
) -> bool {
    &&& spec_valid_mint_params(params[k], now)
    &&& !store0.certificates@.contains_key(params[k].certificate_id)
    &&& forall|j: int| 0 <= j < k ==> (#[trigger] params[j]).certificate_id != params[k].certificate_id
    &&& spec_eligible(store0, params[k].student, params[k].course_id, now)
}

/// The error a failing batch item reports, by the order the checks run.
pub open spec fn batch_item_error(
    store0: CertificateStore,
    params: Seq<MintCertificateParams>,
    k: int,
    now: u64,
) -> CertificateError {
    if !spec_valid_mint_params(params[k], now) {
        CertificateError::InvalidMetadata
    } else if store0.certificates@.contains_key(params[k].certificate_id) || exists|j: int|
        0 <= j < k && (#[trigger] params[j]).certificate_id == params[k].certificate_id {
        CertificateError::CertificateAlreadyExists
    } else {
        CertificateError::PrerequisiteNotMet
    }
}

/// The whole effect of a successful batch mint: exactly the batch items are
/// added, each as `minted_record` writes it, old records and every other
/// table are untouched, and both ownership indexes list every new
/// certificate.
pub open spec fn batch_post(
    pre: Certificate,
    post: Certificate,
    params: Seq<MintCertificateParams>,
    issuer: u64,
    now: u64,
) -> bool {
    &&& forall|id: u64|
        #[trigger] post.store.certificates@.contains_key(id) <==> (
        pre.store.certificates@.contains_key(id) || exists|k: int|
            0 <= k < params.len() && (#[trigger] params[k]).certificate_id == id)
    &&& forall|k: int|
        0 <= k < params.len() ==> post.store.certificates@[(#[trigger] params[k]).certificate_id]
            == minted_record(params[k], issuer, now)
    &&& forall|id: u64|
        #[trigger] pre.store.certificates@.contains_key(id) ==> post.store.certificates@[id]
            == pre.store.certificates@[id]
    &&& forall|k: int|
        0 <= k < params.len() ==> {
            let p = #[trigger] params[k];
            &&& post.store.user_certificates@.contains_key(p.student)
            &&& post.store.user_certificates@[p.student]@.contains(p.certificate_id)
            &&& post.store.instructor_certificates@.contains_key(issuer)
            &&& post.store.instructor_certificates@[issuer]@.contains(p.certificate_id)
        }
    &&& post.store.metadata_history == pre.store.metadata_history
    &&& post.store.prerequisites == pre.store.prerequisites
    &&& post.store.overrides == pre.store.overrides
    &&& post.store.requests == pre.store.requests
    &&& post.store.audit_log == pre.store.audit_log
    &&& post.store.notifications == pre.store.notifications
    &&& post.store.renewal_requests == pre.store.renewal_requests
    &&& post.initialized == pre.initialized
    &&& post.admin == pre.admin
    &&& post.roles@ == pre.roles@
    &&& post.multisig_configs@ == pre.multisig_configs@
    &&& post.renewal_threshold == pre.renewal_threshold
    &&& post.signing_window == pre.signing_window
}

/// An eligibility check reports `satisfied` exactly when the student covers
/// every mandatory transitive prerequisite.
pub proof fn lemma_satisfied_iff_eligible(
    store: CertificateStore,
    student: u64,
    course: u64,
    now: u64,
    check: PrerequisiteCheckResult,
)
    requires
        eligibility_result_matches(store, student, course, now, check),
    ensures
        check.satisfied <==> spec_eligible(store, student, course, now),
{
    if check.satisfied {
        assert forall|c: u64|
            c != course && #[trigger] reachable(store.prerequisites@, true, course, c)
                implies spec_covered(store, student, c, now) by {
            if !spec_covered(store, student, c, now) {
                assert(viol_contains(check.violations@, c));
                let j = choose|j: int|
                    0 <= j < check.violations@.len() && (#[trigger] check.violations@[j]).required_course
                        == c;
            }
        }
    } else {
        assert(check.violations@.len() > 0);
        assert(viol_contains(check.violations@, check.violations@[0].required_course));
    }
}

/// Copy mint parameters.
fn clone_params(p: &MintCertificateParams) -> (r: MintCertificateParams)
    ensures
        r == *p,
{
    MintCertificateParams {
        certificate_id: p.certificate_id,
        course_id: p.course_id,
        student: p.student,
        title: p.title.clone(),
        description: p.description.clone(),
        metadata_uri: p.metadata_uri.clone(),
        expiry_date: p.expiry_date,
    }
}

/// The certificate registry: role table, multi-signature policy, renewal
/// policy, and the shared certificate store.
pub struct Certificate {
    pub initialized: bool,
    pub admin: u64,
    pub roles: HashMap<u64, RoleLevel>,
    pub multisig_configs: HashMap<u64, MultiSigConfig>,
    /// Extensions longer than this route through the multi-signature
    /// coordinator instead of applying directly.
    pub renewal_threshold: u64,
    /// How long a proposed multi-signature request stays signable.
    pub signing_window: u64,
    pub store: CertificateStore,
}

impl Certificate {
    /// Every configured multi-signature policy demands at least one
    /// signature, and never more than it has eligible signers.
    pub open spec fn configs_ok(self) -> bool {
        forall|k: u64|
            #[trigger] self.multisig_configs@.contains_key(k) ==> (1
                <= self.multisig_configs@[k].threshold && self.multisig_configs@[k].threshold
                <= self.multisig_configs@[k].signers@.len())
    }

    /// Validity of the whole registry.
    pub open spec fn wf(self) -> bool {
        self.store.wf() && self.configs_ok()
    }

    /// Whether `user` holds a role granting `p`.
    pub open spec fn spec_has_permission(self, user: u64, p: Permission) -> bool {
        self.roles@.contains_key(user) && spec_role_grants(self.roles@[user], p)
    }

    /// A fresh, uninitialized registry with default policy windows.
    pub fn new() -> (c: Certificate)
        ensures
            c.wf(),
            !c.initialized,
            c.roles@ == Map::<u64, RoleLevel>::empty(),
            c.multisig_configs@ == Map::<u64, MultiSigConfig>::empty(),
            c.store.certificates@ == Map::<u64, types::CertificateMetadata>::empty(),
            c.store.prerequisites@ == Seq::<types::CoursePrerequisite>::empty(),
            c.store.overrides@ == Seq::<types::PrerequisiteOverride>::empty(),
            c.store.requests@ == Seq::<types::MultiSigCertificateRequest>::empty(),
            c.store.audit_log@ == Seq::<types::MultiSigAuditEntry>::empty(),
            c.store.notifications@ == Map::<u64, types::ExpiryNotification>::empty(),
            c.store.renewal_requests@ == Seq::<types::RenewalRequest>::empty(),
            c.renewal_threshold == DEFAULT_RENEWAL_THRESHOLD,
            c.signing_window == DEFAULT_SIGNING_WINDOW,
    {
        Certificate {
            initialized: false,
            admin: 0,
            roles: HashMap::new(),
            multisig_configs: HashMap::new(),
            renewal_threshold: DEFAULT_RENEWAL_THRESHOLD,
            signing_window: DEFAULT_SIGNING_WINDOW,
            store: CertificateStore::new(),
        }
    }

    /// Record the admin identity and mark the registry initialized. The admin
    /// receives the `Admin` role. Fails if already initialized, in which case
    /// nothing changes.
    pub fn initialize(&mut self, admin: u64) -> (r: Result<(), CertificateError>)
        requires
            old(self).wf(),
        ensures
            final(self).wf(),
            r is Ok <==> !old(self).initialized,
            r is Err ==> *final(self) == *old(self) && r == Err::<(), CertificateError>(
                CertificateError::AlreadyInitialized,
            ),
            r is Ok ==> {
                &&& final(self).initialized
                &&& final(self).admin == admin
                &&& final(self).roles@ == old(self).roles@.insert(admin, RoleLevel::Admin)
                &&& final(self).multisig_configs@ == old(self).multisig_configs@
                &&& final(self).store == old(self).store
                &&& final(self).renewal_threshold == old(self).renewal_threshold
                &&& final(self).signing_window == old(self).signing_window
            },
    {
        if self.initialized {
            return Err(CertificateError::AlreadyInitialized);
        }
        self.admin = admin;
        self.initialized = true;
        self.roles.insert(admin, RoleLevel::Admin);
        Ok(())
    }

    /// The admin identity; fails until the registry is initialized.
    pub fn get_admin(&self) -> (r: Result<u64, CertificateError>)
        ensures
            r is Ok <==> self.initialized,
            self.initialized ==> r == Ok::<u64, CertificateError>(self.admin),
            !self.initialized ==> r == Err::<u64, CertificateError>(
                CertificateError::NotInitialized,
            ),
    {
        if !self.initialized {
            return Err(CertificateError::NotInitialized);
        }
        Ok(self.admin)
    }

    /// Grant `user` the role encoded by `role_level` (1 to 3). Only the admin
    /// may grant roles.
    pub fn grant_role(&mut self, caller: u64, user: u64, role_level: u32) -> (r: Result<
        (),
        CertificateError,
    >)
        requires
            old(self).wf(),
        ensures
            final(self).wf(),
            r is Err ==> *final(self) == *old(self),
            !old(self).initialized ==> r == Err::<(), CertificateError>(
                CertificateError::NotInitialized,
            ),
            old(self).initialized && spec_role_from_u32(role_level) is None ==> r == Err::<
                (),
                CertificateError,
            >(CertificateError::InvalidRole),
            old(self).initialized && spec_role_from_u32(role_level) is Some && caller != old(self).admin ==> r == Err::<(), CertificateError>(CertificateError::Unauthorized),
            r is Ok <==> old(self).initialized && spec_role_from_u32(role_level) is Some && caller
                == old(self).admin,
            r is Ok ==> {
                &&& final(self).roles@ == old(self).roles@.insert(
                    user,
                    spec_role_from_u32(role_level)->Some_0,
                )
                &&& final(self).initialized == old(self).initialized
                &&& final(self).admin == old(self).admin
                &&& final(self).multisig_configs@ == old(self).multisig_configs@
                &&& final(self).store == old(self).store
                &&& final(self).renewal_threshold == old(self).renewal_threshold
                &&& final(self).signing_window == old(self).signing_window
            },
    {
        if !self.initialized {
            return Err(CertificateError::NotInitialized);
        }
        let level = match types::role_from_u32(role_level) {
            Some(l) => l,
            None => {
                return Err(CertificateError::InvalidRole);
            },
        };
        if caller != self.admin {
            return Err(CertificateError::Unauthorized);
        }
        self.roles.insert(user, level);
        Ok(())
    }

    /// Remove `user`'s role. Only the admin may revoke roles.
    pub fn revoke_role(&mut self, caller: u64, user: u64) -> (r: Result<(), CertificateError>)
        requires
            old(self).wf(),
        ensures
            final(self).wf(),
            r is Err ==> *final(self) == *old(self),
            !old(self).initialized ==> r == Err::<(), CertificateError>(
                CertificateError::NotInitialized,
            ),
            old(self).initialized && caller != old(self).admin ==> r == Err::<
                (),
                CertificateError,
            >(CertificateError::Unauthorized),
            r is Ok <==> old(self).initialized && caller == old(self).admin,
            r is Ok ==> {
                &&& final(self).roles@ == old(self).roles@.remove(user)
                &&& final(self).initialized == old(self).initialized
                &&& final(self).admin == old(self).admin
                &&& final(self).multisig_configs@ == old(self).multisig_configs@
                &&& final(self).store == old(self).store
                &&& final(self).renewal_threshold == old(self).renewal_threshold
                &&& final(self).signing_window == old(self).signing_window
            },
    {
        if !self.initialized {
            return Err(CertificateError::NotInitialized);
        }
        if caller != self.admin {
            return Err(CertificateError::Unauthorized);
        }
        self.roles.remove(&user);
        Ok(())
    }

    /// The role `user` currently holds, if any.
    pub fn get_role(&self, user: u64) -> (r: Option<RoleLevel>)
        ensures
            r == if self.roles@.contains_key(user) {
                Some(self.roles@[user])
            } else {
                None::<RoleLevel>
            },
    {
        match self.roles.get(&user) {
            Some(l) => Some(*l),
            None => None,
        }
    }

    /// Whether `user` holds the permission encoded by `permission`
    /// (0 to 3); unknown codes grant nothing.
    pub fn has_permission(&self, user: u64, permission: u32) -> (b: bool)
        ensures
            b == match spec_permission_from_u32(permission) {
                Some(p) => self.spec_has_permission(user, p),
                None => false,
            },
    {
        let p = match types::permission_from_u32(permission) {
            Some(p) => p,
            None => {
                return false;
            },
        };
        match self.roles.get(&user) {
            Some(level) => types::role_grants(*level, p),
            None => false,
        }
    }

    /// Set the multi-signature policy for one operation category. Only the
    /// admin may; a threshold of zero, or one beyond the signer count, is
    /// rejected as `InvalidConfig`.
    pub fn set_multisig_config(
        &mut self,
        caller: u64,
        kind: MultiSigOpKind,
        threshold: u32,
        signers: Vec<u64>,
    ) -> (r: Result<(), CertificateError>)
        requires
            old(self).wf(),
        ensures
            final(self).wf(),
            r is Err ==> *final(self) == *old(self),
            !old(self).initialized ==> r == Err::<(), CertificateError>(
                CertificateError::NotInitialized,
            ),
            old(self).initialized && caller != old(self).admin ==> r == Err::<
                (),
                CertificateError,
            >(CertificateError::Unauthorized),
            old(self).initialized && caller == old(self).admin && !(1 <= threshold && threshold
                <= signers@.len()) ==> r == Err::<(), CertificateError>(
                CertificateError::InvalidConfig,
            ),
            r is Ok <==> (old(self).initialized && caller == old(self).admin && 1 <= threshold
                && threshold <= signers@.len()),
            r is Ok ==> {
                let code = spec_op_kind_code(kind);
                &&& final(self).multisig_configs@.dom() == old(self).multisig_configs@.dom().insert(code)
                &&& final(self).multisig_configs@[code].threshold == threshold
                &&& final(self).multisig_configs@[code].signers@ == signers@
                &&& forall|k: u64|
                    k != code && #[trigger] old(self).multisig_configs@.contains_key(k) ==> final(self).multisig_configs@[k] == old(self).multisig_configs@[k]
                &&& final(self).store == old(self).store
                &&& final(self).initialized == old(self).initialized
                &&& final(self).admin == old(self).admin
                &&& final(self).roles@ == old(self).roles@
                &&& final(self).renewal_threshold == old(self).renewal_threshold
                &&& final(self).signing_window == old(self).signing_window
            },
    {
        if !self.initialized {
            return Err(CertificateError::NotInitialized);
        }
        if caller != self.admin {
            return Err(CertificateError::Unauthorized);
        }
        if threshold < 1 || threshold as usize > signers.len() {
            return Err(CertificateError::InvalidConfig);
        }
        let code = types::op_kind_code(kind);
        self.multisig_configs.insert(code, MultiSigConfig { threshold, signers });
        proof {
            assert(self.multisig_configs@.dom() =~= old(self).multisig_configs@.dom().insert(spec_op_kind_code(kind)));
        }
        Ok(())
    }

    /// Issue a certificate. The issuer must hold issue permission, the
    /// parameters must validate, the identifier must be fresh, and the
    /// student must satisfy every mandatory prerequisite of the course —
    /// otherwise the named error comes back and nothing changes. On success
    /// the new active record is stored and both ownership indexes gain it.
    pub fn mint_certificate(&mut self, issuer: u64, params: MintCertificateParams, now: u64) -> (r:
        Result<(), CertificateError>)
        requires
            old(self).wf(),
        ensures
            final(self).wf(),
            r is Err ==> *final(self) == *old(self),
            !old(self).spec_has_permission(issuer, Permission::IssueCertificate) ==> r == Err::<
                (),
                CertificateError,
            >(CertificateError::Unauthorized),
            old(self).spec_has_permission(issuer, Permission::IssueCertificate)
                && !spec_valid_mint_params(params, now) ==> r == Err::<(), CertificateError>(
                CertificateError::InvalidMetadata,
            ),
            old(self).spec_has_permission(issuer, Permission::IssueCertificate)
                && spec_valid_mint_params(params, now) && old(self).store.certificates@.contains_key(
                params.certificate_id,
            ) ==> r == Err::<(), CertificateError>(CertificateError::CertificateAlreadyExists),
            old(self).spec_has_permission(issuer, Permission::IssueCertificate)
                && spec_valid_mint_params(params, now) && !old(self).store.certificates@.contains_key(params.certificate_id) && !spec_eligible(
                old(self).store,
                params.student,
                params.course_id,
                now,
            ) ==> r == Err::<(), CertificateError>(CertificateError::PrerequisiteNotMet),
            r is Ok <==> (old(self).spec_has_permission(issuer, Permission::IssueCertificate)
                && spec_valid_mint_params(params, now) && !old(self).store.certificates@.contains_key(params.certificate_id) && spec_eligible(
                old(self).store,
                params.student,
                params.course_id,
                now,
            )),
            r is Ok ==> {
                let id = params.certificate_id;
                let student = params.student;
                let old_u = if old(self).store.user_certificates@.contains_key(student) {
                    old(self).store.user_certificates@[student]@
                } else {
                    Seq::<u64>::empty()
                };
                let old_i = if old(self).store.instructor_certificates@.contains_key(issuer) {
                    old(self).store.instructor_certificates@[issuer]@
                } else {
                    Seq::<u64>::empty()
                };
                &&& final(self).store.certificates@ == old(self).store.certificates@.insert(
                    id,
                    minted_record(params, issuer, now),
                )
                &&& final(self).store.user_certificates@.dom() == old(self).store.user_certificates@.dom().insert(student)
                &&& final(self).store.user_certificates@[student]@ == old_u.push(id)
                &&& forall|u: u64|
                    u != student && #[trigger] old(self).store.user_certificates@.contains_key(u)
                        ==> final(self).store.user_certificates@[u] == old(self).store.user_certificates@[u]
                &&& final(self).store.instructor_certificates@.dom() == old(self).store.instructor_certificates@.dom().insert(issuer)
                &&& final(self).store.instructor_certificates@[issuer]@ == old_i.push(id)
                &&& forall|u: u64|
                    u != issuer && #[trigger] old(self).store.instructor_certificates@.contains_key(u) ==> final(self).store.instructor_certificates@[u] == old(self).store.instructor_certificates@[u]
                &&& final(self).store.metadata_history == old(self).store.metadata_history
                &&& final(self).store.prerequisites == old(self).store.prerequisites
                &&& final(self).store.overrides == old(self).store.overrides
                &&& final(self).store.requests == old(self).store.requests
                &&& final(self).store.audit_log == old(self).store.audit_log
                &&& final(self).store.notifications == old(self).store.notifications
                &&& final(self).store.renewal_requests == old(self).store.renewal_requests
                &&& final(self).initialized == old(self).initialized
                &&& final(self).admin == old(self).admin
                &&& final(self).roles@ == old(self).roles@
                &&& final(self).multisig_configs@ == old(self).multisig_configs@
                &&& final(self).renewal_threshold == old(self).renewal_threshold
                &&& final(self).signing_window == old(self).signing_window
            },
    {
        let permitted = match self.roles.get(&issuer) {
            Some(level) => types::role_grants(*level, Permission::IssueCertificate),
            None => false,
        };
        if !permitted {
            return Err(CertificateError::Unauthorized);
        }
        let title_len = params.title.as_str().unicode_len();
        let description_len = params.description.as_str().unicode_len();
        let uri_len = params.metadata_uri.as_str().unicode_len();
        if title_len < 1 || title_len > MAX_TITLE_LEN || description_len > MAX_DESCRIPTION_LEN
            || uri_len > MAX_URI_LEN || params.expiry_date < now {
            return Err(CertificateError::InvalidMetadata);
        }
        if self.store.has_certificate(params.certificate_id) {
            return Err(CertificateError::CertificateAlreadyExists);
        }
        let check = check_eligibility(&self.store, params.student, params.course_id, now);
        proof {
            lemma_satisfied_iff_eligible(self.store, params.student, params.course_id, now, check);
        }
        if !check.satisfied {
            return Err(CertificateError::PrerequisiteNotMet);
        }
        let ghost pre = self.store;
        let id = params.certificate_id;
        let student = params.student;
        let rec = CertificateMetadata {
            token_id: id,
            course_id: params.course_id,
            student_id: student,
            instructor_id: issuer,
            issue_date: now,
            title: params.title,
            description: params.description,
            metadata_uri: params.metadata_uri,
            status: CertificateStatus::Active,
            expiry_date: params.expiry_date,
            original_expiry_date: params.expiry_date,
            renewal_count: 0,
            last_renewed_date: 0,
        };
        self.store.certificates.insert(id, rec);
        let mut uvec = match self.store.user_certificates.remove(&student) {
            Some(v) => v,
            None => Vec::new(),
        };
        uvec.push(id);
        self.store.user_certificates.insert(student, uvec);
        let mut ivec = match self.store.instructor_certificates.remove(&issuer) {
            Some(v) => v,
            None => Vec::new(),
        };
        ivec.push(id);
        self.store.instructor_certificates.insert(issuer, ivec);
        proof {
            let post = self.store;
            let mrec = minted_record(params, issuer, now);
            assert(post.certificates@ == pre.certificates@.insert(id, mrec));
            assert(post.user_certificates@.dom() =~= pre.user_certificates@.dom().insert(student));
            assert(post.instructor_certificates@.dom() =~= pre.instructor_certificates@.dom().insert(
                issuer,
            ));
            lemma_wf_mint(pre, post, id, mrec);
        }
        Ok(())
    }

    /// Mint a bounded batch atomically: permission, parameter validity,
    /// fresh and pairwise-distinct identifiers, and eligibility are all
    /// validated against the starting state before any record is written, so
    /// a failing batch changes nothing. On success every item is minted as by
    /// `mint_certificate`, each against the state its predecessors left.
    #[verifier::rlimit(60)]
    pub fn mint_certificates_batch(
        &mut self,
        issuer: u64,
        params_list: Vec<MintCertificateParams>,
        now: u64,
    ) -> (r: Result<(), CertificateError>)
        requires
            old(self).wf(),
        ensures
            final(self).wf(),
            r is Err ==> *final(self) == *old(self),
            params_list@.len() > crate::expiry::MAX_BATCH ==> r == Err::<(), CertificateError>(
                CertificateError::BatchTooLarge,
            ),
            params_list@.len() <= crate::expiry::MAX_BATCH && !old(self).spec_has_permission(
                issuer,
                Permission::IssueCertificate,
            ) ==> r == Err::<(), CertificateError>(CertificateError::Unauthorized),
            r is Ok <==> (params_list@.len() <= crate::expiry::MAX_BATCH && old(self).spec_has_permission(issuer, Permission::IssueCertificate) && forall|k: int|
                0 <= k < params_list@.len() ==> batch_item_ok(old(self).store, params_list@, k, now)),
            (params_list@.len() <= crate::expiry::MAX_BATCH && old(self).spec_has_permission(
                issuer,
                Permission::IssueCertificate,
            ) && r is Err) ==> exists|k: int|
                0 <= k < params_list@.len() && !(#[trigger] batch_item_ok(
                    old(self).store,
                    params_list@,
                    k,
                    now,
                )) && (forall|j: int| 0 <= j < k ==> batch_item_ok(old(self).store, params_list@, j, now))
                    && r == Err::<(), CertificateError>(
                    batch_item_error(old(self).store, params_list@, k, now),
                ),
            r is Ok ==> batch_post(*old(self), *final(self), params_list@, issuer, now),
    {
        if params_list.len() > crate::expiry::MAX_BATCH {
            return Err(CertificateError::BatchTooLarge);
        }
        let permitted = match self.roles.get(&issuer) {
            Some(level) => types::role_grants(*level, Permission::IssueCertificate),
            None => false,
        };
        if !permitted {
            return Err(CertificateError::Unauthorized);
        }
        let mut k: usize = 0;
        while k < params_list.len()
            invariant
                self.wf(),
                *self == *old(self),
                k <= params_list@.len(),
                params_list@.len() <= crate::expiry::MAX_BATCH,
                old(self).spec_has_permission(issuer, Permission::IssueCertificate),
                forall|j: int| 0 <= j < k ==> batch_item_ok(self.store, params_list@, j, now),
            decreases params_list@.len() - k,
        {
            let p = &params_list[k];
            let title_len = p.title.as_str().unicode_len();
            let description_len = p.description.as_str().unicode_len();
            let uri_len = p.metadata_uri.as_str().unicode_len();
            if title_len < 1 || title_len > MAX_TITLE_LEN || description_len > MAX_DESCRIPTION_LEN
                || uri_len > MAX_URI_LEN || p.expiry_date < now {
                proof {
                    assert(!spec_valid_mint_params(params_list@[k as int], now));
                    assert(!batch_item_ok(self.store, params_list@, k as int, now));
                }
                return Err(CertificateError::InvalidMetadata);
            }
            proof {
                assert(spec_valid_mint_params(params_list@[k as int], now));
            }
            if self.store.has_certificate(p.certificate_id) {
                proof {
                    assert(!batch_item_ok(self.store, params_list@, k as int, now));
                    assert(batch_item_error(self.store, params_list@, k as int, now)
                        == CertificateError::CertificateAlreadyExists);
                }
                return Err(CertificateError::CertificateAlreadyExists);
            }
            let mut j: usize = 0;
            while j < k
                invariant
                    self.wf(),
                    *self == *old(self),
                    j <= k < params_list@.len(),
                    params_list@.len() <= crate::expiry::MAX_BATCH,
                    old(self).spec_has_permission(issuer, Permission::IssueCertificate),
                    forall|j3: int| 0 <= j3 < k ==> batch_item_ok(self.store, params_list@, j3, now),
                    spec_valid_mint_params(params_list@[k as int], now),
                    !self.store.certificates@.contains_key(params_list@[k as int].certificate_id),
                    forall|j2: int|
                        0 <= j2 < j ==> (#[trigger] params_list@[j2]).certificate_id
                            != params_list@[k as int].certificate_id,
                decreases k - j,
            {
                if params_list[j].certificate_id == params_list[k].certificate_id {
                    proof {
                        assert(!batch_item_ok(self.store, params_list@, k as int, now));
                        assert(exists|j2: int|
                            0 <= j2 < k && (#[trigger] params_list@[j2]).certificate_id
                                == params_list@[k as int].certificate_id) by {
                            assert(params_list@[j as int].certificate_id
                                == params_list@[k as int].certificate_id);
                        }
                        assert(batch_item_error(self.store, params_list@, k as int, now)
                            == CertificateError::CertificateAlreadyExists);
                    }
                    return Err(CertificateError::CertificateAlreadyExists);
                }
                j = j + 1;
            }
            let check = check_eligibility(&self.store, p.student, p.course_id, now);
            proof {
                lemma_satisfied_iff_eligible(self.store, p.student, p.course_id, now, check);
            }
            if !check.satisfied {
                proof {
                    assert(!(exists|j2: int|
                        0 <= j2 < k && (#[trigger] params_list@[j2]).certificate_id
                            == params_list@[k as int].certificate_id)) by {
                        if exists|j2: int|
                            0 <= j2 < k && (#[trigger] params_list@[j2]).certificate_id
                                == params_list@[k as int].certificate_id {
                            let j2 = choose|j2: int|
                                0 <= j2 < k && (#[trigger] params_list@[j2]).certificate_id
                                    == params_list@[k as int].certificate_id;
                        }
                    }
                    assert(!batch_item_ok(self.store, params_list@, k as int, now));
                    assert(batch_item_error(self.store, params_list@, k as int, now)
                        == CertificateError::PrerequisiteNotMet);
                }
                return Err(CertificateError::PrerequisiteNotMet);
            }
            k = k + 1;
        }
        let ghost pre = *old(self);
        let mut k: usize = 0;
        while k < params_list.len()
            invariant
                self.wf(),
                k <= params_list@.len(),
                params_list@.len() <= crate::expiry::MAX_BATCH,
                old(self).spec_has_permission(issuer, Permission::IssueCertificate),
                forall|j: int|
                    0 <= j < params_list@.len() ==> batch_item_ok(pre.store, params_list@, j, now),
                forall|id: u64|
                    #[trigger] self.store.certificates@.contains_key(id) <==> (
                    pre.store.certificates@.contains_key(id) || exists|j: int|
                        0 <= j < k && (#[trigger] params_list@[j]).certificate_id == id),
                forall|j: int|
                    0 <= j < k ==> self.store.certificates@[(
                    #[trigger] params_list@[j]).certificate_id] == minted_record(
                        params_list@[j],
                        issuer,
                        now,
                    ),
                forall|id: u64|
                    #[trigger] pre.store.certificates@.contains_key(id)
                        ==> self.store.certificates@[id] == pre.store.certificates@[id],
                forall|j: int|
                    0 <= j < k ==> {
                        let p = #[trigger] params_list@[j];
                        &&& self.store.user_certificates@.contains_key(p.student)
                        &&& self.store.user_certificates@[p.student]@.contains(p.certificate_id)
                        &&& self.store.instructor_certificates@.contains_key(issuer)
                        &&& self.store.instructor_certificates@[issuer]@.contains(p.certificate_id)
                    },
                self.store.metadata_history == pre.store.metadata_history,
                self.store.prerequisites == pre.store.prerequisites,
                self.store.overrides == pre.store.overrides,
                self.store.requests == pre.store.requests,
                self.store.audit_log == pre.store.audit_log,
                self.store.notifications == pre.store.notifications,
                self.store.renewal_requests == pre.store.renewal_requests,
                self.initialized == pre.initialized,
                self.admin == pre.admin,
                self.roles@ == pre.roles@,
                self.multisig_configs@ == pre.multisig_configs@,
                self.renewal_threshold == pre.renewal_threshold,
                self.signing_window == pre.signing_window,
                *old(self) == pre,
            decreases params_list@.len() - k,
        {
            let ghost mid = *self;
            let p = clone_params(&params_list[k]);
            proof {
                assert(batch_item_ok(pre.store, params_list@, k as int, now));
                assert(!mid.store.certificates@.contains_key(p.certificate_id)) by {
                    if mid.store.certificates@.contains_key(p.certificate_id) {
                        assert(exists|j: int|
                            0 <= j < k && (#[trigger] params_list@[j]).certificate_id
                                == p.certificate_id);
                    }
                }
                lemma_eligible_monotone(pre.store, mid.store, p.student, p.course_id, now);
                assert(mid.spec_has_permission(issuer, Permission::IssueCertificate));
            }
            let outcome = self.mint_certificate(issuer, p, now);
            proof {
                assert(outcome is Ok);
                let pk = params_list@[k as int];
                assert forall|id: u64|
                    #[trigger] self.store.certificates@.contains_key(id) implies (
                    pre.store.certificates@.contains_key(id) || exists|j: int|
                        0 <= j < k + 1 && (#[trigger] params_list@[j]).certificate_id == id) by {
                    if id != pk.certificate_id {
                        assert(mid.store.certificates@.contains_key(id));
                    }
                }
                assert forall|j: int|
                    0 <= j < k + 1 implies {
                    let pj = #[trigger] params_list@[j];
                    &&& self.store.user_certificates@.contains_key(pj.student)
                    &&& self.store.user_certificates@[pj.student]@.contains(pj.certificate_id)
                    &&& self.store.instructor_certificates@.contains_key(issuer)
                    &&& self.store.instructor_certificates@[issuer]@.contains(pj.certificate_id)
                } by {
                    let pj = params_list@[j];
                    if j < k {
                        if pj.student == pk.student {
                            let old_u = mid.store.user_certificates@[pk.student]@;
                            let q = choose|q: int| 0 <= q < old_u.len() && old_u[q] == pj.certificate_id;
                            assert(self.store.user_certificates@[pk.student]@[q]
                                == pj.certificate_id);
                        } else {
                            assert(self.store.user_certificates@[pj.student]
                                == mid.store.user_certificates@[pj.student]);
                        }
                        let old_i = mid.store.instructor_certificates@[issuer]@;
                        let q2 = choose|q2: int| 0 <= q2 < old_i.len() && old_i[q2] == pj.certificate_id;
                        assert(self.store.instructor_certificates@[issuer]@[q2]
                            == pj.certificate_id);
                    } else {
                        let old_u = if mid.store.user_certificates@.contains_key(pk.student) {
                            mid.store.user_certificates@[pk.student]@
                        } else {
                            Seq::<u64>::empty()
                        };
                        assert(self.store.user_certificates@[pk.student]@[old_u.len() as int]
                            == pk.certificate_id);
                        let old_i = if mid.store.instructor_certificates@.contains_key(issuer) {
                            mid.store.instructor_certificates@[issuer]@
                        } else {
                            Seq::<u64>::empty()
                        };
                        assert(self.store.instructor_certificates@[issuer]@[old_i.len() as int]
                            == pk.certificate_id);
                    }
                }
            }
            k = k + 1;
        }
        proof {
            assert(batch_post(pre, *self, params_list@, issuer, now));
        }
        Ok(())
    }

    /// Route a revocation through the multi-signature coordinator: the
    /// revoker must hold revoke permission and a `Revoke` policy must be
    /// configured; a pending request is then proposed and its identifier
    /// returned. The certificate itself changes only when the approved
    /// request is executed.
    pub fn revoke_certificate(&mut self, revoker: u64, certificate_id: u64, now: u64) -> (r: Result<
        u64,
        CertificateError,
    >)
        requires
            old(self).wf(),
            now + old(self).signing_window <= u64::MAX,
        ensures
            final(self).wf(),
            r is Err ==> *final(self) == *old(self),
            !old(self).spec_has_permission(revoker, Permission::RevokeCertificate) ==> r == Err::<
                u64,
                CertificateError,
            >(CertificateError::Unauthorized),
            old(self).spec_has_permission(revoker, Permission::RevokeCertificate) && !old(self).multisig_configs@.contains_key(spec_op_kind_code(MultiSigOpKind::Revoke)) ==> r
                == Err::<u64, CertificateError>(CertificateError::ConfigNotSet),
            r is Ok <==> (old(self).spec_has_permission(revoker, Permission::RevokeCertificate)
                && old(self).multisig_configs@.contains_key(
                spec_op_kind_code(MultiSigOpKind::Revoke),
            )),
            r is Ok ==> {
                let cfg = old(self).multisig_configs@[spec_op_kind_code(MultiSigOpKind::Revoke)];
                &&& propose_post(
                    old(self).store,
                    final(self).store,
                    MultiSigOperation::Revoke { certificate_id },
                    revoker,
                    cfg.threshold,
                    cfg.signers@,
                    now,
                    old(self).signing_window,
                    r->Ok_0,
                )
                &&& final(self).initialized == old(self).initialized
                &&& final(self).admin == old(self).admin
                &&& final(self).roles@ == old(self).roles@
                &&& final(self).multisig_configs@ == old(self).multisig_configs@
                &&& final(self).renewal_threshold == old(self).renewal_threshold
                &&& final(self).signing_window == old(self).signing_window
            },
    {
        let permitted = match self.roles.get(&revoker) {
            Some(level) => types::role_grants(*level, Permission::RevokeCertificate),
            None => false,
        };
        if !permitted {
            return Err(CertificateError::Unauthorized);
        }
        let code = types::op_kind_code(MultiSigOpKind::Revoke);
        let window = self.signing_window;
        match self.multisig_configs.get(&code) {
            Some(cfg) => {
                let rid = crate::multisig::propose(
                    &mut self.store,
                    MultiSigOperation::Revoke { certificate_id },
                    revoker,
                    cfg,
                    now,
                    window,
                );
                Ok(rid)
            },
            None => Err(CertificateError::ConfigNotSet),
        }
    }

    /// Route a metadata override through the multi-signature coordinator,
    /// analogously to revocation: the updater must hold update permission and
    /// a `MetadataOverride` policy must be configured.
    pub fn update_certificate_metadata(
        &mut self,
        updater: u64,
        certificate_id: u64,
        new_uri: String,
        now: u64,
    ) -> (r: Result<u64, CertificateError>)
        requires
            old(self).wf(),
            now + old(self).signing_window <= u64::MAX,
        ensures
            final(self).wf(),
            r is Err ==> *final(self) == *old(self),
            !old(self).spec_has_permission(updater, Permission::UpdateCertificateMetadata) ==> r
                == Err::<u64, CertificateError>(CertificateError::Unauthorized),
            old(self).spec_has_permission(updater, Permission::UpdateCertificateMetadata) && !old(self).multisig_configs@.contains_key(spec_op_kind_code(MultiSigOpKind::MetadataOverride))
                ==> r == Err::<u64, CertificateError>(CertificateError::ConfigNotSet),
            r is Ok <==> (old(self).spec_has_permission(
                updater,
                Permission::UpdateCertificateMetadata,
            ) && old(self).multisig_configs@.contains_key(
                spec_op_kind_code(MultiSigOpKind::MetadataOverride),
            )),
            r is Ok ==> {
                let cfg = old(self).multisig_configs@[spec_op_kind_code(
                    MultiSigOpKind::MetadataOverride,
                )];
                &&& propose_post(
                    old(self).store,
                    final(self).store,
                    MultiSigOperation::MetadataOverride { certificate_id, new_uri },
                    updater,
                    cfg.threshold,
                    cfg.signers@,
                    now,
                    old(self).signing_window,
                    r->Ok_0,
                )
                &&& final(self).initialized == old(self).initialized
                &&& final(self).admin == old(self).admin
                &&& final(self).roles@ == old(self).roles@
                &&& final(self).multisig_configs@ == old(self).multisig_configs@
                &&& final(self).renewal_threshold == old(self).renewal_threshold
                &&& final(self).signing_window == old(self).signing_window
            },
    {
        let permitted = match self.roles.get(&updater) {
            Some(level) => types::role_grants(*level, Permission::UpdateCertificateMetadata),
            None => false,
        };
        if !permitted {
            return Err(CertificateError::Unauthorized);
        }
        let code = types::op_kind_code(MultiSigOpKind::MetadataOverride);
        let window = self.signing_window;
        match self.multisig_configs.get(&code) {
            Some(cfg) => {
                let rid = crate::multisig::propose(
                    &mut self.store,
                    MultiSigOperation::MetadataOverride { certificate_id, new_uri },
                    updater,
                    cfg,
                    now,
                    window,
                );
                Ok(rid)
            },
            None => Err(CertificateError::ConfigNotSet),
        }
    }

    /// Handle a renewal request against the registry's policy: extensions
    /// beyond the renewal threshold route through the multi-signature
    /// coordinator under the `LargeRenewal` policy; smaller ones apply
    /// immediately.
    pub fn request_renewal(
        &mut self,
        requester: u64,
        certificate_id: u64,
        new_expiry: u64,
        now: u64,
    ) -> (r: Result<RenewalOutcome, CertificateError>)
        requires
            old(self).wf(),
            now + old(self).signing_window <= u64::MAX,
        ensures
            final(self).wf(),
            request_renewal_post(
                old(self).store,
                final(self).store,
                certificate_id,
                requester,
                new_expiry,
                now,
                old(self).renewal_threshold,
                if old(self).multisig_configs@.contains_key(
                    spec_op_kind_code(MultiSigOpKind::LargeRenewal),
                ) {
                    Some(
                        old(self).multisig_configs@[spec_op_kind_code(
                            MultiSigOpKind::LargeRenewal,
                        )].threshold,
                    )
                } else {
                    None
                },
                if old(self).multisig_configs@.contains_key(
                    spec_op_kind_code(MultiSigOpKind::LargeRenewal),
                ) {
                    Some(
                        old(self).multisig_configs@[spec_op_kind_code(
                            MultiSigOpKind::LargeRenewal,
                        )].signers@,
                    )
                } else {
                    None
                },
                old(self).signing_window,
                r,
            ),
            final(self).initialized == old(self).initialized,
            final(self).admin == old(self).admin,
            final(self).roles@ == old(self).roles@,
            final(self).multisig_configs@ == old(self).multisig_configs@,
            final(self).renewal_threshold == old(self).renewal_threshold,
            final(self).signing_window == old(self).signing_window,
    {
        let code = types::op_kind_code(MultiSigOpKind::LargeRenewal);
        let threshold = self.renewal_threshold;
        let window = self.signing_window;
        let config = self.multisig_configs.get(&code);
        crate::expiry::request_renewal(
            &mut self.store,
            certificate_id,
            requester,
            new_expiry,
            now,
            threshold,
            config,
            window,
        )
    }

    /// Transfer an active certificate from its current holder to `to`: the
    /// record changes holder, its status becomes `Transferred`, and the
    /// ownership index entry moves. Only the current holder may initiate, and
    /// a certificate cannot be transferred to its current holder.
    pub fn transfer_certificate(&mut self, from: u64, to: u64, certificate_id: u64) -> (r: Result<
        (),
        CertificateError,
    >)
        requires
            old(self).wf(),
        ensures
            final(self).wf(),
            r is Err ==> *final(self) == *old(self),
            !old(self).store.certificates@.contains_key(certificate_id) ==> r == Err::<
                (),
                CertificateError,
            >(CertificateError::CertificateNotFound),
            old(self).store.certificates@.contains_key(certificate_id) && from != old(self).store.certificates@[certificate_id].student_id ==> r == Err::<(), CertificateError>(
                CertificateError::Unauthorized,
            ),
            old(self).store.certificates@.contains_key(certificate_id) && from == old(self).store.certificates@[certificate_id].student_id && old(self).store.certificates@[certificate_id].status != CertificateStatus::Active ==> r
                == Err::<(), CertificateError>(CertificateError::CertificateNotActive),
            old(self).store.certificates@.contains_key(certificate_id) && from == old(self).store.certificates@[certificate_id].student_id && old(self).store.certificates@[certificate_id].status == CertificateStatus::Active && to == from
                ==> r == Err::<(), CertificateError>(CertificateError::InvalidTransfer),
            r is Ok <==> (old(self).store.certificates@.contains_key(certificate_id) && from == old(self).store.certificates@[certificate_id].student_id && old(self).store.certificates@[certificate_id].status == CertificateStatus::Active && to
                != from),
            r is Ok ==> {
                let rec = old(self).store.certificates@[certificate_id];
                let old_f = old(self).store.user_certificates@[from]@;
                let old_t = if old(self).store.user_certificates@.contains_key(to) {
                    old(self).store.user_certificates@[to]@
                } else {
                    Seq::<u64>::empty()
                };
                &&& final(self).store.certificates@ == old(self).store.certificates@.insert(
                    certificate_id,
                    CertificateMetadata {
                        student_id: to,
                        status: CertificateStatus::Transferred,
                        ..rec
                    },
                )
                &&& final(self).store.user_certificates@.contains_key(from)
                &&& (exists|p: int|
                    0 <= p < old_f.len() && old_f[p] == certificate_id && final(self).store.user_certificates@[from]@ == old_f.remove(p))
                &&& final(self).store.user_certificates@.contains_key(to)
                &&& final(self).store.user_certificates@[to]@ == old_t.push(certificate_id)
                &&& forall|u: u64|
                    u != from && u != to ==> ((#[trigger] final(self).store.user_certificates@.contains_key(u) <==> old(self).store.user_certificates@.contains_key(u)) && (old(self).store.user_certificates@.contains_key(u) ==> final(self).store.user_certificates@[u] == old(self).store.user_certificates@[u]))
                &&& final(self).store.instructor_certificates == old(self).store.instructor_certificates
                &&& final(self).store.metadata_history == old(self).store.metadata_history
                &&& final(self).store.prerequisites == old(self).store.prerequisites
                &&& final(self).store.overrides == old(self).store.overrides
                &&& final(self).store.requests == old(self).store.requests
                &&& final(self).store.audit_log == old(self).store.audit_log
                &&& final(self).store.notifications == old(self).store.notifications
                &&& final(self).store.renewal_requests == old(self).store.renewal_requests
                &&& final(self).initialized == old(self).initialized
                &&& final(self).admin == old(self).admin
                &&& final(self).roles@ == old(self).roles@
                &&& final(self).multisig_configs@ == old(self).multisig_configs@
                &&& final(self).renewal_threshold == old(self).renewal_threshold
                &&& final(self).signing_window == old(self).signing_window
            },
    {
        match self.store.certificates.get(&certificate_id) {
            None => {
                return Err(CertificateError::CertificateNotFound);
            },
            Some(rec) => {
                if from != rec.student_id {
                    return Err(CertificateError::Unauthorized);
                }
                if !matches!(rec.status, CertificateStatus::Active) {
                    return Err(CertificateError::CertificateNotActive);
                }
                if to == from {
                    return Err(CertificateError::InvalidTransfer);
                }
            },
        }
        let ghost pre = self.store;
        let mut uvec = match self.store.user_certificates.remove(&from) {
            Some(v) => v,
            None => unreached(),
        };
        let mut pos: usize = 0;
        while pos < uvec.len() && uvec[pos] != certificate_id
            invariant
                pos <= uvec@.len(),
                forall|j: int| 0 <= j < pos ==> uvec@[j] != certificate_id,
            decreases uvec@.len() - pos,
        {
            pos = pos + 1;
        }
        proof {
            assert(uvec@.contains(certificate_id));
            if pos >= uvec@.len() {
                let j = choose|j: int| 0 <= j < uvec@.len() && uvec@[j] == certificate_id;
                assert(false);
            }
        }
        uvec.remove(pos);
        self.store.user_certificates.insert(from, uvec);
        let mut tvec = match self.store.user_certificates.remove(&to) {
            Some(v) => v,
            None => Vec::new(),
        };
        tvec.push(certificate_id);
        self.store.user_certificates.insert(to, tvec);
        let rec = match self.store.certificates.remove(&certificate_id) {
            Some(r) => r,
            None => unreached(),
        };
        let newrec = CertificateMetadata {
            student_id: to,
            status: CertificateStatus::Transferred,
            ..rec
        };
        self.store.certificates.insert(certificate_id, newrec);
        proof {
            let post = self.store;
            assert(post.certificates@ =~= pre.certificates@.insert(certificate_id, newrec));
            assert(post.user_certificates@[from]@ == pre.user_certificates@[from]@.remove(
                pos as int,
            ));
            store::lemma_wf_transfer(pre, post, certificate_id, to, pos as int);
        }
        Ok(())
    }

    /// Look a certificate up.
    pub fn get_certificate(&self, certificate_id: u64) -> (r: Option<&CertificateMetadata>)
        ensures
            match r {
                Some(rec) => self.store.certificates@.contains_key(certificate_id) && *rec
                    == self.store.certificates@[certificate_id],
                None => !self.store.certificates@.contains_key(certificate_id),
            },
    {
        self.store.get_certificate(certificate_id)
    }

    /// The identifiers of every certificate `user` holds, in issuance order;
    /// empty for an unknown user.
    pub fn get_user_certificates(&self, user: u64) -> (r: Vec<u64>)
        ensures
            r@ == (if self.store.user_certificates@.contains_key(user) {
                self.store.user_certificates@[user]@
            } else {
                Seq::<u64>::empty()
            }),
    {
        match self.store.user_certificates.get(&user) {
            Some(v) => copy_ids(v),
            None => Vec::new(),
        }
    }

    /// The identifiers of every certificate `instructor` issued, in issuance
    /// order; empty for an unknown instructor.
    pub fn get_instructor_certificates(&self, instructor: u64) -> (r: Vec<u64>)
        ensures
            r@ == (if self.store.instructor_certificates@.contains_key(instructor) {
                self.store.instructor_certificates@[instructor]@
            } else {
                Seq::<u64>::empty()
            }),
    {
        match self.store.instructor_certificates.get(&instructor) {
            Some(v) => copy_ids(v),
            None => Vec::new(),
        }
    }

    /// The append-only metadata-update history of a certificate; empty when
    /// nothing was ever overridden.
    pub fn get_metadata_history(&self, certificate_id: u64) -> (r: Option<&Vec<MetadataUpdateEntry>>)
        ensures
            match r {
                Some(h) => self.store.metadata_history@.contains_key(certificate_id) && *h
                    == self.store.metadata_history@[certificate_id],
                None => !self.store.metadata_history@.contains_key(certificate_id),
            },
    {
        self.store.metadata_history.get(&certificate_id)
    }

    /// Whether the certificate exists and its expiry lies strictly in the
    /// past, whatever its status.
    pub fn is_certificate_expired(&self, certificate_id: u64, now: u64) -> (b: bool)
        ensures
            b == (self.store.certificates@.contains_key(certificate_id) && now
                > self.store.certificates@[certificate_id].expiry_date),
    {
        match self.store.certificates.get(&certificate_id) {
            Some(rec) => now > rec.expiry_date,
            None => false,
        }
    }

    /// Whether the certificate exists, is active, and is not yet past its
    /// expiry.
    pub fn is_valid_certificate(&self, certificate_id: u64, now: u64) -> (b: bool)
        ensures
            b == (self.store.certificates@.contains_key(certificate_id)
                && self.store.certificates@[certificate_id].status == CertificateStatus::Active
                && now <= self.store.certificates@[certificate_id].expiry_date),
    {
        match self.store.certificates.get(&certificate_id) {
            Some(rec) => matches!(rec.status, CertificateStatus::Active) && now <= rec.expiry_date,
            None => false,
        }
    }
}

/// Renewals extending the expiry by more than about one year route through
/// the multi-signature coordinator.
pub const DEFAULT_RENEWAL_THRESHOLD: u64 = 31536000;

/// A proposed multi-signature request stays signable for one day.
pub const DEFAULT_SIGNING_WINDOW: u64 = 86400;

} // verus!
