use vstd::prelude::*;

use crate::errors::CertificateError;
use crate::expiry::{
    MAX_BATCH, apply_renewal, renewal_allowed, renewed_of, scan_and_expire, sweep_certs,
    sweep_notifs,
};
use crate::store::{CertificateStore, copy_ids, ids_contain, lemma_wf_record_update, wf_msrequest};
use crate::types::{
    AuditAction, CertificateMetadata, CertificateStatus, MetadataUpdateEntry, MultiSigAuditEntry,
    MultiSigCertificateRequest, MultiSigConfig, MultiSigOperation, RequestStatus, is_terminal,
};

verus! {

/// The request with only its status replaced.
pub open spec fn status_set(q: MultiSigCertificateRequest, s: RequestStatus) -> MultiSigCertificateRequest {
    MultiSigCertificateRequest { status: s, ..q }
}

/// The record with its status replaced by `Revoked`.
pub open spec fn revoked_of(r: CertificateMetadata) -> CertificateMetadata {
    CertificateMetadata { status: CertificateStatus::Revoked, ..r }
}

/// The record with its metadata URI replaced.
pub open spec fn uri_set(r: CertificateMetadata, uri: String) -> CertificateMetadata {
    CertificateMetadata { metadata_uri: uri, ..r }
}

/// The whole effect of proposing `operation`: one new `Pending` request is
/// appended, carrying a frozen copy of the policy, and one audit entry is
/// logged; nothing else changes.
pub open spec fn propose_post(
    pre: CertificateStore,
    post: CertificateStore,
    operation: MultiSigOperation,
    proposer: u64,
    threshold: u32,
    signers: Seq<u64>,
    now: u64,
    window: u64,
    rid: u64,
) -> bool {
    &&& rid as int == pre.requests@.len()
    &&& post.requests@.len() == pre.requests@.len() + 1
    &&& forall|i: int| 0 <= i < pre.requests@.len() ==> post.requests@[i] == pre.requests@[i]
    &&& ({
        let q = post.requests@.last();
        &&& q.id == rid
        &&& q.operation == operation
        &&& q.proposer == proposer
        &&& q.threshold == threshold
        &&& q.eligible_signers@ == signers
        &&& q.signed_by@ == Seq::<u64>::empty()
        &&& q.status == RequestStatus::Pending
        &&& q.created_at == now
        &&& q.deadline == now + window
    })
    &&& post.audit_log@ == pre.audit_log@.push(
        MultiSigAuditEntry {
            request_id: rid,
            actor: proposer,
            action: AuditAction::Proposed,
            timestamp: now,
        },
    )
    &&& post.certificates == pre.certificates
    &&& post.user_certificates == pre.user_certificates
    &&& post.instructor_certificates == pre.instructor_certificates
    &&& post.metadata_history == pre.metadata_history
    &&& post.prerequisites == pre.prerequisites
    &&& post.overrides == pre.overrides
    &&& post.notifications == pre.notifications
    &&& post.renewal_requests == pre.renewal_requests
}

/// Create a request in `Pending` state. The threshold and eligible-signer
/// set are copied out of `config`, freezing the policy for this request's
/// whole life. Returns the new request's identifier.
pub fn propose(
    store: &mut CertificateStore,
    operation: MultiSigOperation,
    proposer: u64,
    config: &MultiSigConfig,
    now: u64,
    window: u64,
) -> (rid: u64)
    requires
        old(store).wf(),
        config.threshold >= 1,
        now + window <= u64::MAX,
    ensures
        final(store).wf(),
        propose_post(
            *old(store),
            *final(store),
            operation,
            proposer,
            config.threshold,
            config.signers@,
            now,
            window,
            rid,
        ),
{
    let rid = store.requests.len() as u64;
    let eligible = copy_ids(&config.signers);
    let q = MultiSigCertificateRequest {
        id: rid,
        operation,
        proposer,
        threshold: config.threshold,
        eligible_signers: eligible,
        signed_by: Vec::new(),
        status: RequestStatus::Pending,
        created_at: now,
        deadline: now + window,
    };
    store.requests.push(q);
    store.audit_log.push(
        MultiSigAuditEntry {
            request_id: rid,
            actor: proposer,
            action: AuditAction::Proposed,
            timestamp: now,
        },
    );
    proof {
        assert forall|i: int| 0 <= i < store.requests@.len() implies wf_msrequest(
            #[trigger] store.requests@[i],
            i,
        ) by {
            if i < store.requests@.len() - 1 {
                assert(wf_msrequest(old(store).requests@[i], i));
            }
        }
    }
    rid
}

/// Add `signer`'s signature to a pending request. On reaching the frozen
/// threshold the request transitions to `Approved`. Signing a request whose
/// deadline has passed fails with `RequestExpired` and, as a side effect,
/// transitions it to `Expired`. Every successful signature, and every lazy
/// expiry, appends one audit entry.
pub fn sign(store: &mut CertificateStore, request_id: u64, signer: u64, now: u64) -> (r: Result<
    (),
    CertificateError,
>)
    requires
        old(store).wf(),
    ensures
        final(store).wf(),
        request_id as int >= old(store).requests@.len() ==> r == Err::<(), CertificateError>(
            CertificateError::RequestNotFound,
        ) && *final(store) == *old(store),
        ({
            let inr = (request_id as int) < old(store).requests@.len();
            let q = old(store).requests@[request_id as int];
            &&& inr && q.status != RequestStatus::Pending ==> r == Err::<(), CertificateError>(
                CertificateError::RequestNotPending,
            ) && *final(store) == *old(store)
            &&& inr && q.status == RequestStatus::Pending && now > q.deadline ==> {
                &&& r == Err::<(), CertificateError>(CertificateError::RequestExpired)
                &&& final(store).requests@ == old(store).requests@.update(
                    request_id as int,
                    status_set(q, RequestStatus::Expired),
                )
                &&& final(store).audit_log@ == old(store).audit_log@.push(
                    MultiSigAuditEntry {
                        request_id,
                        actor: signer,
                        action: AuditAction::Expired,
                        timestamp: now,
                    },
                )
            }
            &&& inr && q.status == RequestStatus::Pending && now <= q.deadline
                && !q.eligible_signers@.contains(signer) ==> r == Err::<(), CertificateError>(
                CertificateError::NotAuthorizedSigner,
            ) && *final(store) == *old(store)
            &&& inr && q.status == RequestStatus::Pending && now <= q.deadline
                && q.eligible_signers@.contains(signer) && q.signed_by@.contains(signer) ==> r
                == Err::<(), CertificateError>(CertificateError::AlreadySigned) && *final(store)
                == *old(store)
            &&& r is Ok <==> (inr && q.status == RequestStatus::Pending && now <= q.deadline
                && q.eligible_signers@.contains(signer) && !q.signed_by@.contains(signer))
            &&& r is Ok ==> {
                let q1 = final(store).requests@[request_id as int];
                &&& final(store).requests@.len() == old(store).requests@.len()
                &&& forall|i: int|
                    0 <= i < old(store).requests@.len() && i != request_id as int
                        ==> final(store).requests@[i] == old(store).requests@[i]
                &&& q1.id == q.id
                &&& q1.operation == q.operation
                &&& q1.proposer == q.proposer
                &&& q1.threshold == q.threshold
                &&& q1.eligible_signers == q.eligible_signers
                &&& q1.signed_by@ == q.signed_by@.push(signer)
                &&& q1.created_at == q.created_at
                &&& q1.deadline == q.deadline
                &&& q1.status == (if q.signed_by@.len() + 1 >= q.threshold {
                    RequestStatus::Approved
                } else {
                    RequestStatus::Pending
                })
                &&& final(store).audit_log@ == old(store).audit_log@.push(
                    MultiSigAuditEntry {
                        request_id,
                        actor: signer,
                        action: AuditAction::Signed,
                        timestamp: now,
                    },
                )
            }
        }),
        final(store).certificates == old(store).certificates,
        final(store).user_certificates == old(store).user_certificates,
        final(store).instructor_certificates == old(store).instructor_certificates,
        final(store).metadata_history == old(store).metadata_history,
        final(store).prerequisites == old(store).prerequisites,
        final(store).overrides == old(store).overrides,
        final(store).notifications == old(store).notifications,
        final(store).renewal_requests == old(store).renewal_requests,
{
    if request_id >= store.requests.len() as u64 {
        return Err(CertificateError::RequestNotFound);
    }
    let idx = request_id as usize;
    if !matches!(store.requests[idx].status, RequestStatus::Pending) {
        return Err(CertificateError::RequestNotPending);
    }
    if now > store.requests[idx].deadline {
        let ghost pre = store.requests@;
        let mut q = store.requests.remove(idx);
        q.status = RequestStatus::Expired;
        store.requests.insert(idx, q);
        store.audit_log.push(
            MultiSigAuditEntry {
                request_id,
                actor: signer,
                action: AuditAction::Expired,
                timestamp: now,
            },
        );
        proof {
            assert(store.requests@ =~= pre.update(
                idx as int,
                status_set(pre[idx as int], RequestStatus::Expired),
            ));
            assert forall|i: int| 0 <= i < store.requests@.len() implies wf_msrequest(
                #[trigger] store.requests@[i],
                i,
            ) by {
                assert(wf_msrequest(pre[i], i));
            }
        }
        return Err(CertificateError::RequestExpired);
    }
    if !ids_contain(&store.requests[idx].eligible_signers, signer) {
        return Err(CertificateError::NotAuthorizedSigner);
    }
    if ids_contain(&store.requests[idx].signed_by, signer) {
        return Err(CertificateError::AlreadySigned);
    }
    let ghost pre = store.requests@;
    let mut q = store.requests.remove(idx);
    q.signed_by.push(signer);
    if q.signed_by.len() as u64 >= q.threshold as u64 {
        q.status = RequestStatus::Approved;
    }
    store.requests.insert(idx, q);
    store.audit_log.push(
        MultiSigAuditEntry {
            request_id,
            actor: signer,
            action: AuditAction::Signed,
            timestamp: now,
        },
    );
    proof {
        let q0 = pre[idx as int];
        let q1 = store.requests@[idx as int];
        assert(store.requests@ =~= pre.update(idx as int, q1));
        assert(q1.signed_by@ == q0.signed_by@.push(signer));
        assert forall|i: int| 0 <= i < store.requests@.len() implies wf_msrequest(
            #[trigger] store.requests@[i],
            i,
        ) by {
            assert(wf_msrequest(pre[i], i));
            if i == idx as int {
                assert(q1.signed_by@.no_duplicates()) by {
                    assert(forall|k: int|
                        0 <= k < q0.signed_by@.len() ==> q1.signed_by@[k] == q0.signed_by@[k]);
                }
                assert(forall|k: int|
                    0 <= k < q1.signed_by@.len() ==> q1.eligible_signers@.contains(
                        #[trigger] q1.signed_by@[k],
                    ));
            }
        }
    }
    Ok(())
}

/// Explicitly cancel a pending request. Only the proposer or an eligible
/// signer may reject; the request transitions to `Rejected` and one audit
/// entry is appended.
pub fn reject(store: &mut CertificateStore, request_id: u64, caller: u64, now: u64) -> (r: Result<
    (),
    CertificateError,
>)
    requires
        old(store).wf(),
    ensures
        final(store).wf(),
        request_id as int >= old(store).requests@.len() ==> r == Err::<(), CertificateError>(
            CertificateError::RequestNotFound,
        ) && *final(store) == *old(store),
        ({
            let inr = (request_id as int) < old(store).requests@.len();
            let q = old(store).requests@[request_id as int];
            let authorized = caller == q.proposer || q.eligible_signers@.contains(caller);
            &&& inr && q.status != RequestStatus::Pending ==> r == Err::<(), CertificateError>(
                CertificateError::RequestNotPending,
            ) && *final(store) == *old(store)
            &&& inr && q.status == RequestStatus::Pending && !authorized ==> r == Err::<
                (),
                CertificateError,
            >(CertificateError::NotAuthorizedSigner) && *final(store) == *old(store)
            &&& r is Ok <==> (inr && q.status == RequestStatus::Pending && authorized)
            &&& r is Ok ==> {
                &&& final(store).requests@ == old(store).requests@.update(
                    request_id as int,
                    status_set(q, RequestStatus::Rejected),
                )
                &&& final(store).audit_log@ == old(store).audit_log@.push(
                    MultiSigAuditEntry {
                        request_id,
                        actor: caller,
                        action: AuditAction::Rejected,
                        timestamp: now,
                    },
                )
            }
        }),
        final(store).certificates == old(store).certificates,
        final(store).user_certificates == old(store).user_certificates,
        final(store).instructor_certificates == old(store).instructor_certificates,
        final(store).metadata_history == old(store).metadata_history,
        final(store).prerequisites == old(store).prerequisites,
        final(store).overrides == old(store).overrides,
        final(store).notifications == old(store).notifications,
        final(store).renewal_requests == old(store).renewal_requests,
{
    if request_id >= store.requests.len() as u64 {
        return Err(CertificateError::RequestNotFound);
    }
    let idx = request_id as usize;
    if !matches!(store.requests[idx].status, RequestStatus::Pending) {
        return Err(CertificateError::RequestNotPending);
    }
    let authorized = caller == store.requests[idx].proposer || ids_contain(
        &store.requests[idx].eligible_signers,
        caller,
    );
    if !authorized {
        return Err(CertificateError::NotAuthorizedSigner);
    }
    let ghost pre = store.requests@;
    let mut q = store.requests.remove(idx);
    q.status = RequestStatus::Rejected;
    store.requests.insert(idx, q);
    store.audit_log.push(
        MultiSigAuditEntry {
            request_id,
            actor: caller,
            action: AuditAction::Rejected,
            timestamp: now,
        },
    );
    proof {
        assert(store.requests@ =~= pre.update(
            idx as int,
            status_set(pre[idx as int], RequestStatus::Rejected),
        ));
        assert forall|i: int| 0 <= i < store.requests@.len() implies wf_msrequest(
            #[trigger] store.requests@[i],
            i,
        ) by {
            assert(wf_msrequest(pre[i], i));
        }
    }
    Ok(())
}

/// Revoke a certificate in the store: the execution handler for the
/// `Revoke` operation. Terminal records are never mutated.
fn execute_revoke(store: &mut CertificateStore, certificate_id: u64) -> (r: Result<
    (),
    CertificateError,
>)
    requires
        old(store).wf(),
    ensures
        final(store).wf(),
        r is Err ==> *final(store) == *old(store),
        !old(store).certificates@.contains_key(certificate_id) ==> r == Err::<
            (),
            CertificateError,
        >(CertificateError::CertificateNotFound),
        old(store).certificates@.contains_key(certificate_id) && is_terminal(
            old(store).certificates@[certificate_id].status,
        ) ==> r == Err::<(), CertificateError>(CertificateError::CertificateNotActive),
        r is Ok <==> (old(store).certificates@.contains_key(certificate_id) && !is_terminal(
            old(store).certificates@[certificate_id].status,
        )),
        r is Ok ==> {
            &&& final(store).certificates@ == old(store).certificates@.insert(
                certificate_id,
                revoked_of(old(store).certificates@[certificate_id]),
            )
            &&& final(store).user_certificates == old(store).user_certificates
            &&& final(store).instructor_certificates == old(store).instructor_certificates
            &&& final(store).metadata_history == old(store).metadata_history
            &&& final(store).prerequisites == old(store).prerequisites
            &&& final(store).overrides == old(store).overrides
            &&& final(store).requests == old(store).requests
            &&& final(store).audit_log == old(store).audit_log
            &&& final(store).notifications == old(store).notifications
            &&& final(store).renewal_requests == old(store).renewal_requests
        },
{
    match store.certificates.get(&certificate_id) {
        Option::Some(rec) => {
            if matches!(rec.status, CertificateStatus::Revoked) || matches!(
                rec.status,
                CertificateStatus::Expired,
            ) {
                return Err(CertificateError::CertificateNotActive);
            }
        },
        Option::None => {
            return Err(CertificateError::CertificateNotFound);
        },
    }
    let ghost pre = *store;
    let rec = match store.certificates.remove(&certificate_id) {
        Option::Some(r) => r,
        Option::None => unreached(),
    };
    let newrec = CertificateMetadata { status: CertificateStatus::Revoked, ..rec };
    store.certificates.insert(certificate_id, newrec);
    proof {
        assert(store.certificates@ =~= pre.certificates@.insert(certificate_id, newrec));
        assert(newrec == revoked_of(pre.certificates@[certificate_id]));
        lemma_wf_record_update(pre, *store, certificate_id, newrec);
    }
    Ok(())
}

/// Override a certificate's metadata URI and append an audit entry to its
/// history: the execution handler for the `MetadataOverride` operation.
fn execute_metadata_override(
    store: &mut CertificateStore,
    certificate_id: u64,
    new_uri: &String,
    updater: u64,
    now: u64,
) -> (r: Result<(), CertificateError>)
    requires
        old(store).wf(),
    ensures
        final(store).wf(),
        r is Err ==> *final(store) == *old(store),
        !old(store).certificates@.contains_key(certificate_id) ==> r == Err::<
            (),
            CertificateError,
        >(CertificateError::CertificateNotFound),
        old(store).certificates@.contains_key(certificate_id) && is_terminal(
            old(store).certificates@[certificate_id].status,
        ) ==> r == Err::<(), CertificateError>(CertificateError::CertificateNotActive),
        r is Ok <==> (old(store).certificates@.contains_key(certificate_id) && !is_terminal(
            old(store).certificates@[certificate_id].status,
        )),
        r is Ok ==> {
            &&& final(store).certificates@ == old(store).certificates@.insert(
                certificate_id,
                uri_set(old(store).certificates@[certificate_id], *new_uri),
            )
            &&& final(store).metadata_history@.dom() == old(
                store,
            ).metadata_history@.dom().insert(certificate_id)
            &&& final(store).metadata_history@[certificate_id]@ == (if old(
                store,
            ).metadata_history@.contains_key(certificate_id) {
                old(store).metadata_history@[certificate_id]@
            } else {
                Seq::<MetadataUpdateEntry>::empty()
            }).push(
                MetadataUpdateEntry {
                    updater,
                    updated_at: now,
                    previous_uri: old(store).certificates@[certificate_id].metadata_uri,
                    new_uri: *new_uri,
                },
            )
            &&& forall|k: u64|
                k != certificate_id && #[trigger] old(store).metadata_history@.contains_key(k)
                    ==> final(store).metadata_history@[k] == old(store).metadata_history@[k]
            &&& final(store).user_certificates == old(store).user_certificates
            &&& final(store).instructor_certificates == old(store).instructor_certificates
            &&& final(store).prerequisites == old(store).prerequisites
            &&& final(store).overrides == old(store).overrides
            &&& final(store).requests == old(store).requests
            &&& final(store).audit_log == old(store).audit_log
            &&& final(store).notifications == old(store).notifications
            &&& final(store).renewal_requests == old(store).renewal_requests
        },
{
    match store.certificates.get(&certificate_id) {
        Option::Some(rec) => {
            if matches!(rec.status, CertificateStatus::Revoked) || matches!(
                rec.status,
                CertificateStatus::Expired,
            ) {
                return Err(CertificateError::CertificateNotActive);
            }
        },
        Option::None => {
            return Err(CertificateError::CertificateNotFound);
        },
    }
    let ghost pre = *store;
    let rec = match store.certificates.remove(&certificate_id) {
        Option::Some(r) => r,
        Option::None => unreached(),
    };
    let previous_uri = rec.metadata_uri.clone();
    let newrec = CertificateMetadata { metadata_uri: new_uri.clone(), ..rec };
    store.certificates.insert(certificate_id, newrec);
    let entry = MetadataUpdateEntry {
        updater,
        updated_at: now,
        previous_uri,
        new_uri: new_uri.clone(),
    };
    let mut hist = match store.metadata_history.remove(&certificate_id) {
        Option::Some(v) => v,
        Option::None => Vec::new(),
    };
    hist.push(entry);
    store.metadata_history.insert(certificate_id, hist);
    proof {
        assert(store.certificates@ =~= pre.certificates@.insert(certificate_id, newrec));
        assert(newrec == uri_set(pre.certificates@[certificate_id], *new_uri));
        lemma_wf_record_update(pre, *store, certificate_id, newrec);
        assert(store.metadata_history@.dom() =~= pre.metadata_history@.dom().insert(
            certificate_id,
        ));
    }
    Ok(())
}

/// Whether the operation a request binds can run against the current store.
pub open spec fn op_executable(s: CertificateStore, op: MultiSigOperation, now: u64) -> bool {
    match op {
        MultiSigOperation::Revoke { certificate_id } => s.certificates@.contains_key(certificate_id)
            && !is_terminal(s.certificates@[certificate_id].status),
        MultiSigOperation::MetadataOverride { certificate_id, .. } => s.certificates@.contains_key(
            certificate_id,
        ) && !is_terminal(s.certificates@[certificate_id].status),
        MultiSigOperation::BulkExpiry { certificate_ids } => certificate_ids@.len() <= MAX_BATCH,
        MultiSigOperation::LargeRenewal { certificate_id, new_expiry } => renewal_allowed(
            s.certificates@,
            certificate_id,
            new_expiry,
        ),
    }
}

/// The error the bound operation reports when it cannot run.
pub open spec fn op_error(s: CertificateStore, op: MultiSigOperation) -> CertificateError {
    match op {
        MultiSigOperation::Revoke { certificate_id } => if !s.certificates@.contains_key(
            certificate_id,
        ) {
            CertificateError::CertificateNotFound
        } else {
            CertificateError::CertificateNotActive
        },
        MultiSigOperation::MetadataOverride { certificate_id, .. } => if !s.certificates@.contains_key(
            certificate_id,
        ) {
            CertificateError::CertificateNotFound
        } else {
            CertificateError::CertificateNotActive
        },
        MultiSigOperation::BulkExpiry { .. } => CertificateError::BatchTooLarge,
        MultiSigOperation::LargeRenewal { certificate_id, .. } => if !s.certificates@.contains_key(
            certificate_id,
        ) {
            CertificateError::CertificateNotFound
        } else {
            CertificateError::InvalidRenewal
        },
    }
}

/// The certificate table after the bound operation runs.
pub open spec fn op_effect_certs(
    s: CertificateStore,
    op: MultiSigOperation,
    now: u64,
) -> Map<u64, CertificateMetadata> {
    match op {
        MultiSigOperation::Revoke { certificate_id } => s.certificates@.insert(
            certificate_id,
            revoked_of(s.certificates@[certificate_id]),
        ),
        MultiSigOperation::MetadataOverride { certificate_id, new_uri } => s.certificates@.insert(
            certificate_id,
            uri_set(s.certificates@[certificate_id], new_uri),
        ),
        MultiSigOperation::BulkExpiry { certificate_ids } => sweep_certs(
            s.certificates@,
            certificate_ids@,
            now,
        ),
        MultiSigOperation::LargeRenewal { certificate_id, new_expiry } => s.certificates@.insert(
            certificate_id,
            renewed_of(s.certificates@[certificate_id], new_expiry, now),
        ),
    }
}

/// Run an approved request exactly once. Execution and the transition to
/// `Executed` form one atomic unit: if the bound operation cannot run, the
/// request stays `Approved` and the store is untouched. A request that was
/// already executed fails with `AlreadyExecuted` and has no further effect.
pub fn execute(store: &mut CertificateStore, request_id: u64, executor: u64, now: u64) -> (r:
    Result<(), CertificateError>)
    requires
        old(store).wf(),
    ensures
        final(store).wf(),
        request_id as int >= old(store).requests@.len() ==> r == Err::<(), CertificateError>(
            CertificateError::RequestNotFound,
        ),
        ({
            let inr = (request_id as int) < old(store).requests@.len();
            let q = old(store).requests@[request_id as int];
            &&& inr && q.status == RequestStatus::Executed ==> r == Err::<(), CertificateError>(
                CertificateError::AlreadyExecuted,
            )
            &&& inr && q.status == RequestStatus::Pending ==> r == Err::<(), CertificateError>(
                CertificateError::InsufficientSignatures,
            )
            &&& inr && (q.status == RequestStatus::Rejected || q.status == RequestStatus::Expired)
                ==> r == Err::<(), CertificateError>(CertificateError::RequestNotPending)
            &&& inr && q.status == RequestStatus::Approved && now > q.deadline ==> r == Err::<
                (),
                CertificateError,
            >(CertificateError::RequestExpired)
            &&& inr && q.status == RequestStatus::Approved && now <= q.deadline && !op_executable(
                *old(store),
                q.operation,
                now,
            ) ==> r == Err::<(), CertificateError>(op_error(*old(store), q.operation))
            &&& r is Ok <==> (inr && q.status == RequestStatus::Approved && now <= q.deadline
                && op_executable(*old(store), q.operation, now))
            &&& r is Ok ==> {
                &&& final(store).certificates@ == op_effect_certs(*old(store), q.operation, now)
                &&& final(store).requests@.len() == old(store).requests@.len()
                &&& forall|i: int|
                    0 <= i < old(store).requests@.len() && i != request_id as int
                        ==> final(store).requests@[i] == old(store).requests@[i]
                &&& final(store).requests@[request_id as int] == status_set(
                    q,
                    RequestStatus::Executed,
                )
                &&& final(store).audit_log@ == old(store).audit_log@.push(
                    MultiSigAuditEntry {
                        request_id,
                        actor: executor,
                        action: AuditAction::Executed,
                        timestamp: now,
                    },
                )
                &&& (q.operation is BulkExpiry ==> final(store).notifications@ == sweep_notifs(
                    old(store).certificates@,
                    old(store).notifications@,
                    q.operation->BulkExpiry_certificate_ids@,
                    now,
                ))
                &&& (!(q.operation is BulkExpiry) ==> final(store).notifications == old(
                    store,
                ).notifications)
                &&& (!(q.operation is MetadataOverride) ==> final(store).metadata_history == old(
                    store,
                ).metadata_history)
                &&& final(store).user_certificates == old(store).user_certificates
                &&& final(store).instructor_certificates == old(store).instructor_certificates
                &&& final(store).prerequisites == old(store).prerequisites
                &&& final(store).overrides == old(store).overrides
                &&& final(store).renewal_requests == old(store).renewal_requests
            }
        }),
        r is Err ==> {
            &&& final(store).requests@ == old(store).requests@
            &&& final(store).certificates == old(store).certificates
            &&& final(store).audit_log == old(store).audit_log
            &&& final(store).notifications == old(store).notifications
            &&& final(store).metadata_history == old(store).metadata_history
            &&& final(store).user_certificates == old(store).user_certificates
            &&& final(store).instructor_certificates == old(store).instructor_certificates
            &&& final(store).prerequisites == old(store).prerequisites
            &&& final(store).overrides == old(store).overrides
            &&& final(store).renewal_requests == old(store).renewal_requests
        },
{
    if request_id >= store.requests.len() as u64 {
        return Err(CertificateError::RequestNotFound);
    }
    let idx = request_id as usize;
    match store.requests[idx].status {
        RequestStatus::Executed => {
            return Err(CertificateError::AlreadyExecuted);
        },
        RequestStatus::Pending => {
            return Err(CertificateError::InsufficientSignatures);
        },
        RequestStatus::Rejected => {
            return Err(CertificateError::RequestNotPending);
        },
        RequestStatus::Expired => {
            return Err(CertificateError::RequestNotPending);
        },
        RequestStatus::Approved => {},
    }
    if now > store.requests[idx].deadline {
        return Err(CertificateError::RequestExpired);
    }
    let ghost pre = store.requests@;
    let outcome: Result<(), CertificateError> = match &store.requests[idx].operation {
        MultiSigOperation::Revoke { certificate_id } => {
            let cid = *certificate_id;
            execute_revoke(store, cid)
        },
        MultiSigOperation::MetadataOverride { certificate_id, new_uri } => {
            let cid = *certificate_id;
            let uri = new_uri.clone();
            execute_metadata_override(store, cid, &uri, executor, now)
        },
        MultiSigOperation::BulkExpiry { certificate_ids } => {
            let ids = copy_ids(certificate_ids);
            match scan_and_expire(store, &ids, now) {
                Ok(_) => Ok(()),
                Err(e) => Err(e),
            }
        },
        MultiSigOperation::LargeRenewal { certificate_id, new_expiry } => {
            let cid = *certificate_id;
            let ne = *new_expiry;
            apply_renewal(store, cid, ne, now)
        },
    };
    match outcome {
        Ok(_) => {
            let mut q2 = store.requests.remove(idx);
            q2.status = RequestStatus::Executed;
            store.requests.insert(idx, q2);
            store.audit_log.push(
                MultiSigAuditEntry {
                    request_id,
                    actor: executor,
                    action: AuditAction::Executed,
                    timestamp: now,
                },
            );
            proof {
                assert(store.requests@ =~= pre.update(
                    idx as int,
                    status_set(pre[idx as int], RequestStatus::Executed),
                ));
                assert forall|i: int| 0 <= i < store.requests@.len() implies wf_msrequest(
                    #[trigger] store.requests@[i],
                    i,
                ) by {
                    assert(wf_msrequest(pre[i], i));
                }
            }
            Ok(())
        },
        Err(e) => Err(e),
    }
}

/// Whether a request is overdue: still pending with its deadline passed.
pub open spec fn request_overdue(q: MultiSigCertificateRequest, now: u64) -> bool {
    q.status == RequestStatus::Pending && now > q.deadline
}

/// The audit entries one housekeeping sweep appends: one `Expired` entry per
/// overdue request, in request order.
pub open spec fn expire_entries(
    reqs: Seq<MultiSigCertificateRequest>,
    caller: u64,
    now: u64,
) -> Seq<MultiSigAuditEntry>
    decreases reqs.len(),
{
    if reqs.len() == 0 {
        Seq::empty()
    } else {
        expire_entries(reqs.drop_last(), caller, now) + (if request_overdue(reqs.last(), now) {
            seq![
                MultiSigAuditEntry {
                    request_id: reqs.last().id,
                    actor: caller,
                    action: AuditAction::Expired,
                    timestamp: now,
                },
            ]
        } else {
            Seq::empty()
        })
    }
}

/// Housekeeping sweep: mark every pending request whose deadline has passed
/// as `Expired`, appending one audit entry each. Idempotent, and callable by
/// anyone.
pub fn expire_stale(store: &mut CertificateStore, caller: u64, now: u64)
    requires
        old(store).wf(),
    ensures
        final(store).wf(),
        final(store).requests@.len() == old(store).requests@.len(),
        forall|i: int|
            0 <= i < old(store).requests@.len() ==> final(store).requests@[i] == (if request_overdue(
                old(store).requests@[i],
                now,
            ) {
                status_set(old(store).requests@[i], RequestStatus::Expired)
            } else {
                old(store).requests@[i]
            }),
        final(store).audit_log@ == old(store).audit_log@ + expire_entries(
            old(store).requests@,
            caller,
            now,
        ),
        final(store).certificates == old(store).certificates,
        final(store).user_certificates == old(store).user_certificates,
        final(store).instructor_certificates == old(store).instructor_certificates,
        final(store).metadata_history == old(store).metadata_history,
        final(store).prerequisites == old(store).prerequisites,
        final(store).overrides == old(store).overrides,
        final(store).notifications == old(store).notifications,
        final(store).renewal_requests == old(store).renewal_requests,
{
    let ghost reqs0 = store.requests@;
    let ghost audit0 = store.audit_log@;
    let mut i: usize = 0;
    while i < store.requests.len()
        invariant
            store.wf(),
            i <= store.requests@.len(),
            store.requests@.len() == reqs0.len(),
            forall|j: int|
                0 <= j < i ==> store.requests@[j] == (if request_overdue(reqs0[j], now) {
                    status_set(reqs0[j], RequestStatus::Expired)
                } else {
                    reqs0[j]
                }),
            forall|j: int| i <= j < reqs0.len() ==> store.requests@[j] == reqs0[j],
            store.audit_log@ == audit0 + expire_entries(reqs0.take(i as int), caller, now),
            store.certificates == old(store).certificates,
            store.user_certificates == old(store).user_certificates,
            store.instructor_certificates == old(store).instructor_certificates,
            store.metadata_history == old(store).metadata_history,
            store.prerequisites == old(store).prerequisites,
            store.overrides == old(store).overrides,
            store.notifications == old(store).notifications,
            store.renewal_requests == old(store).renewal_requests,
        decreases store.requests@.len() - i,
    {
        proof {
            assert(reqs0.take(i + 1).drop_last() =~= reqs0.take(i as int));
            assert(reqs0.take(i + 1).last() == reqs0[i as int]);
        }
        let overdue = matches!(store.requests[i].status, RequestStatus::Pending) && now
            > store.requests[i].deadline;
        if overdue {
            let ghost cur = store.requests@;
            let mut q = store.requests.remove(i);
            let qid = q.id;
            q.status = RequestStatus::Expired;
            store.requests.insert(i, q);
            store.audit_log.push(
                MultiSigAuditEntry {
                    request_id: qid,
                    actor: caller,
                    action: AuditAction::Expired,
                    timestamp: now,
                },
            );
            proof {
                assert(store.requests@ =~= cur.update(
                    i as int,
                    status_set(cur[i as int], RequestStatus::Expired),
                ));
                assert(store.audit_log@ =~= audit0 + expire_entries(
                    reqs0.take(i + 1),
                    caller,
                    now,
                ));
                assert forall|k: int| 0 <= k < store.requests@.len() implies wf_msrequest(
                    #[trigger] store.requests@[k],
                    k,
                ) by {
                    assert(wf_msrequest(cur[k], k));
                }
            }
        } else {
            proof {
                assert(store.audit_log@ =~= audit0 + expire_entries(
                    reqs0.take(i + 1),
                    caller,
                    now,
                ));
            }
        }
        i = i + 1;
    }
    proof {
        assert(reqs0.take(reqs0.len() as int) == reqs0);
    }
}

/// An executed or approved request always carries a quorum: at least its
/// frozen threshold of distinct signatures, every one from the frozen
/// eligible-signer set. This holds of every request in a well-formed store.
pub proof fn lemma_executed_has_quorum(store: CertificateStore, i: int)
    requires
        store.wf(),
        0 <= i < store.requests@.len(),
        store.requests@[i].status == RequestStatus::Approved || store.requests@[i].status
            == RequestStatus::Executed,
    ensures
        store.requests@[i].signed_by@.len() >= store.requests@[i].threshold,
        store.requests@[i].signed_by@.no_duplicates(),
        forall|k: int|
            0 <= k < store.requests@[i].signed_by@.len()
                ==> store.requests@[i].eligible_signers@.contains(
                #[trigger] store.requests@[i].signed_by@[k],
            ),
{
    assert(wf_msrequest(store.requests@[i], i));
}

} // verus!
