use vstd::prelude::*;

use crate::errors::CertificateError;
use crate::store::{CertificateStore, lemma_wf_record_update};
use crate::types::{
    BulkExpiryOperation, CertificateMetadata, CertificateStatus, ExpiryNotification,
    MultiSigConfig, MultiSigOperation, RenewalOutcome, RenewalRequest, RenewalStatus,
};

verus! {

/// Cap on how many certificates one sweep may touch.
pub const MAX_BATCH: usize = 256;

/// Whether the certificate `id` is due to expire at `now`: it exists, is
/// still active, and its expiry lies strictly in the past.
pub open spec fn cert_due(certs: Map<u64, CertificateMetadata>, id: u64, now: u64) -> bool {
    certs.contains_key(id) && certs[id].status == CertificateStatus::Active && now
        > certs[id].expiry_date
}

/// The record with its status replaced by `Expired`; all other fields kept.
pub open spec fn expired_of(r: CertificateMetadata) -> CertificateMetadata {
    CertificateMetadata { status: CertificateStatus::Expired, ..r }
}

/// The certificate table after one sweep of `batch` at `now`, processed left
/// to right: every due certificate transitions to `Expired`; everything else
/// is untouched.
pub open spec fn sweep_certs(
    certs: Map<u64, CertificateMetadata>,
    batch: Seq<u64>,
    now: u64,
) -> Map<u64, CertificateMetadata>
    decreases batch.len(),
{
    if batch.len() == 0 {
        certs
    } else {
        let id = batch[0];
        let stepped = if cert_due(certs, id, now) {
            certs.insert(id, expired_of(certs[id]))
        } else {
            certs
        };
        sweep_certs(stepped, batch.drop_first(), now)
    }
}

/// The notification table after one sweep: each newly expired certificate
/// gets an undelivered notification stamped `now`.
pub open spec fn sweep_notifs(
    certs: Map<u64, CertificateMetadata>,
    notifs: Map<u64, ExpiryNotification>,
    batch: Seq<u64>,
    now: u64,
) -> Map<u64, ExpiryNotification>
    decreases batch.len(),
{
    if batch.len() == 0 {
        notifs
    } else {
        let id = batch[0];
        let stepped_certs = if cert_due(certs, id, now) {
            certs.insert(id, expired_of(certs[id]))
        } else {
            certs
        };
        let stepped_notifs = if cert_due(certs, id, now) {
            notifs.insert(
                id,
                ExpiryNotification { certificate_id: id, scheduled_at: now, delivered: false },
            )
        } else {
            notifs
        };
        sweep_notifs(stepped_certs, stepped_notifs, batch.drop_first(), now)
    }
}

/// How many certificates one sweep of `batch` at `now` newly expires.
pub open spec fn sweep_expired_count(
    certs: Map<u64, CertificateMetadata>,
    batch: Seq<u64>,
    now: u64,
) -> nat
    decreases batch.len(),
{
    if batch.len() == 0 {
        0
    } else {
        let id = batch[0];
        let stepped = if cert_due(certs, id, now) {
            certs.insert(id, expired_of(certs[id]))
        } else {
            certs
        };
        (if cert_due(certs, id, now) {
            1nat
        } else {
            0nat
        }) + sweep_expired_count(stepped, batch.drop_first(), now)
    }
}

/// Whether a sweep step counts `id` as already terminal: the record exists
/// but is not active (revoked, expired, or transferred).
pub open spec fn cert_skip_terminal(certs: Map<u64, CertificateMetadata>, id: u64) -> bool {
    certs.contains_key(id) && certs[id].status != CertificateStatus::Active
}

/// How many batch entries one sweep skips as already terminal.
pub open spec fn sweep_terminal_count(
    certs: Map<u64, CertificateMetadata>,
    batch: Seq<u64>,
    now: u64,
) -> nat
    decreases batch.len(),
{
    if batch.len() == 0 {
        0
    } else {
        let id = batch[0];
        let stepped = if cert_due(certs, id, now) {
            certs.insert(id, expired_of(certs[id]))
        } else {
            certs
        };
        (if cert_skip_terminal(certs, id) {
            1nat
        } else {
            0nat
        }) + sweep_terminal_count(stepped, batch.drop_first(), now)
    }
}

/// How many batch entries one sweep skips as not due: missing records, and
/// active records whose expiry has not passed.
pub open spec fn sweep_not_due_count(
    certs: Map<u64, CertificateMetadata>,
    batch: Seq<u64>,
    now: u64,
) -> nat
    decreases batch.len(),
{
    if batch.len() == 0 {
        0
    } else {
        let id = batch[0];
        let stepped = if cert_due(certs, id, now) {
            certs.insert(id, expired_of(certs[id]))
        } else {
            certs
        };
        (if !cert_due(certs, id, now) && !cert_skip_terminal(certs, id) {
            1nat
        } else {
            0nat
        }) + sweep_not_due_count(stepped, batch.drop_first(), now)
    }
}

/// Unfolding a sweep at its right end: sweeping `batch.push(x)` is sweeping
/// `batch` and then processing `x` against the swept state.
pub proof fn lemma_sweep_snoc(
    certs: Map<u64, CertificateMetadata>,
    notifs: Map<u64, ExpiryNotification>,
    batch: Seq<u64>,
    x: u64,
    now: u64,
)
    ensures
        sweep_certs(certs, batch.push(x), now) == (if cert_due(sweep_certs(certs, batch, now), x, now) {
            sweep_certs(certs, batch, now).insert(x, expired_of(sweep_certs(certs, batch, now)[x]))
        } else {
            sweep_certs(certs, batch, now)
        }),
        sweep_notifs(certs, notifs, batch.push(x), now) == (if cert_due(
            sweep_certs(certs, batch, now),
            x,
            now,
        ) {
            sweep_notifs(certs, notifs, batch, now).insert(
                x,
                ExpiryNotification { certificate_id: x, scheduled_at: now, delivered: false },
            )
        } else {
            sweep_notifs(certs, notifs, batch, now)
        }),
        sweep_expired_count(certs, batch.push(x), now) == sweep_expired_count(certs, batch, now) + (
        if cert_due(sweep_certs(certs, batch, now), x, now) {
            1nat
        } else {
            0nat
        }),
        sweep_terminal_count(certs, batch.push(x), now) == sweep_terminal_count(certs, batch, now)
            + (if cert_skip_terminal(sweep_certs(certs, batch, now), x) {
            1nat
        } else {
            0nat
        }),
        sweep_not_due_count(certs, batch.push(x), now) == sweep_not_due_count(certs, batch, now) + (
        if !cert_due(sweep_certs(certs, batch, now), x, now) && !cert_skip_terminal(
            sweep_certs(certs, batch, now),
            x,
        ) {
            1nat
        } else {
            0nat
        }),
    decreases batch.len(),
{
    if batch.len() == 0 {
        assert(batch.push(x)[0] == x);
        assert(batch.push(x).drop_first() =~= Seq::<u64>::empty());
        let stepped = if cert_due(certs, x, now) {
            certs.insert(x, expired_of(certs[x]))
        } else {
            certs
        };
        let stepped_notifs = if cert_due(certs, x, now) {
            notifs.insert(
                x,
                ExpiryNotification { certificate_id: x, scheduled_at: now, delivered: false },
            )
        } else {
            notifs
        };
        assert(sweep_certs(certs, batch, now) == certs);
        assert(sweep_notifs(certs, notifs, batch, now) == notifs);
        assert(sweep_certs(certs, batch.push(x), now) == sweep_certs(
            stepped,
            batch.push(x).drop_first(),
            now,
        ));
        assert(sweep_certs(stepped, batch.push(x).drop_first(), now) == stepped);
        assert(sweep_notifs(certs, notifs, batch.push(x), now) == sweep_notifs(
            stepped,
            stepped_notifs,
            batch.push(x).drop_first(),
            now,
        ));
        assert(sweep_notifs(stepped, stepped_notifs, batch.push(x).drop_first(), now)
            == stepped_notifs);
        assert(sweep_expired_count(certs, batch.push(x), now) == (if cert_due(certs, x, now) {
            1nat
        } else {
            0nat
        }) + sweep_expired_count(stepped, batch.push(x).drop_first(), now));
        assert(sweep_expired_count(stepped, batch.push(x).drop_first(), now) == 0);
        assert(sweep_terminal_count(certs, batch.push(x), now) == (if cert_skip_terminal(certs, x) {
            1nat
        } else {
            0nat
        }) + sweep_terminal_count(stepped, batch.push(x).drop_first(), now));
        assert(sweep_terminal_count(stepped, batch.push(x).drop_first(), now) == 0);
        assert(sweep_not_due_count(certs, batch.push(x), now) == (if !cert_due(certs, x, now)
            && !cert_skip_terminal(certs, x) {
            1nat
        } else {
            0nat
        }) + sweep_not_due_count(stepped, batch.push(x).drop_first(), now));
        assert(sweep_not_due_count(stepped, batch.push(x).drop_first(), now) == 0);
    } else {
        let id = batch[0];
        let stepped = if cert_due(certs, id, now) {
            certs.insert(id, expired_of(certs[id]))
        } else {
            certs
        };
        let stepped_notifs = if cert_due(certs, id, now) {
            notifs.insert(
                id,
                ExpiryNotification { certificate_id: id, scheduled_at: now, delivered: false },
            )
        } else {
            notifs
        };
        assert(batch.push(x)[0] == id);
        assert(batch.push(x).drop_first() =~= batch.drop_first().push(x));
        lemma_sweep_snoc(stepped, stepped_notifs, batch.drop_first(), x, now);
        assert(sweep_certs(certs, batch.push(x), now) == sweep_certs(
            stepped,
            batch.drop_first().push(x),
            now,
        ));
        assert(sweep_certs(certs, batch, now) == sweep_certs(stepped, batch.drop_first(), now));
        assert(sweep_notifs(certs, notifs, batch.push(x), now) == sweep_notifs(
            stepped,
            stepped_notifs,
            batch.drop_first().push(x),
            now,
        ));
        assert(sweep_notifs(certs, notifs, batch, now) == sweep_notifs(
            stepped,
            stepped_notifs,
            batch.drop_first(),
            now,
        ));
        assert(sweep_expired_count(certs, batch.push(x), now) == (if cert_due(certs, id, now) {
            1nat
        } else {
            0nat
        }) + sweep_expired_count(stepped, batch.drop_first().push(x), now));
        assert(sweep_expired_count(certs, batch, now) == (if cert_due(certs, id, now) {
            1nat
        } else {
            0nat
        }) + sweep_expired_count(stepped, batch.drop_first(), now));
        assert(sweep_terminal_count(certs, batch.push(x), now) == (if cert_skip_terminal(
            certs,
            id,
        ) {
            1nat
        } else {
            0nat
        }) + sweep_terminal_count(stepped, batch.drop_first().push(x), now));
        assert(sweep_terminal_count(certs, batch, now) == (if cert_skip_terminal(certs, id) {
            1nat
        } else {
            0nat
        }) + sweep_terminal_count(stepped, batch.drop_first(), now));
        assert(sweep_not_due_count(certs, batch.push(x), now) == (if !cert_due(certs, id, now)
            && !cert_skip_terminal(certs, id) {
            1nat
        } else {
            0nat
        }) + sweep_not_due_count(stepped, batch.drop_first().push(x), now));
        assert(sweep_not_due_count(certs, batch, now) == (if !cert_due(certs, id, now)
            && !cert_skip_terminal(certs, id) {
            1nat
        } else {
            0nat
        }) + sweep_not_due_count(stepped, batch.drop_first(), now));
    }
}

/// After a sweep, a certificate can only be due if it was due before and the
/// batch never touched it.
pub proof fn lemma_sweep_leaves_nothing_due(
    certs: Map<u64, CertificateMetadata>,
    batch: Seq<u64>,
    now: u64,
    id: u64,
)
    requires
        cert_due(sweep_certs(certs, batch, now), id, now),
    ensures
        cert_due(certs, id, now),
        !batch.contains(id),
    decreases batch.len(),
{
    if batch.len() == 0 {
    } else {
        let hd = batch[0];
        let stepped = if cert_due(certs, hd, now) {
            certs.insert(hd, expired_of(certs[hd]))
        } else {
            certs
        };
        lemma_sweep_leaves_nothing_due(stepped, batch.drop_first(), now, id);
        assert(cert_due(stepped, id, now));
        assert(id != hd) by {
            if id == hd {
                assert(!cert_due(stepped, hd, now));
            }
        }
        assert(cert_due(certs, id, now));
        assert(!batch.contains(id)) by {
            if batch.contains(id) {
                let k = choose|k: int| 0 <= k < batch.len() && batch[k] == id;
                assert(k > 0);
                assert(batch.drop_first()[k - 1] == id);
                assert(batch.drop_first().contains(id));
            }
        }
    }
}

/// A sweep over a batch none of whose members is due expires nothing and
/// changes nothing.
pub proof fn lemma_sweep_no_due_is_noop(
    certs: Map<u64, CertificateMetadata>,
    batch: Seq<u64>,
    now: u64,
)
    requires
        forall|k: int| 0 <= k < batch.len() ==> !cert_due(certs, #[trigger] batch[k], now),
    ensures
        sweep_expired_count(certs, batch, now) == 0,
        sweep_certs(certs, batch, now) == certs,
    decreases batch.len(),
{
    if batch.len() == 0 {
    } else {
        assert(!cert_due(certs, batch[0], now));
        assert forall|k: int| 0 <= k < batch.drop_first().len() implies !cert_due(
            certs,
            #[trigger] batch.drop_first()[k],
            now,
        ) by {
            assert(batch.drop_first()[k] == batch[k + 1]);
        }
        lemma_sweep_no_due_is_noop(certs, batch.drop_first(), now);
    }
}

/// One bounded expiry sweep. Every certificate of `batch` that is active and
/// past its expiry at `now` transitions to `Expired` and gets an undelivered
/// notification; records that are missing, not yet due, or no longer active
/// are counted and left untouched. Re-running the sweep with time unchanged
/// expires nothing further. A batch over the work cap is rejected whole.
pub fn scan_and_expire(store: &mut CertificateStore, batch: &Vec<u64>, now: u64) -> (r: Result<
    BulkExpiryOperation,
    CertificateError,
>)
    requires
        old(store).wf(),
    ensures
        final(store).wf(),
        r is Err <==> batch@.len() > MAX_BATCH,
        r is Err ==> *final(store) == *old(store) && r == Err::<
            BulkExpiryOperation,
            CertificateError,
        >(CertificateError::BatchTooLarge),
        r is Ok ==> {
            &&& final(store).certificates@ == sweep_certs(old(store).certificates@, batch@, now)
            &&& final(store).notifications@ == sweep_notifs(
                old(store).certificates@,
                old(store).notifications@,
                batch@,
                now,
            )
            &&& r->Ok_0.expired as nat == sweep_expired_count(old(store).certificates@, batch@, now)
            &&& r->Ok_0.skipped_terminal as nat == sweep_terminal_count(
                old(store).certificates@,
                batch@,
                now,
            )
            &&& r->Ok_0.skipped_not_due as nat == sweep_not_due_count(
                old(store).certificates@,
                batch@,
                now,
            )
            &&& final(store).user_certificates == old(store).user_certificates
            &&& final(store).instructor_certificates == old(store).instructor_certificates
            &&& final(store).metadata_history == old(store).metadata_history
            &&& final(store).prerequisites == old(store).prerequisites
            &&& final(store).overrides == old(store).overrides
            &&& final(store).requests == old(store).requests
            &&& final(store).audit_log == old(store).audit_log
            &&& final(store).renewal_requests == old(store).renewal_requests
        },
{
    if batch.len() > MAX_BATCH {
        return Err(CertificateError::BatchTooLarge);
    }
    let ghost certs0 = store.certificates@;
    let ghost notifs0 = store.notifications@;
    let mut expired: u64 = 0;
    let mut skipped_terminal: u64 = 0;
    let mut skipped_not_due: u64 = 0;
    let mut i: usize = 0;
    while i < batch.len()
        invariant
            store.wf(),
            i <= batch@.len(),
            batch@.len() <= MAX_BATCH,
            expired <= i && skipped_terminal <= i && skipped_not_due <= i,
            store.certificates@ == sweep_certs(certs0, batch@.take(i as int), now),
            store.notifications@ == sweep_notifs(certs0, notifs0, batch@.take(i as int), now),
            expired as nat == sweep_expired_count(certs0, batch@.take(i as int), now),
            skipped_terminal as nat == sweep_terminal_count(certs0, batch@.take(i as int), now),
            skipped_not_due as nat == sweep_not_due_count(certs0, batch@.take(i as int), now),
            store.user_certificates == old(store).user_certificates,
            store.instructor_certificates == old(store).instructor_certificates,
            store.metadata_history == old(store).metadata_history,
            store.prerequisites == old(store).prerequisites,
            store.overrides == old(store).overrides,
            store.requests == old(store).requests,
            store.audit_log == old(store).audit_log,
            store.renewal_requests == old(store).renewal_requests,
        decreases batch@.len() - i,
    {
        let id = batch[i];
        proof {
            lemma_sweep_snoc(certs0, notifs0, batch@.take(i as int), id, now);
            assert(batch@.take(i + 1) == batch@.take(i as int).push(batch@[i as int]));
        }
        let mut do_expire = false;
        let mut terminal = false;
        match store.certificates.get(&id) {
            Option::Some(rec) => {
                if matches!(rec.status, CertificateStatus::Active) {
                    if now > rec.expiry_date {
                        do_expire = true;
                    }
                } else {
                    terminal = true;
                }
            },
            Option::None => {},
        }
        if do_expire {
            let ghost pre = *store;
            let rec = match store.certificates.remove(&id) {
                Option::Some(r) => r,
                Option::None => unreached(),
            };
            let newrec = CertificateMetadata { status: CertificateStatus::Expired, ..rec };
            store.certificates.insert(id, newrec);
            store.notifications.insert(
                id,
                ExpiryNotification { certificate_id: id, scheduled_at: now, delivered: false },
            );
            expired = expired + 1;
            proof {
                assert(store.certificates@ =~= pre.certificates@.insert(id, newrec));
                assert(newrec == expired_of(pre.certificates@[id]));
                lemma_wf_record_update(pre, *store, id, newrec);
                assert(store.wf_notifications()) by {
                    assert forall|k: u64| #[trigger] store.notifications@.contains_key(k)
                        implies store.notifications@[k].certificate_id == k by {
                        if k != id {
                            assert(pre.notifications@.contains_key(k));
                        }
                    }
                }
            }
        } else if terminal {
            skipped_terminal = skipped_terminal + 1;
        } else {
            skipped_not_due = skipped_not_due + 1;
        }
        i = i + 1;
    }
    proof {
        assert(batch@.take(batch@.len() as int) == batch@);
    }
    Ok(BulkExpiryOperation { expired, skipped_terminal, skipped_not_due })
}

/// The record after a renewal to `new_expiry` at `now`: the expiry moves
/// forward, the renewal count rises by exactly one, the last-renewal stamp is
/// set, and every other field — the original expiry above all — is kept.
pub open spec fn renewed_of(r: CertificateMetadata, new_expiry: u64, now: u64) -> CertificateMetadata {
    CertificateMetadata {
        expiry_date: new_expiry,
        renewal_count: (r.renewal_count + 1) as u64,
        last_renewed_date: now,
        ..r
    }
}

/// Whether a renewal of `id` to `new_expiry` is admissible: the certificate
/// exists, is active, the new expiry strictly extends the current one, and
/// the renewal counter has room.
pub open spec fn renewal_allowed(
    certs: Map<u64, CertificateMetadata>,
    id: u64,
    new_expiry: u64,
) -> bool {
    &&& certs.contains_key(id)
    &&& certs[id].status == CertificateStatus::Active
    &&& new_expiry > certs[id].expiry_date
    &&& certs[id].renewal_count < u64::MAX
}

/// Apply a renewal: set `expiry_date = new_expiry`, increment
/// `renewal_count` by exactly one, stamp `last_renewed_date = now`. The
/// expiry never decreases and `original_expiry_date` is never touched.
pub fn apply_renewal(store: &mut CertificateStore, certificate_id: u64, new_expiry: u64, now: u64) -> (r:
    Result<(), CertificateError>)
    requires
        old(store).wf(),
    ensures
        final(store).wf(),
        r is Err ==> *final(store) == *old(store),
        !old(store).certificates@.contains_key(certificate_id) ==> r == Err::<
            (),
            CertificateError,
        >(CertificateError::CertificateNotFound),
        old(store).certificates@.contains_key(certificate_id) && !renewal_allowed(
            old(store).certificates@,
            certificate_id,
            new_expiry,
        ) ==> r == Err::<(), CertificateError>(CertificateError::InvalidRenewal),
        r is Ok <==> renewal_allowed(old(store).certificates@, certificate_id, new_expiry),
        r is Ok ==> {
            &&& final(store).certificates@ == old(store).certificates@.insert(
                certificate_id,
                renewed_of(old(store).certificates@[certificate_id], new_expiry, now),
            )
            &&& final(store).certificates@[certificate_id].expiry_date >= old(
                store,
            ).certificates@[certificate_id].expiry_date
            &&& final(store).certificates@[certificate_id].original_expiry_date == old(
                store,
            ).certificates@[certificate_id].original_expiry_date
            &&& final(store).certificates@[certificate_id].renewal_count == old(
                store,
            ).certificates@[certificate_id].renewal_count + 1
            &&& final(store).user_certificates == old(store).user_certificates
            &&& final(store).instructor_certificates == old(store).instructor_certificates
            &&& final(store).metadata_history == old(store).metadata_history
            &&& final(store).prerequisites == old(store).prerequisites
            &&& final(store).overrides == old(store).overrides
            &&& final(store).requests == old(store).requests
            &&& final(store).audit_log == old(store).audit_log
            &&& final(store).notifications == old(store).notifications
            &&& final(store).renewal_requests == old(store).renewal_requests
        },
{
    let allowed = match store.certificates.get(&certificate_id) {
        Option::Some(rec) => {
            if !matches!(rec.status, CertificateStatus::Active) {
                return Err(CertificateError::InvalidRenewal);
            }
            if new_expiry <= rec.expiry_date {
                return Err(CertificateError::InvalidRenewal);
            }
            if rec.renewal_count == u64::MAX {
                return Err(CertificateError::InvalidRenewal);
            }
            true
        },
        Option::None => {
            return Err(CertificateError::CertificateNotFound);
        },
    };
    let ghost pre = *store;
    let rec = match store.certificates.remove(&certificate_id) {
        Option::Some(r) => r,
        Option::None => unreached(),
    };
    let newrec = CertificateMetadata {
        expiry_date: new_expiry,
        renewal_count: rec.renewal_count + 1,
        last_renewed_date: now,
        ..rec
    };
    store.certificates.insert(certificate_id, newrec);
    proof {
        assert(store.certificates@ =~= pre.certificates@.insert(certificate_id, newrec));
        assert(newrec == renewed_of(pre.certificates@[certificate_id], new_expiry, now));
        lemma_wf_record_update(pre, *store, certificate_id, newrec);
    }
    Ok(())
}

/// Mark the notification for `certificate_id` delivered. Idempotent: a
/// second delivery, or a delivery with nothing scheduled, changes nothing.
pub fn deliver_notification(store: &mut CertificateStore, certificate_id: u64)
    requires
        old(store).wf(),
    ensures
        final(store).wf(),
        final(store).notifications@ == (if old(store).notifications@.contains_key(certificate_id) {
            old(store).notifications@.insert(
                certificate_id,
                ExpiryNotification {
                    delivered: true,
                    ..old(store).notifications@[certificate_id]
                },
            )
        } else {
            old(store).notifications@
        }),
        final(store).certificates == old(store).certificates,
        final(store).user_certificates == old(store).user_certificates,
        final(store).instructor_certificates == old(store).instructor_certificates,
        final(store).metadata_history == old(store).metadata_history,
        final(store).prerequisites == old(store).prerequisites,
        final(store).overrides == old(store).overrides,
        final(store).requests == old(store).requests,
        final(store).audit_log == old(store).audit_log,
        final(store).renewal_requests == old(store).renewal_requests,
{
    let ghost pre = *store;
    let n = match store.notifications.get(&certificate_id) {
        Option::Some(n) => *n,
        Option::None => {
            return ;
        },
    };
    let updated = ExpiryNotification { delivered: true, ..n };
    store.notifications.insert(certificate_id, updated);
    proof {
        assert forall|k: u64| #[trigger] store.notifications@.contains_key(k)
            implies store.notifications@[k].certificate_id == k by {
            if k != certificate_id {
                assert(pre.notifications@.contains_key(k));
            }
        }
    }
}

/// Whether `requester` may ask to renew this certificate: only the holding
/// student or the issuing instructor may.
pub open spec fn renewal_authorized(
    certs: Map<u64, CertificateMetadata>,
    id: u64,
    requester: u64,
) -> bool {
    requester == certs[id].student_id || requester == certs[id].instructor_id
}

/// The whole contract of a renewal request, as a relation between the store
/// before and after. `config` carries the frozen large-renewal policy when
/// one is configured.
pub open spec fn request_renewal_post(
    pre: CertificateStore,
    post: CertificateStore,
    certificate_id: u64,
    requester: u64,
    new_expiry: u64,
    now: u64,
    large_threshold: u64,
    config_threshold: Option<u32>,
    config_signers: Option<Seq<u64>>,
    window: u64,
    r: Result<RenewalOutcome, CertificateError>,
) -> bool {
    let known = pre.certificates@.contains_key(certificate_id);
    let authorized = known && renewal_authorized(pre.certificates@, certificate_id, requester);
    let allowed = renewal_allowed(pre.certificates@, certificate_id, new_expiry);
    let large = allowed && new_expiry - pre.certificates@[certificate_id].expiry_date
        > large_threshold;
    &&& !known ==> r == Err::<RenewalOutcome, CertificateError>(
        CertificateError::CertificateNotFound,
    ) && post == pre
    &&& known && !authorized ==> r == Err::<RenewalOutcome, CertificateError>(
        CertificateError::Unauthorized,
    ) && post == pre
    &&& known && authorized && !allowed ==> r == Err::<RenewalOutcome, CertificateError>(
        CertificateError::InvalidRenewal,
    ) && post == pre
    &&& known && authorized && allowed && large && config_threshold is None ==> r == Err::<
        RenewalOutcome,
        CertificateError,
    >(CertificateError::ConfigNotSet) && post == pre
    &&& r is Ok <==> (authorized && allowed && (large ==> config_threshold is Some))
    &&& r is Ok && !large ==> {
        &&& r == Ok::<RenewalOutcome, CertificateError>(RenewalOutcome::Applied)
        &&& post.certificates@ == pre.certificates@.insert(
            certificate_id,
            renewed_of(pre.certificates@[certificate_id], new_expiry, now),
        )
        &&& post.renewal_requests@ == pre.renewal_requests@.push(
            RenewalRequest {
                certificate_id,
                requester,
                proposed_expiry: new_expiry,
                status: RenewalStatus::Applied,
                requested_at: now,
                multisig_request_id: None,
            },
        )
        &&& post.requests == pre.requests
        &&& post.audit_log == pre.audit_log
        &&& post.notifications == pre.notifications
    }
    &&& r is Ok && large ==> {
        let rid = pre.requests@.len() as u64;
        &&& r == Ok::<RenewalOutcome, CertificateError>(RenewalOutcome::Routed(rid))
        &&& post.certificates == pre.certificates
        &&& crate::multisig::propose_post(
            pre,
            CertificateStore { renewal_requests: pre.renewal_requests, ..post },
            MultiSigOperation::LargeRenewal { certificate_id, new_expiry },
            requester,
            config_threshold->0,
            config_signers->0,
            now,
            window,
            rid,
        )
        &&& post.renewal_requests@ == pre.renewal_requests@.push(
            RenewalRequest {
                certificate_id,
                requester,
                proposed_expiry: new_expiry,
                status: RenewalStatus::PendingApproval,
                requested_at: now,
                multisig_request_id: Some(rid),
            },
        )
    }
    &&& post.user_certificates == pre.user_certificates
    &&& post.instructor_certificates == pre.instructor_certificates
    &&& post.metadata_history == pre.metadata_history
    &&& post.prerequisites == pre.prerequisites
    &&& post.overrides == pre.overrides
}

/// Handle a renewal request. Small extensions are applied immediately;
/// extensions beyond `large_threshold` are routed through the
/// multi-signature coordinator under the given policy, and a renewal-request
/// record is appended either way.
pub fn request_renewal(
    store: &mut CertificateStore,
    certificate_id: u64,
    requester: u64,
    new_expiry: u64,
    now: u64,
    large_threshold: u64,
    config: Option<&MultiSigConfig>,
    window: u64,
) -> (r: Result<RenewalOutcome, CertificateError>)
    requires
        old(store).wf(),
        now + window <= u64::MAX,
        config matches Some(c) ==> c.threshold >= 1,
    ensures
        final(store).wf(),
        request_renewal_post(
            *old(store),
            *final(store),
            certificate_id,
            requester,
            new_expiry,
            now,
            large_threshold,
            match config {
                Some(c) => Some(c.threshold),
                None => None,
            },
            match config {
                Some(c) => Some(c.signers@),
                None => None,
            },
            window,
            r,
        ),
{
    let large: bool;
    match store.certificates.get(&certificate_id) {
        Option::None => {
            return Err(CertificateError::CertificateNotFound);
        },
        Option::Some(rec) => {
            if !(requester == rec.student_id || requester == rec.instructor_id) {
                return Err(CertificateError::Unauthorized);
            }
            if !matches!(rec.status, CertificateStatus::Active) || new_expiry <= rec.expiry_date
                || rec.renewal_count == u64::MAX {
                return Err(CertificateError::InvalidRenewal);
            }
            large = new_expiry - rec.expiry_date > large_threshold;
        },
    }
    if large {
        let cfg = match config {
            Option::Some(c) => c,
            Option::None => {
                return Err(CertificateError::ConfigNotSet);
            },
        };
        let ghost mid0 = *store;
        let rid = crate::multisig::propose(
            store,
            MultiSigOperation::LargeRenewal { certificate_id, new_expiry },
            requester,
            cfg,
            now,
            window,
        );
        let ghost mid1 = *store;
        store.renewal_requests.push(
            RenewalRequest {
                certificate_id,
                requester,
                proposed_expiry: new_expiry,
                status: RenewalStatus::PendingApproval,
                requested_at: now,
                multisig_request_id: Some(rid),
            },
        );
        proof {
            assert(CertificateStore { renewal_requests: mid0.renewal_requests, ..*store } == mid1);
        }
        Ok(RenewalOutcome::Routed(rid))
    } else {
        match apply_renewal(store, certificate_id, new_expiry, now) {
            Ok(_) => {},
            Err(_) => {
                proof {
                    assert(false);
                }
            },
        }
        store.renewal_requests.push(
            RenewalRequest {
                certificate_id,
                requester,
                proposed_expiry: new_expiry,
                status: RenewalStatus::Applied,
                requested_at: now,
                multisig_request_id: None,
            },
        );
        Ok(RenewalOutcome::Applied)
    }
}

/// Idempotence of the sweep: running the same batch again, with time not
/// advanced, expires nothing the second time.
pub proof fn lemma_sweep_idempotent(
    certs: Map<u64, CertificateMetadata>,
    batch: Seq<u64>,
    now: u64,
)
    ensures
        sweep_expired_count(sweep_certs(certs, batch, now), batch, now) == 0,
{
    let swept = sweep_certs(certs, batch, now);
    assert forall|k: int| 0 <= k < batch.len() implies !cert_due(swept, #[trigger] batch[k], now) by {
        if cert_due(swept, batch[k], now) {
            lemma_sweep_leaves_nothing_due(certs, batch, now, batch[k]);
            assert(batch.contains(batch[k]));
        }
    }
    lemma_sweep_no_due_is_noop(swept, batch, now);
}

} // verus!
