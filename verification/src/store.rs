use vstd::prelude::*;

use std::collections::HashMap;

use crate::types::{
    CertificateMetadata, CoursePrerequisite, ExpiryNotification, MetadataUpdateEntry,
    MultiSigAuditEntry, MultiSigCertificateRequest, PrerequisiteOverride, RenewalRequest,
    RequestStatus, wf_record,
};

verus! {

/// Internal consistency of one multi-signature request sitting at index `i`
/// of the request table: its stored identifier is its index, nobody signed
/// twice, every signature comes from the frozen eligible set, and the status
/// agrees with the signature count.
pub open spec fn wf_msrequest(r: MultiSigCertificateRequest, i: int) -> bool {
    &&& r.id == i
    &&& r.signed_by@.no_duplicates()
    &&& forall|k: int|
        0 <= k < r.signed_by@.len() ==> r.eligible_signers@.contains(#[trigger] r.signed_by@[k])
    &&& r.status == RequestStatus::Pending ==> (r.signed_by@.len() as int) < r.threshold
    &&& (r.status == RequestStatus::Approved || r.status == RequestStatus::Executed) ==> (
    r.signed_by@.len() as int) >= r.threshold
}

/// Durable keyed storage shared by every subsystem: certificate records, the
/// ownership indexes, the audit history, and the prerequisite / override /
/// request tables. It is the single source of truth; the graph, multi-sig,
/// and expiry subsystems keep no private copies.
pub struct CertificateStore {
    pub certificates: HashMap<u64, CertificateMetadata>,
    pub user_certificates: HashMap<u64, Vec<u64>>,
    pub instructor_certificates: HashMap<u64, Vec<u64>>,
    pub metadata_history: HashMap<u64, Vec<MetadataUpdateEntry>>,
    pub prerequisites: Vec<CoursePrerequisite>,
    pub overrides: Vec<PrerequisiteOverride>,
    pub requests: Vec<MultiSigCertificateRequest>,
    pub audit_log: Vec<MultiSigAuditEntry>,
    pub notifications: HashMap<u64, ExpiryNotification>,
    pub renewal_requests: Vec<RenewalRequest>,
}

impl CertificateStore {
    /// Every stored record is keyed by its own token, satisfies the record
    /// invariant, and appears in both ownership indexes.
    pub open spec fn wf_records(self) -> bool {
        forall|id: u64|
            #[trigger] self.certificates@.contains_key(id) ==> {
                let r = self.certificates@[id];
                &&& r.token_id == id
                &&& wf_record(r)
                &&& self.user_certificates@.contains_key(r.student_id)
                &&& self.user_certificates@[r.student_id]@.contains(id)
                &&& self.instructor_certificates@.contains_key(r.instructor_id)
                &&& self.instructor_certificates@[r.instructor_id]@.contains(id)
            }
    }

    /// Every entry of the per-student index points at a stored record of that
    /// student, and no identifier is listed twice.
    pub open spec fn wf_user_index(self) -> bool {
        &&& forall|u: u64, j: int|
            self.user_certificates@.contains_key(u) && 0 <= j
                < self.user_certificates@[u]@.len() ==> {
                let id = #[trigger] self.user_certificates@[u]@[j];
                &&& self.certificates@.contains_key(id)
                &&& self.certificates@[id].student_id == u
            }
        &&& forall|u: u64|
            #[trigger] self.user_certificates@.contains_key(u) ==> self.user_certificates@[u]@.no_duplicates()
    }

    /// The per-instructor index, with the same two properties.
    pub open spec fn wf_instructor_index(self) -> bool {
        &&& forall|u: u64, j: int|
            self.instructor_certificates@.contains_key(u) && 0 <= j
                < self.instructor_certificates@[u]@.len() ==> {
                let id = #[trigger] self.instructor_certificates@[u]@[j];
                &&& self.certificates@.contains_key(id)
                &&& self.certificates@[id].instructor_id == u
            }
        &&& forall|u: u64|
            #[trigger] self.instructor_certificates@.contains_key(u) ==> self.instructor_certificates@[u]@.no_duplicates()
    }

    /// Every request in the table is internally consistent and keyed by its
    /// index.
    pub open spec fn wf_requests(self) -> bool {
        forall|i: int|
            0 <= i < self.requests@.len() ==> wf_msrequest(#[trigger] self.requests@[i], i)
    }

    /// Every notification is keyed by the certificate it concerns.
    pub open spec fn wf_notifications(self) -> bool {
        forall|k: u64|
            #[trigger] self.notifications@.contains_key(k)
                ==> self.notifications@[k].certificate_id == k
    }

    /// Well-formedness of the whole store: constructors establish it and
    /// every operation preserves it. The prerequisite graph is acyclic at
    /// all times; the insertion-time guard keeps it so.
    pub open spec fn wf(self) -> bool {
        &&& self.wf_records()
        &&& self.wf_user_index()
        &&& self.wf_instructor_index()
        &&& self.wf_requests()
        &&& self.wf_notifications()
        &&& crate::prerequisites::acyclic(self.prerequisites@)
    }

    /// An empty store.
    pub fn new() -> (s: CertificateStore)
        ensures
            s.wf(),
            s.certificates@ == Map::<u64, CertificateMetadata>::empty(),
            s.user_certificates@ == Map::<u64, Vec<u64>>::empty(),
            s.instructor_certificates@ == Map::<u64, Vec<u64>>::empty(),
            s.metadata_history@ == Map::<u64, Vec<MetadataUpdateEntry>>::empty(),
            s.prerequisites@ == Seq::<CoursePrerequisite>::empty(),
            s.overrides@ == Seq::<PrerequisiteOverride>::empty(),
            s.requests@ == Seq::<MultiSigCertificateRequest>::empty(),
            s.audit_log@ == Seq::<MultiSigAuditEntry>::empty(),
            s.notifications@ == Map::<u64, ExpiryNotification>::empty(),
            s.renewal_requests@ == Seq::<RenewalRequest>::empty(),
    {
        let s = CertificateStore {
            certificates: HashMap::new(),
            user_certificates: HashMap::new(),
            instructor_certificates: HashMap::new(),
            metadata_history: HashMap::new(),
            prerequisites: Vec::new(),
            overrides: Vec::new(),
            requests: Vec::new(),
            audit_log: Vec::new(),
            notifications: HashMap::new(),
            renewal_requests: Vec::new(),
        };
        s
    }

    /// Whether a certificate with this identifier exists.
    pub fn has_certificate(&self, certificate_id: u64) -> (b: bool)
        ensures
            b == self.certificates@.contains_key(certificate_id),
    {
        self.certificates.contains_key(&certificate_id)
    }

    /// Look a record up by its identifier.
    pub fn get_certificate(&self, certificate_id: u64) -> (r: Option<&CertificateMetadata>)
        ensures
            match r {
                Some(rec) => self.certificates@.contains_key(certificate_id) && *rec
                    == self.certificates@[certificate_id],
                None => !self.certificates@.contains_key(certificate_id),
            },
    {
        self.certificates.get(&certificate_id)
    }
}

/// Replacing one record with another that keeps its token, student, and
/// instructor preserves every part of store well-formedness that certificate
/// records touch.
pub proof fn lemma_wf_record_update(
    pre: CertificateStore,
    post: CertificateStore,
    id: u64,
    r2: CertificateMetadata,
)
    requires
        pre.wf(),
        pre.certificates@.contains_key(id),
        r2.token_id == pre.certificates@[id].token_id,
        r2.student_id == pre.certificates@[id].student_id,
        r2.instructor_id == pre.certificates@[id].instructor_id,
        wf_record(r2),
        post.certificates@ == pre.certificates@.insert(id, r2),
        post.user_certificates@ == pre.user_certificates@,
        post.instructor_certificates@ == pre.instructor_certificates@,
        post.requests@ == pre.requests@,
    ensures
        post.wf_records(),
        post.wf_user_index(),
        post.wf_instructor_index(),
        post.wf_requests(),
{
    assert forall|id2: u64| #[trigger] post.certificates@.contains_key(id2) implies {
        let r = post.certificates@[id2];
        &&& r.token_id == id2
        &&& wf_record(r)
        &&& post.user_certificates@.contains_key(r.student_id)
        &&& post.user_certificates@[r.student_id]@.contains(id2)
        &&& post.instructor_certificates@.contains_key(r.instructor_id)
        &&& post.instructor_certificates@[r.instructor_id]@.contains(id2)
    } by {
        assert(pre.certificates@.contains_key(id2));
    }
    assert forall|u: u64, j: int|
        post.user_certificates@.contains_key(u) && 0 <= j
            < post.user_certificates@[u]@.len() implies {
        let id2 = #[trigger] post.user_certificates@[u]@[j];
        &&& post.certificates@.contains_key(id2)
        &&& post.certificates@[id2].student_id == u
    } by {
        assert(pre.user_certificates@.contains_key(u));
        let id2 = pre.user_certificates@[u]@[j];
        assert(pre.certificates@.contains_key(id2));
    }
    assert forall|u: u64, j: int|
        post.instructor_certificates@.contains_key(u) && 0 <= j
            < post.instructor_certificates@[u]@.len() implies {
        let id2 = #[trigger] post.instructor_certificates@[u]@[j];
        &&& post.certificates@.contains_key(id2)
        &&& post.certificates@[id2].instructor_id == u
    } by {
        assert(pre.instructor_certificates@.contains_key(u));
        let id2 = pre.instructor_certificates@[u]@[j];
        assert(pre.certificates@.contains_key(id2));
    }
}

/// Adding a fresh record keyed by its own token, together with one new entry
/// at the end of each ownership index, preserves store well-formedness.
pub proof fn lemma_wf_mint(pre: CertificateStore, post: CertificateStore, id: u64, rec: CertificateMetadata)
    requires
        pre.wf(),
        !pre.certificates@.contains_key(id),
        rec.token_id == id,
        wf_record(rec),
        post.certificates@ == pre.certificates@.insert(id, rec),
        post.user_certificates@.contains_key(rec.student_id),
        post.user_certificates@[rec.student_id]@ == (if pre.user_certificates@.contains_key(
            rec.student_id,
        ) {
            pre.user_certificates@[rec.student_id]@
        } else {
            Seq::<u64>::empty()
        }).push(id),
        forall|u: u64|
            u != rec.student_id ==> ((#[trigger] post.user_certificates@.contains_key(u)
                <==> pre.user_certificates@.contains_key(u)) && (pre.user_certificates@.contains_key(
                u,
            ) ==> post.user_certificates@[u] == pre.user_certificates@[u])),
        post.instructor_certificates@.contains_key(rec.instructor_id),
        post.instructor_certificates@[rec.instructor_id]@ == (if pre.instructor_certificates@.contains_key(
            rec.instructor_id,
        ) {
            pre.instructor_certificates@[rec.instructor_id]@
        } else {
            Seq::<u64>::empty()
        }).push(id),
        forall|u: u64|
            u != rec.instructor_id ==> ((#[trigger] post.instructor_certificates@.contains_key(u)
                <==> pre.instructor_certificates@.contains_key(u)) && (
            pre.instructor_certificates@.contains_key(u)
                ==> post.instructor_certificates@[u] == pre.instructor_certificates@[u])),
        post.requests@ == pre.requests@,
    ensures
        post.wf_records(),
        post.wf_user_index(),
        post.wf_instructor_index(),
        post.wf_requests(),
{
    let student = rec.student_id;
    let instructor = rec.instructor_id;
    let old_uvec = if pre.user_certificates@.contains_key(student) {
        pre.user_certificates@[student]@
    } else {
        Seq::<u64>::empty()
    };
    let old_ivec = if pre.instructor_certificates@.contains_key(instructor) {
        pre.instructor_certificates@[instructor]@
    } else {
        Seq::<u64>::empty()
    };
    assert(!old_uvec.contains(id)) by {
        if old_uvec.contains(id) {
            let j = choose|j: int| 0 <= j < old_uvec.len() && old_uvec[j] == id;
            assert(pre.certificates@.contains_key(id));
        }
    }
    assert(!old_ivec.contains(id)) by {
        if old_ivec.contains(id) {
            let j = choose|j: int| 0 <= j < old_ivec.len() && old_ivec[j] == id;
            assert(pre.certificates@.contains_key(id));
        }
    }
    assert forall|id2: u64| #[trigger] post.certificates@.contains_key(id2) implies {
        let r = post.certificates@[id2];
        &&& r.token_id == id2
        &&& wf_record(r)
        &&& post.user_certificates@.contains_key(r.student_id)
        &&& post.user_certificates@[r.student_id]@.contains(id2)
        &&& post.instructor_certificates@.contains_key(r.instructor_id)
        &&& post.instructor_certificates@[r.instructor_id]@.contains(id2)
    } by {
        if id2 == id {
            assert(post.certificates@[id2] == rec);
            assert(post.user_certificates@[student]@[old_uvec.len() as int] == id);
            assert(post.user_certificates@[student]@.contains(id2));
            assert(post.instructor_certificates@[instructor]@[old_ivec.len() as int] == id);
            assert(post.instructor_certificates@[instructor]@.contains(id2));
        } else {
            assert(pre.certificates@.contains_key(id2));
            let r = pre.certificates@[id2];
            assert(post.certificates@[id2] == r);
            assert(pre.user_certificates@.contains_key(r.student_id));
            assert(pre.user_certificates@[r.student_id]@.contains(id2));
            assert(pre.instructor_certificates@.contains_key(r.instructor_id));
            assert(pre.instructor_certificates@[r.instructor_id]@.contains(id2));
            if r.student_id == student {
                let j = choose|j: int| 0 <= j < old_uvec.len() && old_uvec[j] == id2;
                assert(post.user_certificates@[student]@[j] == id2);
                assert(post.user_certificates@[r.student_id]@.contains(id2));
            } else {
                assert(post.user_certificates@.contains_key(r.student_id));
                assert(post.user_certificates@[r.student_id]
                    == pre.user_certificates@[r.student_id]);
                assert(post.user_certificates@[r.student_id]@.contains(id2));
            }
            if r.instructor_id == instructor {
                let j = choose|j: int| 0 <= j < old_ivec.len() && old_ivec[j] == id2;
                assert(post.instructor_certificates@[instructor]@[j] == id2);
                assert(post.instructor_certificates@[r.instructor_id]@.contains(id2));
            } else {
                assert(post.instructor_certificates@.contains_key(r.instructor_id));
                assert(post.instructor_certificates@[r.instructor_id]
                    == pre.instructor_certificates@[r.instructor_id]);
                assert(post.instructor_certificates@[r.instructor_id]@.contains(id2));
            }
        }
    }
    assert forall|u: u64, j: int|
        post.user_certificates@.contains_key(u) && 0 <= j
            < post.user_certificates@[u]@.len() implies {
        let id2 = #[trigger] post.user_certificates@[u]@[j];
        &&& post.certificates@.contains_key(id2)
        &&& post.certificates@[id2].student_id == u
    } by {
        if u == student {
            if j < old_uvec.len() {
                assert(post.user_certificates@[u]@[j] == old_uvec[j]);
                assert(pre.user_certificates@.contains_key(student));
                assert(pre.certificates@.contains_key(old_uvec[j]));
            }
        } else {
            assert(pre.user_certificates@.contains_key(u));
            assert(pre.certificates@.contains_key(pre.user_certificates@[u]@[j]));
        }
    }
    assert forall|u: u64| #[trigger] post.user_certificates@.contains_key(u)
        implies post.user_certificates@[u]@.no_duplicates() by {
        if u == student {
            assert(post.user_certificates@[u]@ == old_uvec.push(id));
        } else {
            assert(pre.user_certificates@.contains_key(u));
        }
    }
    assert forall|u: u64, j: int|
        post.instructor_certificates@.contains_key(u) && 0 <= j
            < post.instructor_certificates@[u]@.len() implies {
        let id2 = #[trigger] post.instructor_certificates@[u]@[j];
        &&& post.certificates@.contains_key(id2)
        &&& post.certificates@[id2].instructor_id == u
    } by {
        if u == instructor {
            if j < old_ivec.len() {
                assert(post.instructor_certificates@[u]@[j] == old_ivec[j]);
                assert(pre.instructor_certificates@.contains_key(instructor));
                assert(pre.certificates@.contains_key(old_ivec[j]));
            }
        } else {
            assert(pre.instructor_certificates@.contains_key(u));
            assert(pre.certificates@.contains_key(pre.instructor_certificates@[u]@[j]));
        }
    }
    assert forall|u: u64| #[trigger] post.instructor_certificates@.contains_key(u)
        implies post.instructor_certificates@[u]@.no_duplicates() by {
        if u == instructor {
            assert(post.instructor_certificates@[u]@ == old_ivec.push(id));
        } else {
            assert(pre.instructor_certificates@.contains_key(u));
        }
    }
    assert forall|i: int| 0 <= i < post.requests@.len() implies wf_msrequest(
        #[trigger] post.requests@[i],
        i,
    ) by {
        assert(wf_msrequest(pre.requests@[i], i));
    }
}

/// Moving a record's single index entry from its old holder to a new one,
/// while the record itself changes holder, preserves store well-formedness.
pub proof fn lemma_wf_transfer(
    pre: CertificateStore,
    post: CertificateStore,
    id: u64,
    to: u64,
    pos: int,
)
    requires
        pre.wf(),
        pre.certificates@.contains_key(id),
        to != pre.certificates@[id].student_id,
        post.certificates@ == pre.certificates@.insert(
            id,
            CertificateMetadata {
                student_id: to,
                status: crate::types::CertificateStatus::Transferred,
                ..pre.certificates@[id]
            },
        ),
        0 <= pos < pre.user_certificates@[pre.certificates@[id].student_id]@.len(),
        pre.user_certificates@[pre.certificates@[id].student_id]@[pos] == id,
        post.user_certificates@.contains_key(pre.certificates@[id].student_id),
        post.user_certificates@[pre.certificates@[id].student_id]@
            == pre.user_certificates@[pre.certificates@[id].student_id]@.remove(pos),
        post.user_certificates@.contains_key(to),
        post.user_certificates@[to]@ == (if pre.user_certificates@.contains_key(to) {
            pre.user_certificates@[to]@
        } else {
            Seq::<u64>::empty()
        }).push(id),
        forall|u: u64|
            u != pre.certificates@[id].student_id && u != to ==> ((
            #[trigger] post.user_certificates@.contains_key(u)
                <==> pre.user_certificates@.contains_key(u)) && (
            pre.user_certificates@.contains_key(u) ==> post.user_certificates@[u]
                == pre.user_certificates@[u])),
        post.instructor_certificates@ == pre.instructor_certificates@,
        post.requests@ == pre.requests@,
    ensures
        post.wf_records(),
        post.wf_user_index(),
        post.wf_instructor_index(),
        post.wf_requests(),
{
    let from = pre.certificates@[id].student_id;
    let old_f = pre.user_certificates@[from]@;
    let new_f = old_f.remove(pos);
    let old_t = if pre.user_certificates@.contains_key(to) {
        pre.user_certificates@[to]@
    } else {
        Seq::<u64>::empty()
    };
    assert(!old_t.contains(id)) by {
        if old_t.contains(id) {
            let j = choose|j: int| 0 <= j < old_t.len() && old_t[j] == id;
            assert(pre.certificates@[id].student_id == to);
        }
    }
    assert(!new_f.contains(id)) by {
        if new_f.contains(id) {
            let j = choose|j: int| 0 <= j < new_f.len() && new_f[j] == id;
            if j < pos {
                assert(old_f[j] == id);
            } else {
                assert(old_f[j + 1] == id);
            }
        }
    }
    assert forall|x: u64| new_f.contains(x) implies old_f.contains(x) by {
        let j = choose|j: int| 0 <= j < new_f.len() && new_f[j] == x;
        if j < pos {
            assert(old_f[j] == x);
        } else {
            assert(old_f[j + 1] == x);
        }
    }
    assert forall|x: u64| old_f.contains(x) && x != id implies new_f.contains(x) by {
        let j = choose|j: int| 0 <= j < old_f.len() && old_f[j] == x;
        if j < pos {
            assert(new_f[j] == x);
        } else {
            assert(j != pos);
            assert(new_f[j - 1] == x);
        }
    }
    assert forall|id2: u64| #[trigger] post.certificates@.contains_key(id2) implies {
        let r = post.certificates@[id2];
        &&& r.token_id == id2
        &&& wf_record(r)
        &&& post.user_certificates@.contains_key(r.student_id)
        &&& post.user_certificates@[r.student_id]@.contains(id2)
        &&& post.instructor_certificates@.contains_key(r.instructor_id)
        &&& post.instructor_certificates@[r.instructor_id]@.contains(id2)
    } by {
        if id2 == id {
            assert(post.user_certificates@[to]@[old_t.len() as int] == id);
            assert(post.certificates@[id2].instructor_id == pre.certificates@[id].instructor_id);
            assert(pre.instructor_certificates@[pre.certificates@[id].instructor_id]@.contains(id));
        } else {
            assert(pre.certificates@.contains_key(id2));
            let r = pre.certificates@[id2];
            assert(post.certificates@[id2] == r);
            assert(pre.user_certificates@[r.student_id]@.contains(id2));
            if r.student_id == from {
                assert(new_f.contains(id2));
            } else if r.student_id == to {
                let j = choose|j: int| 0 <= j < old_t.len() && old_t[j] == id2;
                assert(post.user_certificates@[to]@[j] == id2);
            } else {
                assert(pre.user_certificates@.contains_key(r.student_id));
                assert(post.user_certificates@.contains_key(r.student_id));
                assert(post.user_certificates@[r.student_id] == pre.user_certificates@[r.student_id]);
            }
        }
    }
    assert forall|u: u64, j: int|
        post.user_certificates@.contains_key(u) && 0 <= j
            < post.user_certificates@[u]@.len() implies {
        let id2 = #[trigger] post.user_certificates@[u]@[j];
        &&& post.certificates@.contains_key(id2)
        &&& post.certificates@[id2].student_id == u
    } by {
        if u == from {
            let id2 = post.user_certificates@[u]@[j];
            assert(new_f[j] == id2);
            assert(old_f.contains(id2));
            let j0 = choose|j0: int| 0 <= j0 < old_f.len() && old_f[j0] == id2;
            assert(pre.certificates@.contains_key(id2));
            assert(pre.certificates@[id2].student_id == from);
            assert(id2 != id);
        } else if u == to {
            let id2 = post.user_certificates@[u]@[j];
            if j < old_t.len() {
                assert(old_t[j] == id2);
                assert(pre.user_certificates@.contains_key(to));
                assert(pre.certificates@.contains_key(id2));
                assert(pre.certificates@[id2].student_id == to);
                assert(id2 != id);
            } else {
                assert(id2 == id);
            }
        } else {
            assert(pre.user_certificates@.contains_key(u));
            let id2 = pre.user_certificates@[u]@[j];
            assert(pre.certificates@.contains_key(id2));
            assert(id2 != id) by {
                if id2 == id {
                    assert(pre.certificates@[id2].student_id == u);
                }
            }
        }
    }
    assert forall|u: u64| #[trigger] post.user_certificates@.contains_key(u)
        implies post.user_certificates@[u]@.no_duplicates() by {
        if u == from {
            assert forall|a: int, b: int| 0 <= a < b < new_f.len() implies new_f[a] != new_f[b] by {
                let a0 = if a < pos {
                    a
                } else {
                    a + 1
                };
                let b0 = if b < pos {
                    b
                } else {
                    b + 1
                };
                assert(new_f[a] == old_f[a0] && new_f[b] == old_f[b0]);
            }
        } else if u == to {
            assert(post.user_certificates@[u]@ == old_t.push(id));
            if pre.user_certificates@.contains_key(to) {
                assert(old_t.no_duplicates());
            }
        } else {
            assert(pre.user_certificates@.contains_key(u));
        }
    }
    assert forall|u: u64, j: int|
        post.instructor_certificates@.contains_key(u) && 0 <= j
            < post.instructor_certificates@[u]@.len() implies {
        let id2 = #[trigger] post.instructor_certificates@[u]@[j];
        &&& post.certificates@.contains_key(id2)
        &&& post.certificates@[id2].instructor_id == u
    } by {
        assert(pre.instructor_certificates@.contains_key(u));
        let id2 = pre.instructor_certificates@[u]@[j];
        assert(pre.certificates@.contains_key(id2));
        if id2 == id {
            assert(post.certificates@[id].instructor_id == pre.certificates@[id].instructor_id);
        }
    }
    assert forall|i: int| 0 <= i < post.requests@.len() implies wf_msrequest(
        #[trigger] post.requests@[i],
        i,
    ) by {
        assert(wf_msrequest(pre.requests@[i], i));
    }
}

/// Copy a vector of identifiers element by element.
pub fn copy_ids(v: &Vec<u64>) -> (r: Vec<u64>)
    ensures
        r@ == v@,
{
    let mut r: Vec<u64> = Vec::new();
    let mut i: usize = 0;
    while i < v.len()
        invariant
            i <= v.len(),
            r@ == v@.take(i as int),
        decreases v.len() - i,
    {
        r.push(v[i]);
        assert(v@.take(i + 1 as int) == v@.take(i as int).push(v@[i as int]));
        i = i + 1;
    }
    assert(v@.take(v@.len() as int) == v@);
    r
}

/// Whether `x` occurs in `v`.
pub fn ids_contain(v: &Vec<u64>, x: u64) -> (b: bool)
    ensures
        b == v@.contains(x),
{
    let mut i: usize = 0;
    while i < v.len()
        invariant
            i <= v.len(),
            forall|j: int| 0 <= j < i ==> v@[j] != x,
        decreases v.len() - i,
    {
        if v[i] == x {
            return true;
        }
        i = i + 1;
    }
    false
}

} // verus!
