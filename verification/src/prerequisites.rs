use vstd::prelude::*;

use crate::errors::CertificateError;
use crate::store::{CertificateStore, ids_contain};
use crate::types::{
    CoursePrerequisite, CertificateStatus, LearningPath, PrerequisiteCheckResult,
    PrerequisiteOverride, PrerequisiteViolation,
};

verus! {

/// Cap on the number of edges the prerequisite graph may hold, so that one
/// traversal stays within a bounded work budget.
pub const MAX_GRAPH_EDGES: usize = 16384;

/// Whether one stored edge is an `a`-to-`b` dependency; when `m` is set, only
/// mandatory edges count.
pub open spec fn edge_matches(e: CoursePrerequisite, m: bool, a: u64, b: u64) -> bool {
    e.course == a && e.required_course == b && (m ==> e.mandatory)
}

/// Whether the graph holds an edge from `a` to `b` (mandatory only, when `m`
/// is set).
pub open spec fn has_edge(edges: Seq<CoursePrerequisite>, m: bool, a: u64, b: u64) -> bool {
    exists|i: int| 0 <= i < edges.len() && edge_matches(#[trigger] edges[i], m, a, b)
}

/// Whether `p` walks from `a` to `b` along edges of the graph.
pub open spec fn is_path(edges: Seq<CoursePrerequisite>, m: bool, p: Seq<u64>, a: u64, b: u64) -> bool {
    &&& p.len() >= 1
    &&& p[0] == a
    &&& p[p.len() - 1] == b
    &&& forall|i: int| 0 <= i < p.len() - 1 ==> has_edge(edges, m, #[trigger] p[i], p[i + 1])
}

/// Whether `b` can be reached from `a`; reflexive by the one-node path.
pub open spec fn reachable(edges: Seq<CoursePrerequisite>, m: bool, a: u64, b: u64) -> bool {
    exists|p: Seq<u64>| is_path(edges, m, p, a, b)
}

/// Every node reaches itself.
pub proof fn lemma_reachable_refl(edges: Seq<CoursePrerequisite>, m: bool, a: u64)
    ensures
        reachable(edges, m, a, a),
{
    let p = seq![a];
    assert(is_path(edges, m, p, a, a));
}

/// Reachability extends across one more edge.
pub proof fn lemma_reachable_step(edges: Seq<CoursePrerequisite>, m: bool, a: u64, b: u64, c: u64)
    requires
        reachable(edges, m, a, b),
        has_edge(edges, m, b, c),
    ensures
        reachable(edges, m, a, c),
{
    let p = choose|p: Seq<u64>| is_path(edges, m, p, a, b);
    let q = p.push(c);
    assert forall|i: int| 0 <= i < q.len() - 1 implies has_edge(edges, m, #[trigger] q[i], q[i + 1]) by {
        if i < p.len() - 1 {
            assert(q[i] == p[i] && q[i + 1] == p[i + 1]);
        } else {
            assert(q[i] == p[p.len() - 1] && q[i + 1] == c);
        }
    }
    assert(is_path(edges, m, q, a, c));
}

/// No edge's required course reaches back to the course that depends on it:
/// the graph holds no cycle.
pub open spec fn acyclic(edges: Seq<CoursePrerequisite>) -> bool {
    forall|i: int|
        0 <= i < edges.len() ==> !reachable(
            edges,
            false,
            (#[trigger] edges[i]).required_course,
            edges[i].course,
        )
}

/// Reachability is transitive.
pub proof fn lemma_reachable_trans(edges: Seq<CoursePrerequisite>, m: bool, a: u64, b: u64, c: u64)
    requires
        reachable(edges, m, a, b),
        reachable(edges, m, b, c),
    ensures
        reachable(edges, m, a, c),
{
    let p = choose|p: Seq<u64>| is_path(edges, m, p, a, b);
    let q = choose|q: Seq<u64>| is_path(edges, m, q, b, c);
    let r = p + q.drop_first();
    assert(r.len() == p.len() + q.len() - 1);
    assert(r[0] == a);
    assert(r[r.len() - 1] == c) by {
        if q.len() == 1 {
            assert(r =~= p);
        } else {
            assert(r[r.len() - 1] == q.drop_first()[q.len() - 2]);
            assert(q.drop_first()[q.len() - 2] == q[q.len() - 1]);
        }
    }
    assert forall|i: int| 0 <= i < r.len() - 1 implies has_edge(edges, m, #[trigger] r[i], r[i + 1]) by {
        if i < p.len() - 1 {
            assert(r[i] == p[i] && r[i + 1] == p[i + 1]);
        } else if i == p.len() - 1 {
            assert(r[i] == p[p.len() - 1] && r[i + 1] == q.drop_first()[0]);
            assert(q.drop_first()[0] == q[1]);
            assert(has_edge(edges, m, q[0], q[1]));
        } else {
            assert(r[i] == q.drop_first()[i - p.len()] && r[i + 1] == q.drop_first()[i + 1 - p.len()]);
            assert(r[i] == q[i - p.len() + 1] && r[i + 1] == q[i - p.len() + 2]);
            assert(has_edge(edges, m, q[i - p.len() + 1], q[i - p.len() + 2]));
        }
    }
    assert(is_path(edges, m, r, a, c));
}

/// Adding an edge never removes reachability.
pub proof fn lemma_reachable_push_mono(
    edges: Seq<CoursePrerequisite>,
    e: CoursePrerequisite,
    m: bool,
    a: u64,
    b: u64,
)
    requires
        reachable(edges, m, a, b),
    ensures
        reachable(edges.push(e), m, a, b),
{
    let p = choose|p: Seq<u64>| is_path(edges, m, p, a, b);
    assert forall|i: int| 0 <= i < p.len() - 1 implies has_edge(edges.push(e), m, #[trigger] p[i], p[i + 1]) by {
        let j = choose|j: int| 0 <= j < edges.len() && edge_matches(#[trigger] edges[j], m, p[i], p[i + 1]);
        assert(edge_matches(edges.push(e)[j], m, p[i], p[i + 1]));
    }
    assert(is_path(edges.push(e), m, p, a, b));
}

/// Any walk over the graph extended with a guarded edge decomposes: either
/// it already exists in the old graph, or it passes through the new edge.
proof fn lemma_new_path_decompose(
    edges: Seq<CoursePrerequisite>,
    e: CoursePrerequisite,
    p: Seq<u64>,
    a: u64,
    b: u64,
)
    requires
        is_path(edges.push(e), false, p, a, b),
        !reachable(edges, false, e.required_course, e.course),
    ensures
        reachable(edges, false, a, b) || (reachable(edges, false, a, e.course) && reachable(
            edges,
            false,
            e.required_course,
            b,
        )),
    decreases p.len(),
{
    if p.len() == 1 {
        lemma_reachable_refl(edges, false, a);
    } else {
        let q = p.drop_first();
        assert forall|i: int| 0 <= i < q.len() - 1 implies has_edge(
            edges.push(e),
            false,
            #[trigger] q[i],
            q[i + 1],
        ) by {
            assert(q[i] == p[i + 1] && q[i + 1] == p[i + 2]);
            assert(has_edge(edges.push(e), false, p[i + 1], p[i + 2]));
        }
        assert(is_path(edges.push(e), false, q, p[1], b));
        lemma_new_path_decompose(edges, e, q, p[1], b);
        assert(has_edge(edges.push(e), false, p[0], p[1]));
        let i = choose|i: int|
            0 <= i < edges.push(e).len() && edge_matches(#[trigger] edges.push(e)[i], false, p[0], p[1]);
        if i < edges.len() {
            assert(has_edge(edges, false, a, p[1])) by {
                assert(edge_matches(edges[i], false, a, p[1]));
            }
            lemma_reachable_refl(edges, false, a);
            lemma_reachable_step(edges, false, a, a, p[1]);
            if reachable(edges, false, p[1], b) {
                lemma_reachable_trans(edges, false, a, p[1], b);
            } else {
                lemma_reachable_trans(edges, false, a, p[1], e.course);
            }
        } else {
            assert(edges.push(e)[i] == e);
            assert(a == e.course && p[1] == e.required_course);
            if reachable(edges, false, p[1], b) {
                lemma_reachable_refl(edges, false, a);
            } else {
                assert(reachable(edges, false, e.required_course, e.course));
                assert(false);
            }
        }
    }
}

/// The insertion guard works: adding an edge whose required course does not
/// already reach its dependent course keeps the graph acyclic.
pub proof fn lemma_guarded_insert_preserves_acyclic(
    edges: Seq<CoursePrerequisite>,
    e: CoursePrerequisite,
)
    requires
        acyclic(edges),
        e.course != e.required_course,
        !reachable(edges, false, e.required_course, e.course),
    ensures
        acyclic(edges.push(e)),
{
    let new = edges.push(e);
    assert forall|i: int| 0 <= i < new.len() implies !reachable(
        new,
        false,
        (#[trigger] new[i]).required_course,
        new[i].course,
    ) by {
        let f = new[i];
        if reachable(new, false, f.required_course, f.course) {
            let p = choose|p: Seq<u64>| is_path(new, false, p, f.required_course, f.course);
            lemma_new_path_decompose(edges, e, p, f.required_course, f.course);
            if i < edges.len() {
                assert(f == edges[i]);
                assert(!reachable(edges, false, edges[i].required_course, edges[i].course));
                assert(reachable(edges, false, f.required_course, e.course) && reachable(
                    edges,
                    false,
                    e.required_course,
                    f.course,
                ));
                assert(has_edge(edges, false, f.course, f.required_course)) by {
                    assert(edge_matches(edges[i], false, f.course, f.required_course));
                }
                lemma_reachable_step(edges, false, e.required_course, f.course, f.required_course);
                lemma_reachable_trans(
                    edges,
                    false,
                    e.required_course,
                    f.required_course,
                    e.course,
                );
                assert(false);
            } else {
                assert(f == e);
                assert(false);
            }
        }
    }
}

/// Conversely, adding an edge whose required course already reaches its
/// dependent course would put a cycle in the graph: this is exactly the
/// insertion that `register_prerequisite` rejects as `CycleDetected`.
pub proof fn lemma_unguarded_insert_creates_cycle(
    edges: Seq<CoursePrerequisite>,
    e: CoursePrerequisite,
)
    requires
        reachable(edges, false, e.required_course, e.course),
    ensures
        !acyclic(edges.push(e)),
{
    lemma_reachable_push_mono(edges, e, false, e.required_course, e.course);
    let new = edges.push(e);
    assert(new[edges.len() as int] == e);
}

/// A path starting inside a successor-closed set ends inside it.
pub proof fn lemma_path_stays_in_closed(
    edges: Seq<CoursePrerequisite>,
    m: bool,
    s: Set<u64>,
    p: Seq<u64>,
    a: u64,
    b: u64,
)
    requires
        is_path(edges, m, p, a, b),
        s.contains(a),
        forall|v: u64, w: u64| s.contains(v) && #[trigger] has_edge(edges, m, v, w) ==> s.contains(w),
    ensures
        s.contains(b),
    decreases p.len(),
{
    if p.len() == 1 {
        assert(b == a);
    } else {
        let q = p.drop_last();
        let b2 = q[q.len() - 1];
        assert forall|i: int| 0 <= i < q.len() - 1 implies has_edge(edges, m, #[trigger] q[i], q[i + 1]) by {
            assert(q[i] == p[i] && q[i + 1] == p[i + 1]);
        }
        assert(is_path(edges, m, q, a, b2));
        lemma_path_stays_in_closed(edges, m, s, q, a, b2);
        assert(has_edge(edges, m, b2, b)) by {
            assert(p[p.len() - 2] == b2 && p[p.len() - 1] == b);
        }
    }
}

/// The set of edge targets, used to bound how many nodes a traversal can
/// discover.
pub closed spec fn target_set(edges: Seq<CoursePrerequisite>) -> Set<u64>
    decreases edges.len(),
{
    if edges.len() == 0 {
        Set::empty()
    } else {
        target_set(edges.drop_last()).insert(edges.last().required_course)
    }
}

/// `target_set` is finite, no larger than the edge count, and holds exactly
/// the targets of the edges.
pub proof fn lemma_target_set(edges: Seq<CoursePrerequisite>)
    ensures
        target_set(edges).finite(),
        target_set(edges).len() <= edges.len(),
        forall|v: u64|
            target_set(edges).contains(v) <==> exists|i: int|
                0 <= i < edges.len() && (#[trigger] edges[i]).required_course == v,
    decreases edges.len(),
{
    if edges.len() == 0 {
    } else {
        let prev = edges.drop_last();
        lemma_target_set(prev);
        assert forall|v: u64|
            target_set(edges).contains(v) implies exists|i: int|
                0 <= i < edges.len() && (#[trigger] edges[i]).required_course == v by {
            if target_set(prev).contains(v) {
                let i = choose|i: int| 0 <= i < prev.len() && (#[trigger] prev[i]).required_course == v;
                assert(edges[i].required_course == v);
            } else {
                assert(edges[edges.len() - 1].required_course == v);
            }
        }
        assert forall|v: u64|
            (exists|i: int| 0 <= i < edges.len() && (#[trigger] edges[i]).required_course == v)
                implies target_set(edges).contains(v) by {
            let i = choose|i: int| 0 <= i < edges.len() && (#[trigger] edges[i]).required_course == v;
            if i < edges.len() - 1 {
                assert(prev[i].required_course == v);
            }
        }
    }
}

/// Compute the set of nodes reachable from `start` (mandatory edges only,
/// when `mandatory_only` is set). The result lists each reachable node once;
/// it is the full transitive closure, `start` included.
pub fn reach_set(edges: &Vec<CoursePrerequisite>, mandatory_only: bool, start: u64) -> (visited: Vec<
    u64,
>)
    ensures
        visited@.no_duplicates(),
        forall|v: u64| visited@.contains(v) <==> reachable(edges@, mandatory_only, start, v),
        visited@.contains(start),
{
    let m = mandatory_only;
    let mut visited: Vec<u64> = Vec::new();
    let mut stack: Vec<u64> = Vec::new();
    visited.push(start);
    stack.push(start);
    proof {
        lemma_reachable_refl(edges@, m, start);
        assert(visited@.contains(start)) by {
            assert(visited@[0] == start);
        }
    }
    while stack.len() > 0
        invariant
            visited@.no_duplicates(),
            stack@.no_duplicates(),
            visited@.contains(start),
            visited@.len() <= edges@.len() + 1,
            forall|i: int| 0 <= i < stack@.len() ==> visited@.contains(#[trigger] stack@[i]),
            forall|i: int|
                0 <= i < visited@.len() ==> reachable(edges@, m, start, #[trigger] visited@[i]),
            forall|i: int|
                0 <= i < visited@.len() ==> ((#[trigger] visited@[i]) == start || target_set(
                    edges@,
                ).contains(visited@[i])),
            forall|v: u64, w: u64|
                visited@.contains(v) && !stack@.contains(v) && #[trigger] has_edge(edges@, m, v, w)
                    ==> visited@.contains(w),
        decreases edges@.len() + 1 - visited@.len(), stack@.len(),
    {
        let ghost pre_visited = visited@;
        let ghost pre_stack = stack@;
        let cur = match stack.pop() {
            Some(c) => c,
            None => unreached(),
        };
        assert(pre_stack.contains(cur)) by {
            assert(pre_stack[pre_stack.len() - 1] == cur);
        }
        let ghost mid_stack = stack@;
        proof {
            assert(visited@.contains(cur));
            assert forall|v: u64| !mid_stack.contains(v) && v != cur implies !pre_stack.contains(
                v,
            ) by {
                if pre_stack.contains(v) {
                    let k = choose|k: int| 0 <= k < pre_stack.len() && pre_stack[k] == v;
                    if k < pre_stack.len() - 1 {
                        assert(mid_stack[k] == v);
                    }
                }
            }
        }
        let mut i: usize = 0;
        while i < edges.len()
            invariant
                0 <= i <= edges.len(),
                visited@.no_duplicates(),
                stack@.no_duplicates(),
                visited@.contains(start),
                visited@.contains(cur),
                visited@.len() <= edges@.len() + 1,
                pre_visited.len() <= visited@.len(),
                visited@.len() as int == pre_visited.len() + stack@.len() - mid_stack.len(),
                mid_stack.len() <= stack@.len(),
                forall|k: int| 0 <= k < pre_visited.len() ==> visited@[k] == pre_visited[k],
                forall|k: int| 0 <= k < stack@.len() ==> visited@.contains(#[trigger] stack@[k]),
                forall|k: int|
                    0 <= k < visited@.len() ==> reachable(edges@, m, start, #[trigger] visited@[k]),
                forall|k: int|
                    0 <= k < visited@.len() ==> ((#[trigger] visited@[k]) == start || target_set(
                        edges@,
                    ).contains(visited@[k])),
                forall|v: u64, w: u64|
                    visited@.contains(v) && !stack@.contains(v) && v != cur && #[trigger] has_edge(
                        edges@,
                        m,
                        v,
                        w,
                    ) ==> visited@.contains(w),
                forall|j: int|
                    0 <= j < i && edge_matches(#[trigger] edges@[j], m, cur, edges@[j].required_course)
                        ==> visited@.contains(edges@[j].required_course),
                forall|k: int| 0 <= k < mid_stack.len() ==> stack@[k] == mid_stack[k],
            decreases edges@.len() - i,
        {
            let e = edges[i];
            if e.course == cur && (!m || e.mandatory) {
                let t = e.required_course;
                if !ids_contain(&visited, t) {
                    proof {
                        lemma_target_set(edges@);
                        assert(has_edge(edges@, m, cur, t)) by {
                            assert(edge_matches(edges@[i as int], m, cur, t));
                        }
                        lemma_reachable_step(edges@, m, start, cur, t);
                        assert(target_set(edges@).contains(t)) by {
                            assert(edges@[i as int].required_course == t);
                        }
                        assert(visited@.push(t).to_set().subset_of(
                            target_set(edges@).insert(start),
                        )) by {
                            assert forall|v: u64| visited@.push(t).to_set().contains(v) implies
                                target_set(edges@).insert(start).contains(v) by {
                                assert(visited@.push(t).contains(v));
                                let k = choose|k: int|
                                    0 <= k < visited@.push(t).len() && visited@.push(t)[k] == v;
                                if k < visited@.len() {
                                    assert(visited@[k] == v);
                                }
                            }
                        }
                        assert(visited@.push(t).no_duplicates());
                        visited@.push(t).unique_seq_to_set();
                        vstd::set_lib::lemma_len_subset(
                            visited@.push(t).to_set(),
                            target_set(edges@).insert(start),
                        );
                        assert(target_set(edges@).insert(start).len() <= edges@.len() + 1);
                    }
                    let ghost vv = visited@;
                    let ghost ss = stack@;
                    visited.push(t);
                    stack.push(t);
                    proof {
                        assert forall|v: u64| vv.contains(v) implies visited@.contains(v) by {
                            let k = choose|k: int| 0 <= k < vv.len() && vv[k] == v;
                            assert(visited@[k] == v);
                        }
                        assert forall|v: u64| ss.contains(v) implies stack@.contains(v) by {
                            let k = choose|k: int| 0 <= k < ss.len() && ss[k] == v;
                            assert(stack@[k] == v);
                        }
                        assert(visited@.contains(t)) by {
                            assert(visited@[visited@.len() - 1] == t);
                        }
                        assert(stack@.contains(t)) by {
                            assert(stack@[stack@.len() - 1] == t);
                        }
                        assert(visited@.contains(start) && visited@.contains(cur));
                        assert forall|v: u64, w: u64|
                            visited@.contains(v) && !stack@.contains(v) && v != cur
                                && #[trigger] has_edge(edges@, m, v, w) implies visited@.contains(
                            w,
                        ) by {
                            assert(v != t);
                            let k = choose|k: int| 0 <= k < visited@.len() && visited@[k] == v;
                            assert(k < vv.len());
                            assert(vv[k] == v);
                            assert(vv.contains(v));
                            assert(!ss.contains(v));
                            assert(vv.contains(w));
                        }
                    }
                }
            }
            i = i + 1;
        }
        proof {
            assert forall|v: u64, w: u64|
                visited@.contains(v) && !stack@.contains(v) && #[trigger] has_edge(edges@, m, v, w)
                    implies visited@.contains(w) by {
                if v == cur {
                    let j = choose|j: int|
                        0 <= j < edges@.len() && edge_matches(#[trigger] edges@[j], m, cur, w);
                    assert(edge_matches(edges@[j], m, cur, edges@[j].required_course));
                }
            }
        }
    }
    proof {
        let s = visited@.to_set();
        assert(s.contains(start));
        assert forall|v: u64, w: u64|
            s.contains(v) && #[trigger] has_edge(edges@, m, v, w) implies s.contains(w) by {
            assert(visited@.contains(v));
            assert(!stack@.contains(v));
            assert(visited@.contains(w));
        }
        assert forall|v: u64| reachable(edges@, m, start, v) implies visited@.contains(v) by {
            let p = choose|p: Seq<u64>| is_path(edges@, m, p, start, v);
            lemma_path_stays_in_closed(edges@, m, s, p, start, v);
            assert(s.contains(v));
        }
        assert forall|v: u64| visited@.contains(v) implies reachable(edges@, m, start, v) by {
            let k = choose|k: int| 0 <= k < visited@.len() && visited@[k] == v;
            assert(reachable(edges@, m, start, visited@[k]));
        }
    }
    visited
}

/// Insert a prerequisite edge. A self-loop is rejected as
/// `InvalidPrerequisite`; an edge whose insertion would create a cycle (the
/// required course already reaches the dependent course) is rejected as
/// `CycleDetected`; a full graph is rejected as `GraphTooLarge`. On any
/// rejection the store is left exactly as it was.
pub fn register_prerequisite(
    store: &mut CertificateStore,
    course: u64,
    required_course: u64,
    mandatory: bool,
) -> (r: Result<(), CertificateError>)
    requires
        old(store).wf(),
    ensures
        final(store).wf(),
        r is Err ==> *final(store) == *old(store),
        r == Err::<(), CertificateError>(CertificateError::InvalidPrerequisite) <==> course
            == required_course,
        r == Err::<(), CertificateError>(CertificateError::CycleDetected) <==> (course
            != required_course && reachable(old(store).prerequisites@, false, required_course, course)),
        r == Err::<(), CertificateError>(CertificateError::GraphTooLarge) <==> (course
            != required_course && !reachable(old(store).prerequisites@, false, required_course, course)
            && old(store).prerequisites@.len() >= MAX_GRAPH_EDGES),
        r is Ok <==> (course != required_course && !reachable(
            old(store).prerequisites@,
            false,
            required_course,
            course,
        ) && old(store).prerequisites@.len() < MAX_GRAPH_EDGES),
        r is Ok ==> {
            &&& final(store).prerequisites@ == old(store).prerequisites@.push(
                CoursePrerequisite { course, required_course, mandatory },
            )
            &&& final(store).certificates@ == old(store).certificates@
            &&& final(store).user_certificates@ == old(store).user_certificates@
            &&& final(store).instructor_certificates@ == old(store).instructor_certificates@
            &&& final(store).metadata_history@ == old(store).metadata_history@
            &&& final(store).overrides@ == old(store).overrides@
            &&& final(store).requests@ == old(store).requests@
            &&& final(store).audit_log@ == old(store).audit_log@
            &&& final(store).notifications@ == old(store).notifications@
            &&& final(store).renewal_requests@ == old(store).renewal_requests@
        },
{
    if course == required_course {
        return Err(CertificateError::InvalidPrerequisite);
    }
    let visited = reach_set(&store.prerequisites, false, required_course);
    if ids_contain(&visited, course) {
        return Err(CertificateError::CycleDetected);
    }
    if store.prerequisites.len() >= MAX_GRAPH_EDGES {
        return Err(CertificateError::GraphTooLarge);
    }
    proof {
        lemma_guarded_insert_preserves_acyclic(
            store.prerequisites@,
            CoursePrerequisite { course, required_course, mandatory },
        );
    }
    store.prerequisites.push(CoursePrerequisite { course, required_course, mandatory });
    Ok(())
}

/// Record an override: `student` is excused from prerequisite `course` until
/// `expires_at` (forever, when `None`). Permission to grant overrides is
/// checked by the orchestrator before this runs.
pub fn grant_override(
    store: &mut CertificateStore,
    student: u64,
    course: u64,
    authority: u64,
    reason: String,
    expires_at: Option<u64>,
)
    requires
        old(store).wf(),
    ensures
        final(store).wf(),
        final(store).overrides@ == old(store).overrides@.push(
            PrerequisiteOverride { student, course, authority, reason, expires_at },
        ),
        final(store).certificates@ == old(store).certificates@,
        final(store).user_certificates@ == old(store).user_certificates@,
        final(store).instructor_certificates@ == old(store).instructor_certificates@,
        final(store).metadata_history@ == old(store).metadata_history@,
        final(store).prerequisites@ == old(store).prerequisites@,
        final(store).requests@ == old(store).requests@,
        final(store).audit_log@ == old(store).audit_log@,
        final(store).notifications@ == old(store).notifications@,
        final(store).renewal_requests@ == old(store).renewal_requests@,
{
    store.overrides.push(PrerequisiteOverride { student, course, authority, reason, expires_at });
}

/// Explicitly end every override of (`student`, `course`): the entries are
/// removed, and all other overrides are kept in order. Permission to revoke
/// overrides is checked by the orchestrator before this runs.
pub fn revoke_override(store: &mut CertificateStore, student: u64, course: u64)
    requires
        old(store).wf(),
    ensures
        final(store).wf(),
        final(store).overrides@ == old(store).overrides@.filter(
            |o: PrerequisiteOverride| !(o.student == student && o.course == course),
        ),
        final(store).certificates == old(store).certificates,
        final(store).user_certificates == old(store).user_certificates,
        final(store).instructor_certificates == old(store).instructor_certificates,
        final(store).metadata_history == old(store).metadata_history,
        final(store).prerequisites == old(store).prerequisites,
        final(store).requests == old(store).requests,
        final(store).audit_log == old(store).audit_log,
        final(store).notifications == old(store).notifications,
        final(store).renewal_requests == old(store).renewal_requests,
{
    let ghost pred = |o: PrerequisiteOverride| !(o.student == student && o.course == course);
    let ghost orig = store.overrides@;
    let mut kept: Vec<PrerequisiteOverride> = Vec::new();
    let mut i: usize = 0;
    proof {
        reveal_with_fuel(Seq::filter, 2);
        assert(orig.take(0) =~= Seq::<PrerequisiteOverride>::empty());
    }
    while i < store.overrides.len()
        invariant
            i <= store.overrides@.len(),
            store.overrides@ == orig,
            kept@ == orig.take(i as int).filter(
                |o: PrerequisiteOverride| !(o.student == student && o.course == course),
            ),
        decreases store.overrides@.len() - i,
    {
        proof {
            reveal_with_fuel(Seq::filter, 2);
            assert(orig.take(i + 1).drop_last() =~= orig.take(i as int));
            assert(orig.take(i + 1).last() == orig[i as int]);
        }
        let o = &store.overrides[i];
        if !(o.student == student && o.course == course) {
            let copy = PrerequisiteOverride {
                student: o.student,
                course: o.course,
                authority: o.authority,
                reason: o.reason.clone(),
                expires_at: match o.expires_at {
                    Option::Some(e) => Some(e),
                    Option::None => None,
                },
            };
            proof {
                assert(copy == orig[i as int]);
            }
            kept.push(copy);
        }
        i = i + 1;
    }
    proof {
        assert(orig.take(orig.len() as int) == orig);
    }
    store.overrides = kept;
}

/// Whether one stored override excuses `student` from `course` at time `now`.
pub open spec fn override_live(o: PrerequisiteOverride, student: u64, course: u64, now: u64) -> bool {
    &&& o.student == student
    &&& o.course == course
    &&& match o.expires_at {
        Option::None => true,
        Option::Some(e) => now <= e,
    }
}

/// Whether some stored override excuses `student` from `course` at `now`.
pub open spec fn spec_has_live_override(
    overrides: Seq<PrerequisiteOverride>,
    student: u64,
    course: u64,
    now: u64,
) -> bool {
    exists|i: int| 0 <= i < overrides.len() && override_live(#[trigger] overrides[i], student, course, now)
}

/// Whether one record is a live certificate of `course` held by `student`.
pub open spec fn cert_valid_for(
    r: crate::types::CertificateMetadata,
    student: u64,
    course: u64,
    now: u64,
) -> bool {
    &&& r.student_id == student
    &&& r.course_id == course
    &&& r.status == CertificateStatus::Active
    &&& now <= r.expiry_date
}

/// Whether `student` holds an active, unexpired certificate for `course`.
pub open spec fn spec_has_valid_cert(
    store: CertificateStore,
    student: u64,
    course: u64,
    now: u64,
) -> bool {
    exists|id: u64|
        #[trigger] store.certificates@.contains_key(id) && cert_valid_for(
            store.certificates@[id],
            student,
            course,
            now,
        )
}

/// Whether the requirement `course` is satisfied for `student` at `now`,
/// either by a live certificate or by a live override.
pub open spec fn spec_covered(store: CertificateStore, student: u64, course: u64, now: u64) -> bool {
    spec_has_valid_cert(store, student, course, now) || spec_has_live_override(
        store.overrides@,
        student,
        course,
        now,
    )
}

/// Decide [`spec_has_valid_cert`] by scanning the student's ownership index.
fn has_valid_certificate(store: &CertificateStore, student: u64, course: u64, now: u64) -> (b: bool)
    requires
        store.wf(),
    ensures
        b == spec_has_valid_cert(*store, student, course, now),
{
    match store.user_certificates.get(&student) {
        Option::None => {
            proof {
                assert forall|id: u64|
                    !(#[trigger] store.certificates@.contains_key(id) && cert_valid_for(
                        store.certificates@[id],
                        student,
                        course,
                        now,
                    )) by {
                    if store.certificates@.contains_key(id) && store.certificates@[id].student_id
                        == student {
                        assert(store.user_certificates@.contains_key(student));
                    }
                }
            }
            false
        },
        Option::Some(ids) => {
            let ghost idseq = ids@;
            let mut k: usize = 0;
            while k < ids.len()
                invariant
                    store.wf(),
                    store.user_certificates@.contains_key(student),
                    idseq == store.user_certificates@[student]@,
                    ids@ == idseq,
                    k <= ids@.len(),
                    forall|j: int|
                        0 <= j < k ==> !cert_valid_for(
                            store.certificates@[#[trigger] idseq[j]],
                            student,
                            course,
                            now,
                        ),
                decreases ids@.len() - k,
            {
                let id = ids[k];
                match store.certificates.get(&id) {
                    Option::Some(rec) => {
                        if rec.course_id == course && matches!(rec.status, CertificateStatus::Active)
                            && now <= rec.expiry_date {
                            proof {
                                assert(store.certificates@.contains_key(id));
                                assert(store.certificates@[id].student_id == student);
                            }
                            return true;
                        }
                    },
                    Option::None => {
                        proof {
                            assert(store.certificates@.contains_key(idseq[k as int]));
                            assert(false);
                        }
                    },
                }
                k = k + 1;
            }
            proof {
                assert forall|id: u64|
                    !(#[trigger] store.certificates@.contains_key(id) && cert_valid_for(
                        store.certificates@[id],
                        student,
                        course,
                        now,
                    )) by {
                    if store.certificates@.contains_key(id) && cert_valid_for(
                        store.certificates@[id],
                        student,
                        course,
                        now,
                    ) {
                        assert(idseq.contains(id));
                        let j = choose|j: int| 0 <= j < idseq.len() && idseq[j] == id;
                        assert(!cert_valid_for(store.certificates@[idseq[j]], student, course, now));
                    }
                }
            }
            false
        },
    }
}

/// Decide [`spec_has_live_override`] by scanning the override table.
fn has_live_override(store: &CertificateStore, student: u64, course: u64, now: u64) -> (b: bool)
    ensures
        b == spec_has_live_override(store.overrides@, student, course, now),
{
    let mut k: usize = 0;
    while k < store.overrides.len()
        invariant
            k <= store.overrides@.len(),
            forall|j: int|
                0 <= j < k ==> !override_live(#[trigger] store.overrides@[j], student, course, now),
        decreases store.overrides@.len() - k,
    {
        let o = &store.overrides[k];
        let live = o.student == student && o.course == course && match o.expires_at {
            Option::None => true,
            Option::Some(e) => now <= e,
        };
        if live {
            return true;
        }
        k = k + 1;
    }
    false
}

/// Whether the requirement list names `course`.
pub open spec fn viol_contains(s: Seq<PrerequisiteViolation>, course: u64) -> bool {
    exists|i: int| 0 <= i < s.len() && (#[trigger] s[i]).required_course == course
}

/// The requirement list is strictly increasing by course identifier, so each
/// course appears at most once and the list is canonical.
pub open spec fn viol_sorted(s: Seq<PrerequisiteViolation>) -> bool {
    forall|i: int, j: int|
        0 <= i < j < s.len() ==> (#[trigger] s[i]).required_course < (#[trigger] s[j]).required_course
}

/// Insert a new course into a sorted requirement list, keeping it sorted.
fn insert_violation(v: &mut Vec<PrerequisiteViolation>, course: u64)
    requires
        viol_sorted(old(v)@),
        !viol_contains(old(v)@, course),
    ensures
        viol_sorted(final(v)@),
        final(v)@.len() == old(v)@.len() + 1,
        forall|c: u64| viol_contains(final(v)@, c) <==> (viol_contains(old(v)@, c) || c == course),
{
    let ghost orig = v@;
    let mut k: usize = 0;
    while k < v.len() && v[k].required_course < course
        invariant
            v@ == orig,
            k <= v@.len(),
            forall|j: int| 0 <= j < k ==> (#[trigger] v@[j]).required_course < course,
        decreases v@.len() - k,
    {
        k = k + 1;
    }
    proof {
        if k < orig.len() {
            assert(orig[k as int].required_course != course) by {
                if orig[k as int].required_course == course {
                    assert(viol_contains(orig, course));
                }
            }
        }
    }
    v.insert(k, PrerequisiteViolation { required_course: course });
    proof {
        let now_v = v@;
        assert forall|i: int, j: int| 0 <= i < j < now_v.len() implies (#[trigger] now_v[i]).required_course
            < (#[trigger] now_v[j]).required_course by {
            if i < k && j < k {
            } else if i < k && j == k {
            } else if i < k && j > k {
                assert(now_v[j] == orig[j - 1]);
            } else if i == k {
                assert(now_v[j] == orig[j - 1]);
                assert(orig[j - 1].required_course >= course);
                assert(orig[j - 1].required_course != course) by {
                    if orig[j - 1].required_course == course {
                        assert(viol_contains(orig, course));
                    }
                }
            } else {
                assert(now_v[i] == orig[i - 1] && now_v[j] == orig[j - 1]);
            }
        }
        assert forall|c: u64| viol_contains(now_v, c) implies (viol_contains(orig, c) || c
            == course) by {
            let i = choose|i: int| 0 <= i < now_v.len() && (#[trigger] now_v[i]).required_course == c;
            if i < k {
                assert(orig[i].required_course == c);
            } else if i > k {
                assert(orig[i - 1].required_course == c);
            }
        }
        assert forall|c: u64| (viol_contains(orig, c) || c == course) implies viol_contains(
            now_v,
            c,
        ) by {
            if c == course {
                assert(now_v[k as int].required_course == c);
            } else {
                let i = choose|i: int| 0 <= i < orig.len() && (#[trigger] orig[i]).required_course == c;
                if i < k {
                    assert(now_v[i].required_course == c);
                } else {
                    assert(now_v[i + 1].required_course == c);
                }
            }
        }
    }
}

/// The full contract of an eligibility check: the requirement list is the
/// sorted enumeration of exactly those mandatory transitive prerequisites of
/// `course` that `student` does not cover at `now`, and `satisfied` holds
/// exactly when that list is empty.
pub open spec fn eligibility_result_matches(
    store: CertificateStore,
    student: u64,
    course: u64,
    now: u64,
    r: PrerequisiteCheckResult,
) -> bool {
    &&& viol_sorted(r.violations@)
    &&& forall|c: u64|
        #[trigger] viol_contains(r.violations@, c) <==> (c != course && reachable(
            store.prerequisites@,
            true,
            course,
            c,
        ) && !spec_covered(store, student, c, now))
    &&& r.satisfied <==> r.violations@.len() == 0
}

/// Compute the transitive closure of `course`'s mandatory prerequisites and
/// report every requirement `student` does not meet. A pure read: the result
/// is a function of the store contents and `now` alone.
pub fn check_eligibility(store: &CertificateStore, student: u64, course: u64, now: u64) -> (r:
    PrerequisiteCheckResult)
    requires
        store.wf(),
    ensures
        eligibility_result_matches(*store, student, course, now, r),
{
    let visited = reach_set(&store.prerequisites, true, course);
    let mut violations: Vec<PrerequisiteViolation> = Vec::new();
    let mut k: usize = 0;
    while k < visited.len()
        invariant
            store.wf(),
            k <= visited@.len(),
            visited@.no_duplicates(),
            forall|v: u64|
                visited@.contains(v) <==> reachable(store.prerequisites@, true, course, v),
            viol_sorted(violations@),
            forall|c: u64|
                #[trigger] viol_contains(violations@, c) <==> exists|j: int|
                    0 <= j < k && visited@[j] == c && c != course && !spec_covered(
                        *store,
                        student,
                        c,
                        now,
                    ),
        decreases visited@.len() - k,
    {
        let c = visited[k];
        if c != course {
            let covered_cert = has_valid_certificate(store, student, c, now);
            let covered_override = has_live_override(store, student, c, now);
            if !covered_cert && !covered_override {
                proof {
                    assert(!viol_contains(violations@, c)) by {
                        if viol_contains(violations@, c) {
                            let j = choose|j: int|
                                0 <= j < k && visited@[j] == c && c != course && !spec_covered(
                                    *store,
                                    student,
                                    c,
                                    now,
                                );
                            assert(visited@[j] == visited@[k as int]);
                        }
                    }
                }
                insert_violation(&mut violations, c);
            }
        }
        k = k + 1;
        proof {
            assert forall|c2: u64|
                #[trigger] viol_contains(violations@, c2) implies exists|j: int|
                    0 <= j < k && visited@[j] == c2 && c2 != course && !spec_covered(
                        *store,
                        student,
                        c2,
                        now,
                    ) by {
                if c2 != c || spec_covered(*store, student, c2, now) || c2 == course {
                    let j = choose|j: int|
                        0 <= j < k - 1 && visited@[j] == c2 && c2 != course && !spec_covered(
                            *store,
                            student,
                            c2,
                            now,
                        );
                    assert(0 <= j < k && visited@[j] == c2);
                } else {
                    assert(visited@[k - 1] == c2);
                }
            }
        }
    }
    let satisfied = violations.len() == 0;
    proof {
        assert forall|c: u64|
            #[trigger] viol_contains(violations@, c) <==> (c != course && reachable(
                store.prerequisites@,
                true,
                course,
                c,
            ) && !spec_covered(*store, student, c, now)) by {
            if viol_contains(violations@, c) {
                let j = choose|j: int|
                    0 <= j < visited@.len() && visited@[j] == c && c != course && !spec_covered(
                        *store,
                        student,
                        c,
                        now,
                    );
                assert(visited@.contains(c));
            }
            if c != course && reachable(store.prerequisites@, true, course, c) && !spec_covered(
                *store,
                student,
                c,
                now,
            ) {
                assert(visited@.contains(c));
                let j = choose|j: int| 0 <= j < visited@.len() && visited@[j] == c;
                assert(exists|j2: int|
                    0 <= j2 < visited@.len() && visited@[j2] == c && c != course && !spec_covered(
                        *store,
                        student,
                        c,
                        now,
                    ));
            }
        }
    }
    PrerequisiteCheckResult { satisfied, violations }
}

/// Whether every mandatory prerequisite of `v` already appears in `placed`.
fn all_targets_placed(edges: &Vec<CoursePrerequisite>, v: u64, placed: &Vec<u64>) -> (b: bool)
    ensures
        b <==> forall|w: u64| #[trigger] has_edge(edges@, true, v, w) ==> placed@.contains(w),
{
    let mut i: usize = 0;
    while i < edges.len()
        invariant
            i <= edges@.len(),
            forall|j: int|
                0 <= j < i && edge_matches(#[trigger] edges@[j], true, v, edges@[j].required_course)
                    ==> placed@.contains(edges@[j].required_course),
        decreases edges@.len() - i,
    {
        let e = edges[i];
        if e.course == v && e.mandatory {
            if !ids_contain(placed, e.required_course) {
                proof {
                    assert(has_edge(edges@, true, v, e.required_course)) by {
                        assert(edge_matches(edges@[i as int], true, v, e.required_course));
                    }
                }
                return false;
            }
        }
        i = i + 1;
    }
    proof {
        assert forall|w: u64| #[trigger] has_edge(edges@, true, v, w) implies placed@.contains(
            w,
        ) by {
            let j = choose|j: int| 0 <= j < edges@.len() && edge_matches(#[trigger] edges@[j], true, v, w);
            assert(edge_matches(edges@[j], true, v, edges@[j].required_course));
        }
    }
    true
}

/// Build the learning path for `course`: a topological ordering of the
/// transitive mandatory-prerequisite closure in which every course appears
/// after all of its mandatory prerequisites. The defensive `CycleDetected`
/// arm fires only if the stored graph is inconsistent, which the insertion
/// guard makes unreachable.
pub fn build_learning_path(edges: &Vec<CoursePrerequisite>, course: u64) -> (r: Result<
    LearningPath,
    CertificateError,
>)
    ensures
        match r {
            Ok(lp) => {
                &&& lp.course == course
                &&& lp.sequence@.no_duplicates()
                &&& forall|c: u64|
                    lp.sequence@.contains(c) <==> reachable(edges@, true, course, c)
                &&& forall|i: int, j: int|
                    0 <= i < lp.sequence@.len() && 0 <= j < lp.sequence@.len() && has_edge(
                        edges@,
                        true,
                        lp.sequence@[i],
                        lp.sequence@[j],
                    ) ==> j < i
            },
            Err(e) => e == CertificateError::CycleDetected,
        },
{
    let mut remaining = reach_set(edges, true, course);
    let mut placed: Vec<u64> = Vec::new();
    while remaining.len() > 0
        invariant
            remaining@.no_duplicates(),
            placed@.no_duplicates(),
            forall|v: u64| !(placed@.contains(v) && remaining@.contains(v)),
            forall|v: u64|
                (placed@.contains(v) || remaining@.contains(v)) <==> reachable(
                    edges@,
                    true,
                    course,
                    v,
                ),
            forall|i: int, w: u64|
                0 <= i < placed@.len() && #[trigger] has_edge(edges@, true, placed@[i], w)
                    ==> exists|j: int| 0 <= j < i && placed@[j] == w,
        decreases remaining@.len(),
    {
        let mut k: usize = 0;
        let mut found = false;
        let mut sel: usize = 0;
        while k < remaining.len()
            invariant
                k <= remaining@.len(),
                found ==> sel < remaining@.len() && (forall|w: u64|
                    #[trigger] has_edge(edges@, true, remaining@[sel as int], w)
                        ==> placed@.contains(w)),
                !found ==> forall|j: int|
                    0 <= j < k ==> exists|w: u64|
                        has_edge(edges@, true, #[trigger] remaining@[j], w) && !placed@.contains(w),
            decreases remaining@.len() - k,
        {
            if !found {
                if all_targets_placed(edges, remaining[k], &placed) {
                    found = true;
                    sel = k;
                }
            }
            k = k + 1;
        }
        if !found {
            return Err(CertificateError::CycleDetected);
        }
        let ghost pre_rem = remaining@;
        let ghost pre_placed = placed@;
        let v = remaining[sel];
        remaining.remove(sel);
        placed.push(v);
        proof {
            let rem = remaining@;
            assert forall|x: u64| rem.contains(x) implies (pre_rem.contains(x) && x != v) by {
                let p = choose|p: int| 0 <= p < rem.len() && rem[p] == x;
                if p < sel {
                    assert(pre_rem[p] == x);
                } else {
                    assert(pre_rem[p + 1] == x);
                }
            }
            assert forall|x: u64| pre_rem.contains(x) && x != v implies rem.contains(x) by {
                let p = choose|p: int| 0 <= p < pre_rem.len() && pre_rem[p] == x;
                if p < sel {
                    assert(rem[p] == x);
                } else {
                    assert(p != sel);
                    assert(rem[p - 1] == x);
                }
            }
            assert forall|x: u64| pre_placed.contains(x) implies placed@.contains(x) by {
                let p = choose|p: int| 0 <= p < pre_placed.len() && pre_placed[p] == x;
                assert(placed@[p] == x);
            }
            assert(placed@.contains(v)) by {
                assert(placed@[placed@.len() - 1] == v);
            }
            assert(pre_rem.contains(v)) by {
                assert(pre_rem[sel as int] == v);
            }
            assert forall|x: u64| placed@.contains(x) implies (pre_placed.contains(x) || x == v) by {
                let p = choose|p: int| 0 <= p < placed@.len() && placed@[p] == x;
                if p < pre_placed.len() {
                    assert(pre_placed[p] == x);
                }
            }
            assert forall|x: u64| (pre_placed.contains(x) || pre_rem.contains(x)) implies (
                placed@.contains(x) || remaining@.contains(x)) by {
                if pre_rem.contains(x) && x != v {
                    assert(remaining@.contains(x));
                }
            }
            assert forall|x: u64|
                (placed@.contains(x) || remaining@.contains(x)) <==> reachable(
                    edges@,
                    true,
                    course,
                    x,
                ) by {
                assert((pre_placed.contains(x) || pre_rem.contains(x)) <==> reachable(
                    edges@,
                    true,
                    course,
                    x,
                ));
            }
            assert forall|i: int, w: u64|
                0 <= i < placed@.len() && #[trigger] has_edge(edges@, true, placed@[i], w)
                    implies exists|j: int| 0 <= j < i && placed@[j] == w by {
                if i < pre_placed.len() {
                    assert(pre_placed[i] == placed@[i]);
                    let j = choose|j: int| 0 <= j < i && pre_placed[j] == w;
                    assert(placed@[j] == w);
                } else {
                    assert(placed@[i] == v);
                    assert(pre_placed.contains(w));
                    let j = choose|j: int| 0 <= j < pre_placed.len() && pre_placed[j] == w;
                    assert(placed@[j] == w);
                }
            }
        }
    }
    proof {
        assert forall|i: int, j: int|
            0 <= i < placed@.len() && 0 <= j < placed@.len() && has_edge(
                edges@,
                true,
                placed@[i],
                placed@[j],
            ) implies j < i by {
            let j2 = choose|j2: int| 0 <= j2 < i && placed@[j2] == placed@[j];
            if j2 != j {
                assert(false);
            }
        }
    }
    Ok(LearningPath { course, sequence: placed })
}

/// Two sorted requirement lists naming the same courses are the same list:
/// the sorted form is canonical.
pub proof fn lemma_sorted_violations_unique(a: Seq<PrerequisiteViolation>, b: Seq<PrerequisiteViolation>)
    requires
        viol_sorted(a),
        viol_sorted(b),
        forall|c: u64| viol_contains(a, c) <==> viol_contains(b, c),
    ensures
        a == b,
    decreases a.len(),
{
    if a.len() == 0 {
        if b.len() > 0 {
            assert(viol_contains(b, b[0].required_course));
            let i = choose|i: int| 0 <= i < a.len() && (#[trigger] a[i]).required_course == b[0].required_course;
            assert(false);
        }
        assert(a =~= b);
    } else if b.len() == 0 {
        assert(viol_contains(a, a[0].required_course));
        let i = choose|i: int| 0 <= i < b.len() && (#[trigger] b[i]).required_course == a[0].required_course;
        assert(false);
    } else {
        assert(viol_contains(a, a[0].required_course));
        let i = choose|i: int| 0 <= i < b.len() && (#[trigger] b[i]).required_course == a[0].required_course;
        assert(viol_contains(b, b[0].required_course));
        let j = choose|j: int| 0 <= j < a.len() && (#[trigger] a[j]).required_course == b[0].required_course;
        assert(a[0].required_course == b[0].required_course) by {
            if i > 0 {
                assert(b[0].required_course < b[i].required_course);
            }
            if j > 0 {
                assert(a[0].required_course < a[j].required_course);
            }
        }
        let at = a.drop_first();
        let bt = b.drop_first();
        assert forall|c: u64| viol_contains(at, c) implies viol_contains(bt, c) by {
            let p = choose|p: int| 0 <= p < at.len() && (#[trigger] at[p]).required_course == c;
            assert(a[p + 1].required_course == c);
            assert(a[0].required_course < c);
            assert(viol_contains(a, c));
            let q = choose|q: int| 0 <= q < b.len() && (#[trigger] b[q]).required_course == c;
            assert(q > 0) by {
                if q == 0 {
                    assert(b[0].required_course == c);
                }
            }
            assert(bt[q - 1].required_course == c);
        }
        assert forall|c: u64| viol_contains(bt, c) implies viol_contains(at, c) by {
            let p = choose|p: int| 0 <= p < bt.len() && (#[trigger] bt[p]).required_course == c;
            assert(b[p + 1].required_course == c);
            assert(b[0].required_course < c);
            assert(viol_contains(b, c));
            let q = choose|q: int| 0 <= q < a.len() && (#[trigger] a[q]).required_course == c;
            assert(q > 0) by {
                if q == 0 {
                    assert(a[0].required_course == c);
                }
            }
            assert(at[q - 1].required_course == c);
        }
        lemma_sorted_violations_unique(at, bt);
        assert(a =~= b) by {
            assert(a[0] == b[0]);
            assert(forall|p: int| 1 <= p < a.len() ==> a[p] == at[p - 1] && b[p] == bt[p - 1]);
        }
    }
}

/// Eligibility checking is pure: any two results that satisfy the check's
/// contract against the same store, student, course, and time are equal.
pub proof fn lemma_check_eligibility_deterministic(
    store: CertificateStore,
    student: u64,
    course: u64,
    now: u64,
    r1: PrerequisiteCheckResult,
    r2: PrerequisiteCheckResult,
)
    requires
        eligibility_result_matches(store, student, course, now, r1),
        eligibility_result_matches(store, student, course, now, r2),
    ensures
        r1.satisfied == r2.satisfied,
        r1.violations@ == r2.violations@,
{
    lemma_sorted_violations_unique(r1.violations@, r2.violations@);
}

} // verus!
