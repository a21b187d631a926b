use vstd::prelude::*;
use crate::project::{Project, without_task};
use crate::task::Task;

verus! {

/// The identifiers of `tasks`, in order.
pub open spec fn ids_of(tasks: Seq<Task>) -> Seq<u32> {
    tasks.map_values(|t: Task| t.id)
}

/// The identifiers of `ps`, in order.
pub open spec fn project_ids(ps: Seq<Project>) -> Seq<u32> {
    ps.map_values(|p: Project| p.id)
}

/// `(a, k)` names the `k`-th task of the `a`-th project.
pub open spec fn is_task_pos(ps: Seq<Project>, a: int, k: int) -> bool {
    0 <= a < ps.len() && 0 <= k < ps[a].tasks@.len()
}

pub open spec fn unique_project_ids(ps: Seq<Project>) -> bool {
    forall|a: int, b: int|
        0 <= a < ps.len() && 0 <= b < ps.len() && a != b ==> #[trigger] ps[a].id
            != #[trigger] ps[b].id
}

/// No two tasks of the whole collection share an identifier.
pub open spec fn unique_task_ids(ps: Seq<Project>) -> bool {
    forall|a: int, k: int, b: int, l: int|
        is_task_pos(ps, a, k) && is_task_pos(ps, b, l) && (a != b || k != l)
            ==> #[trigger] ps[a].tasks@[k].id != #[trigger] ps[b].tasks@[l].id
}

/// Every task identifier of the collection is below `bound`.
pub open spec fn task_ids_below(ps: Seq<Project>, bound: int) -> bool {
    forall|a: int, k: int| is_task_pos(ps, a, k) ==> #[trigger] ps[a].tasks@[k].id < bound
}

pub open spec fn is_current_at(ps: Seq<Project>, a: int) -> bool {
    0 <= a < ps.len() && ps[a].is_current
}

/// Exactly one project is marked current.
pub open spec fn one_current(ps: Seq<Project>) -> bool {
    &&& exists|a: int| #[trigger] is_current_at(ps, a)
    &&& forall|a: int, b: int|
        #[trigger] is_current_at(ps, a) && #[trigger] is_current_at(ps, b) ==> a == b
}

/// The position of the project marked current.
pub open spec fn current_index(ps: Seq<Project>) -> int {
    choose|a: int| is_current_at(ps, a)
}

/// A collection the controller can work on: non-empty, one current project,
/// identifiers unique, and every task identifier leaves room for a successor.
pub open spec fn valid_collection(ps: Seq<Project>) -> bool {
    &&& ps.len() > 0
    &&& unique_project_ids(ps)
    &&& unique_task_ids(ps)
    &&& one_current(ps)
    &&& task_ids_below(ps, u32::MAX as int)
}

pub proof fn lemma_current_index(ps: Seq<Project>)
    requires
        one_current(ps),
    ensures
        is_current_at(ps, current_index(ps)),
        forall|a: int| #[trigger] is_current_at(ps, a) ==> a == current_index(ps),
{
}

/// `q` has the projects of `p` with the same identifiers, and in each the
/// same number of tasks with the same identifiers.
pub open spec fn same_ids(p: Seq<Project>, q: Seq<Project>) -> bool {
    &&& p.len() == q.len()
    &&& forall|a: int|
        0 <= a < p.len() ==> #[trigger] q[a].id == p[a].id && q[a].tasks@.len()
            == p[a].tasks@.len()
    &&& forall|a: int, k: int|
        is_task_pos(p, a, k) ==> #[trigger] q[a].tasks@[k].id == p[a].tasks@[k].id
}

pub proof fn lemma_same_ids(p: Seq<Project>, q: Seq<Project>, bound: int)
    requires
        same_ids(p, q),
    ensures
        unique_project_ids(p) ==> unique_project_ids(q),
        unique_task_ids(p) ==> unique_task_ids(q),
        task_ids_below(p, bound) ==> task_ids_below(q, bound),
{
    assert forall|a: int, k: int| is_task_pos(q, a, k) implies is_task_pos(p, a, k)
        && #[trigger] q[a].tasks@[k].id == p[a].tasks@[k].id by {
        assert(q[a].id == p[a].id);
    }
    if unique_project_ids(p) {
        assert forall|a: int, b: int|
            0 <= a < q.len() && 0 <= b < q.len() && a != b implies #[trigger] q[a].id
            != #[trigger] q[b].id by {
            assert(p[a].id != p[b].id);
        }
    }
    if unique_task_ids(p) {
        assert forall|a: int, k: int, b: int, l: int|
            is_task_pos(q, a, k) && is_task_pos(q, b, l) && (a != b || k != l)
                implies #[trigger] q[a].tasks@[k].id != #[trigger] q[b].tasks@[l].id by {
            assert(q[a].id == p[a].id && q[b].id == p[b].id);
            assert(p[a].tasks@[k].id != p[b].tasks@[l].id);
        }
    }
    if task_ids_below(p, bound) {
        assert forall|a: int, k: int| is_task_pos(q, a, k) implies #[trigger] q[a].tasks@[k].id
            < bound by {
            assert(q[a].id == p[a].id);
            assert(p[a].tasks@[k].id < bound);
        }
    }
}

/// `q` has the projects of `p` with the same identifiers and current flags.
pub open spec fn same_flags(p: Seq<Project>, q: Seq<Project>) -> bool {
    &&& p.len() == q.len()
    &&& forall|a: int| 0 <= a < p.len() ==> same_flag(#[trigger] q[a], p[a])
}

pub open spec fn same_flag(x: Project, y: Project) -> bool {
    x.is_current == y.is_current && x.id == y.id
}

pub proof fn lemma_same_flags(p: Seq<Project>, q: Seq<Project>)
    requires
        same_flags(p, q),
        one_current(p),
    ensures
        one_current(q),
        current_index(q) == current_index(p),
        unique_project_ids(p) ==> unique_project_ids(q),
{
    lemma_current_index(p);
    let c = current_index(p);
    assert(same_flag(q[c], p[c]));
    assert(is_current_at(q, c));
    assert forall|a: int, b: int|
        #[trigger] is_current_at(q, a) && #[trigger] is_current_at(q, b) implies a == b by {
        assert(same_flag(q[a], p[a]) && same_flag(q[b], p[b]));
        assert(is_current_at(p, a) && is_current_at(p, b));
    }
    lemma_current_index(q);
    if unique_project_ids(p) {
        assert forall|a: int, b: int|
            0 <= a < q.len() && 0 <= b < q.len() && a != b implies #[trigger] q[a].id
            != #[trigger] q[b].id by {
            assert(same_flag(q[a], p[a]) && same_flag(q[b], p[b]));
        }
    }
}

/// No two tasks of `tasks` share an identifier.
pub open spec fn distinct_ids(tasks: Seq<Task>) -> bool {
    forall|k: int, l: int|
        0 <= k < tasks.len() && 0 <= l < tasks.len() && k != l ==> #[trigger] tasks[k].id
            != #[trigger] tasks[l].id
}

pub proof fn lemma_without_task(s: Seq<Task>, id: u32)
    ensures
        forall|i: int|
            0 <= i < without_task(s, id).len() ==> s.contains(#[trigger] without_task(s, id)[i]),
        distinct_ids(s) ==> distinct_ids(without_task(s, id)),
    decreases s.len(),
{
    let f = without_task(s, id);
    assert forall|i: int| 0 <= i < f.len() implies s.contains(#[trigger] f[i]) by {
        assert(f.contains(f[i]));
        s.lemma_filter_contains_rev(|t: Task| t.id != id, f[i]);
    }
    if s.len() > 0 && distinct_ids(s) {
        let r = s.drop_last();
        lemma_without_task(r, id);
        assert(distinct_ids(r)) by {
            assert forall|k: int, l: int|
                0 <= k < r.len() && 0 <= l < r.len() && k != l implies #[trigger] r[k].id
                != #[trigger] r[l].id by {
                assert(r[k] == s[k] && r[l] == s[l]);
            }
        }
        let g = without_task(r, id);
        assert(f == if s.last().id != id {
            g.push(s.last())
        } else {
            g
        }) by {
            reveal(Seq::filter);
        }
        if s.last().id != id {
            assert forall|k: int, l: int|
                0 <= k < f.len() && 0 <= l < f.len() && k != l implies #[trigger] f[k].id
                != #[trigger] f[l].id by {
                if k == g.len() || l == g.len() {
                    let m = if k == g.len() {
                        l
                    } else {
                        k
                    };
                    assert(f[m] == g[m]);
                    assert(r.contains(g[m]));
                    let j = choose|j: int| 0 <= j < r.len() && r[j] == g[m];
                    assert(s[j] == r[j]);
                    assert(s[j].id != s[s.len() - 1].id);
                } else {
                    assert(f[k] == g[k] && f[l] == g[l]);
                }
            }
        }
    }
}

/// `q` is `p` with the tasks of project `c` replaced by tasks that already
/// stood there, pairwise distinct.
pub proof fn lemma_replace_tasks(p: Seq<Project>, q: Seq<Project>, c: int, bound: int)
    requires
        0 <= c < p.len(),
        q.len() == p.len(),
        forall|a: int| 0 <= a < p.len() && a != c ==> #[trigger] q[a] == p[a],
        forall|i: int| 0 <= i < q[c].tasks@.len() ==> p[c].tasks@.contains(#[trigger] q[c].tasks@[i]),
        distinct_ids(q[c].tasks@),
    ensures
        unique_task_ids(p) ==> unique_task_ids(q),
        task_ids_below(p, bound) ==> task_ids_below(q, bound),
{
    // Every task position of `q` has a position of `p` holding the same task.
    assert forall|a: int, k: int| is_task_pos(q, a, k) implies exists|k2: int|
        is_task_pos(p, a, k2) && #[trigger] p[a].tasks@[k2] == q[a].tasks@[k] by {
        if a == c {
            assert(p[c].tasks@.contains(q[c].tasks@[k]));
        } else {
            assert(q[a] == p[a]);
            assert(p[a].tasks@[k] == q[a].tasks@[k]);
        }
    }
    if unique_task_ids(p) {
        assert forall|a: int, k: int, b: int, l: int|
            is_task_pos(q, a, k) && is_task_pos(q, b, l) && (a != b || k != l)
                implies #[trigger] q[a].tasks@[k].id != #[trigger] q[b].tasks@[l].id by {
            if a == c && b == c {
            } else {
                let k2 = choose|k2: int|
                    is_task_pos(p, a, k2) && #[trigger] p[a].tasks@[k2] == q[a].tasks@[k];
                let l2 = choose|l2: int|
                    is_task_pos(p, b, l2) && #[trigger] p[b].tasks@[l2] == q[b].tasks@[l];
                assert(p[a].tasks@[k2].id != p[b].tasks@[l2].id);
            }
        }
    }
    if task_ids_below(p, bound) {
        assert forall|a: int, k: int| is_task_pos(q, a, k) implies #[trigger] q[a].tasks@[k].id
            < bound by {
            let k2 = choose|k2: int|
                is_task_pos(p, a, k2) && #[trigger] p[a].tasks@[k2] == q[a].tasks@[k];
            assert(p[a].tasks@[k2].id < bound);
        }
    }
}

/// `q` is `p` with task `t` appended to project `c`, where `t`'s identifier
/// is above every identifier of `p`.
pub proof fn lemma_push_task(p: Seq<Project>, q: Seq<Project>, c: int, t: Task)
    requires
        0 <= c < p.len(),
        q.len() == p.len(),
        forall|a: int| 0 <= a < p.len() && a != c ==> #[trigger] q[a] == p[a],
        q[c].tasks@ == p[c].tasks@.push(t),
        task_ids_below(p, t.id as int),
    ensures
        unique_task_ids(p) ==> unique_task_ids(q),
        task_ids_below(q, t.id + 1),
{
    assert forall|a: int, k: int| is_task_pos(q, a, k) implies (a == c && k == p[c].tasks@.len()
        && q[a].tasks@[k] == t) || (is_task_pos(p, a, k) && #[trigger] q[a].tasks@[k]
        == p[a].tasks@[k]) by {
        if a != c {
            assert(q[a] == p[a]);
        }
    }
    if unique_task_ids(p) {
        assert forall|a: int, k: int, b: int, l: int|
            is_task_pos(q, a, k) && is_task_pos(q, b, l) && (a != b || k != l)
                implies #[trigger] q[a].tasks@[k].id != #[trigger] q[b].tasks@[l].id by {
            if a == c && k == p[c].tasks@.len() {
                assert(is_task_pos(p, b, l));
                assert(q[b].tasks@[l] == p[b].tasks@[l]);
                assert(p[b].tasks@[l].id < t.id);
            } else if b == c && l == p[c].tasks@.len() {
                assert(q[a].tasks@[k] == p[a].tasks@[k]);
                assert(p[a].tasks@[k].id < t.id);
            } else {
                assert(q[a].tasks@[k] == p[a].tasks@[k]);
                assert(q[b].tasks@[l] == p[b].tasks@[l]);
            }
        }
    }
    assert forall|a: int, k: int| is_task_pos(q, a, k) implies #[trigger] q[a].tasks@[k].id
        < t.id + 1 by {
        if !(a == c && k == p[c].tasks@.len()) {
            assert(q[a].tasks@[k] == p[a].tasks@[k]);
            assert(p[a].tasks@[k].id < t.id);
        }
    }
}

/// `(a2, k2)` is a task position met before position `(a, k)` in a walk
/// over the collection.
spec fn visited(ps: Seq<Project>, a2: int, k2: int, a: int, k: int) -> bool {
    is_task_pos(ps, a2, k2) && (a2 < a || (a2 == a && k2 < k))
}

/// Some task met before position `(a, k)` has identifier `x`.
spec fn witnessed(ps: Seq<Project>, x: u32, a: int, k: int) -> bool {
    exists|a2: int, k2: int| visited(ps, a2, k2, a, k) && #[trigger] ps[a2].tasks@[k2].id == x
}

fn contains_id(v: &Vec<u32>, x: u32) -> (r: bool)
    ensures
        r == v@.contains(x),
{
    let mut i: usize = 0;
    while i < v.len()
        invariant
            0 <= i <= v@.len(),
            forall|p: int| 0 <= p < i ==> v@[p] != x,
        decreases v@.len() - i,
    {
        if v[i] == x {
            return true;
        }
        i = i + 1;
    }
    false
}

fn project_ids_unique(ps: &Vec<Project>) -> (r: bool)
    ensures
        r == unique_project_ids(ps@),
{
    let mut i: usize = 0;
    while i < ps.len()
        invariant
            0 <= i <= ps@.len(),
            forall|a: int, b: int|
                0 <= a < i && 0 <= b < i && a != b ==> #[trigger] ps@[a].id
                    != #[trigger] ps@[b].id,
        decreases ps@.len() - i,
    {
        let mut j: usize = 0;
        while j < i
            invariant
                0 <= j <= i < ps@.len(),
                forall|a: int, b: int|
                    0 <= a < i && 0 <= b < i && a != b ==> #[trigger] ps@[a].id
                        != #[trigger] ps@[b].id,
                forall|b: int| 0 <= b < j ==> ps@[i as int].id != #[trigger] ps@[b].id,
            decreases i - j,
        {
            if ps[i].id == ps[j].id {
                return false;
            }
            j = j + 1;
        }
        i = i + 1;
    }
    true
}

fn exactly_one_current(ps: &Vec<Project>) -> (r: bool)
    ensures
        r == one_current(ps@),
{
    let mut found: Option<usize> = None;
    let mut i: usize = 0;
    while i < ps.len()
        invariant
            0 <= i <= ps@.len(),
            found is None ==> forall|a: int| 0 <= a < i ==> !#[trigger] is_current_at(ps@, a),
            found matches Some(f) ==> f < i && is_current_at(ps@, f as int) && forall|a: int|
                0 <= a < i && #[trigger] is_current_at(ps@, a) ==> a == f,
        decreases ps@.len() - i,
    {
        if ps[i].is_current {
            if let Some(f) = found {
                assert(is_current_at(ps@, f as int) && is_current_at(ps@, i as int));
                return false;
            }
            found = Some(i);
        }
        i = i + 1;
    }
    found.is_some()
}

fn task_ids_sound(ps: &Vec<Project>) -> (r: bool)
    ensures
        r == (unique_task_ids(ps@) && task_ids_below(ps@, u32::MAX as int)),
{
    let ghost s = ps@;
    let mut seen: Vec<u32> = Vec::new();
    let mut a: usize = 0;
    while a < ps.len()
        invariant
            0 <= a <= s.len(),
            s == ps@,
            forall|a2: int, k2: int|
                visited(s, a2, k2, a as int, 0) ==> #[trigger] s[a2].tasks@[k2].id < u32::MAX
                    && seen@.contains(s[a2].tasks@[k2].id),
            forall|p: int| 0 <= p < seen@.len() ==> witnessed(s, #[trigger] seen@[p], a as int, 0),
            forall|a2: int, k2: int, b2: int, l2: int|
                visited(s, a2, k2, a as int, 0) && visited(s, b2, l2, a as int, 0) && (a2 != b2
                    || k2 != l2) ==> #[trigger] s[a2].tasks@[k2].id
                    != #[trigger] s[b2].tasks@[l2].id,
        decreases s.len() - a,
    {
        let mut k: usize = 0;
        while k < ps[a].tasks.len()
            invariant
                0 <= a < s.len(),
                0 <= k <= s[a as int].tasks@.len(),
                s == ps@,
                forall|a2: int, k2: int|
                    visited(s, a2, k2, a as int, k as int) ==> #[trigger] s[a2].tasks@[k2].id
                        < u32::MAX && seen@.contains(s[a2].tasks@[k2].id),
                forall|p: int|
                    0 <= p < seen@.len() ==> witnessed(s, #[trigger] seen@[p], a as int, k as int),
                forall|a2: int, k2: int, b2: int, l2: int|
                    visited(s, a2, k2, a as int, k as int) && visited(s, b2, l2, a as int, k as int)
                        && (a2 != b2 || k2 != l2) ==> #[trigger] s[a2].tasks@[k2].id
                        != #[trigger] s[b2].tasks@[l2].id,
            decreases s[a as int].tasks@.len() - k,
        {
            let x = ps[a].tasks[k].id;
            if x == u32::MAX {
                assert(is_task_pos(s, a as int, k as int));
                return false;
            }
            if contains_id(&seen, x) {
                let ghost p = choose|p: int| 0 <= p < seen@.len() && seen@[p] == x;
                assert(witnessed(s, seen@[p], a as int, k as int));
                assert(is_task_pos(s, a as int, k as int));
                return false;
            }
            let ghost old_seen = seen@;
            seen.push(x);
            proof {
                assert forall|p: int| 0 <= p < seen@.len() implies witnessed(
                    s,
                    #[trigger] seen@[p],
                    a as int,
                    k + 1,
                ) by {
                    if p < old_seen.len() {
                        assert(old_seen[p] == seen@[p]);
                        let (a2, k2) = choose|a2: int, k2: int|
                            visited(s, a2, k2, a as int, k as int) && #[trigger] s[a2].tasks@[k2].id
                                == old_seen[p];
                        assert(witnessed(s, old_seen[p], a as int, k as int));
                        assert(visited(s, a2, k2, a as int, k + 1));
                    } else {
                        assert(visited(s, a as int, k as int, a as int, k + 1));
                        assert(s[a as int].tasks@[k as int].id == seen@[p]);
                    }
                }
                assert forall|a2: int, k2: int|
                    visited(s, a2, k2, a as int, k + 1) implies #[trigger] s[a2].tasks@[k2].id
                    < u32::MAX && seen@.contains(s[a2].tasks@[k2].id) by {
                    if a2 == a && k2 == k {
                        assert(seen@[old_seen.len() as int] == x);
                    } else {
                        let q = choose|q: int|
                            0 <= q < old_seen.len() && old_seen[q] == s[a2].tasks@[k2].id;
                        assert(seen@[q] == old_seen[q]);
                    }
                }
            }
            k = k + 1;
        }
        proof {
            assert forall|a2: int, k2: int|
                visited(s, a2, k2, a + 1, 0) <==> visited(s, a2, k2, a as int, k as int) by {}
            assert forall|x: u32|
                witnessed(s, x, a as int, k as int) implies witnessed(s, x, a + 1, 0) by {
                let (a2, k2) = choose|a2: int, k2: int|
                    visited(s, a2, k2, a as int, k as int) && #[trigger] s[a2].tasks@[k2].id == x;
                assert(visited(s, a2, k2, a + 1, 0));
            }
        }
        a = a + 1;
    }
    proof {
        assert forall|a2: int, k2: int|
            is_task_pos(s, a2, k2) <==> visited(s, a2, k2, a as int, 0) by {}
    }
    true
}

/// Whether a loaded collection satisfies every rule of `valid_collection`.
pub fn collection_is_valid(ps: &Vec<Project>) -> (r: bool)
    ensures
        r == valid_collection(ps@),
{
    ps.len() > 0 && project_ids_unique(ps) && exactly_one_current(ps) && task_ids_sound(ps)
}

} // verus!
