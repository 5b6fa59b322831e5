//! The order of the link list: when the dependencies seen by the link
//! traversal have no cycle, each listed target (except a whitebox test put
//! in its source's place) comes after every target it depends on.

use vstd::prelude::*;

use super::link_core::{expands, link_kid, link_state_ok, reached, resolve, whitebox, LinkScope, TargetMarks};
use super::traversal::source;
use crate::model::{BuildTarget, PackageId, TargetKind};

verus! {

/// `z` stands for a target visited from a reached, expanded target that
/// `y` stands for.
pub open spec fn link_edge(s: LinkScope, y: BuildTarget, z: BuildTarget) -> bool {
    exists|x: BuildTarget, c: BuildTarget|
        #[trigger] link_kid(s, x, c) && reached(s, x) && expands(s, x) && resolve(s, x) == y && expands(s, c)
            && resolve(s, c) == z
}

/// `path` follows link edges from its first target to its last.
pub open spec fn link_chain(s: LinkScope, path: Seq<BuildTarget>) -> bool {
    &&& path.len() >= 2
    &&& forall|i: int| 0 <= i < path.len() - 1 ==> #[trigger] link_edge(s, path[i], path[i + 1])
}

/// Whether `b` is reached from `a` through at least one link edge.
pub open spec fn link_reaches(s: LinkScope, a: BuildTarget, b: BuildTarget) -> bool {
    exists|path: Seq<BuildTarget>| #[trigger] link_chain(s, path) && path[0] == a && path.last() == b
}

/// No target reaches itself through link edges.
pub open spec fn link_acyclic(s: LinkScope) -> bool {
    forall|y: BuildTarget| !#[trigger] link_reaches(s, y, y)
}

/// `z`, or its package's whitebox test in its place, is listed before
/// position `i`.
pub open spec fn listed_before(list: Seq<BuildTarget>, i: int, z: BuildTarget) -> bool {
    exists|k: int|
        0 <= k < i && (#[trigger] list[k] == z || (z.kind == TargetKind::Source && list[k] == whitebox(
            z.package,
        )))
}

/// The stack entry `e` stands for `z`: a marker of `z`, or a target still to
/// visit that stands for `z`.
pub open spec fn entry_stands_for(s: LinkScope, e: (BuildTarget, bool), z: BuildTarget) -> bool {
    if e.1 {
        e.0 == z
    } else {
        expands(s, e.0) && resolve(s, e.0) == z
    }
}

/// `a` reaches what the stack entry `e` stands for.
pub open spec fn entry_reached_from(s: LinkScope, a: BuildTarget, e: (BuildTarget, bool)) -> bool {
    if e.1 {
        link_reaches(s, a, e.0)
    } else {
        expands(s, e.0) ==> link_reaches(s, a, resolve(s, e.0))
    }
}

/// What the traversal keeps true of the order, without cycles: each
/// unfinished marker's dependencies are finished, still to come above it, or
/// marked at or below it; each marker reaches everything above it; and each
/// listed target but a whitebox test follows its dependencies.
pub open spec fn link_order_ok(
    s: LinkScope,
    emitted: TargetMarks,
    t: Seq<(BuildTarget, bool)>,
    list: Seq<BuildTarget>,
) -> bool {
    link_acyclic(s) ==> {
        &&& forall|k: int, z: BuildTarget|
            0 <= k < t.len() && (#[trigger] t[k]).1 && !emitted.has(t[k].0) && #[trigger] link_edge(s, t[k].0, z)
                ==> emitted.has(z) || (exists|j: int| k < j < t.len() && #[trigger] entry_stands_for(s, t[j], z))
                || (exists|j: int| 0 <= j <= k && #[trigger] t[j] == (z, true))
        &&& forall|j: int, k: int| 0 <= j < k < t.len() && (#[trigger] t[j]).1 ==> #[trigger] entry_reached_from(s, t[j].0, t[k])
        &&& forall|i: int, z: BuildTarget|
            0 <= i < list.len() && (#[trigger] list[i]).kind != TargetKind::WhiteboxTest && #[trigger] link_edge(s, list[i], z)
                ==> listed_before(list, i, z)
    }
}

proof fn lemma_reaches_edge(s: LinkScope, a: BuildTarget, b: BuildTarget, c: BuildTarget)
    requires
        link_reaches(s, a, b),
        link_edge(s, b, c),
    ensures
        link_reaches(s, a, c),
{
    let path = choose|path: Seq<BuildTarget>| #[trigger] link_chain(s, path) && path[0] == a && path.last() == b;
    let p2 = path.push(c);
    assert forall|i: int| 0 <= i < p2.len() - 1 implies #[trigger] link_edge(s, p2[i], p2[i + 1]) by {
        if i < path.len() - 1 {
            assert(p2[i] == path[i] && p2[i + 1] == path[i + 1]);
        } else {
            assert(p2[i] == b && p2[i + 1] == c);
        }
    }
    assert(link_chain(s, p2));
}

proof fn lemma_edge_reaches(s: LinkScope, a: BuildTarget, b: BuildTarget)
    requires
        link_edge(s, a, b),
    ensures
        link_reaches(s, a, b),
{
    let path = seq![a, b];
    assert(link_edge(s, path[0int], path[0int + 1]));
    assert(link_chain(s, path));
}

/// A link edge between packages of the result leads to a package of the
/// result.
proof fn lemma_edge_valid(
    s: LinkScope,
    n: nat,
    native: bool,
    visited: TargetMarks,
    emitted: TargetMarks,
    t: Seq<(BuildTarget, bool)>,
    list: Seq<BuildTarget>,
    stubs: Seq<PackageId>,
    y: BuildTarget,
    z: BuildTarget,
)
    requires
        link_state_ok(s, n, native, visited, emitted, t, list, stubs),
        link_edge(s, y, z),
    ensures
        z.package.0 < n,
{
    let (x, c) = choose|x: BuildTarget, c: BuildTarget|
        #[trigger] link_kid(s, x, c) && reached(s, x) && expands(s, x) && resolve(s, x) == y && expands(s, c)
            && resolve(s, c) == z;
    assert(c.package.0 < n);
    if s.overrides.contains_key(c.package) {
        assert(s.overrides[c.package].0 < n);
    }
}

/// The order facts hold at the start, with only the linked target to visit.
pub proof fn lemma_order_start(s: LinkScope, emitted: TargetMarks, t: Seq<(BuildTarget, bool)>)
    requires
        t.len() == 1,
        !t[0].1,
    ensures
        link_order_ok(s, emitted, t, Seq::empty()),
{
}

/// Popping a target that was visited already keeps the order facts.
pub proof fn lemma_order_pop_visited(
    s: LinkScope,
    n: nat,
    native: bool,
    visited: TargetMarks,
    emitted: TargetMarks,
    t0: Seq<(BuildTarget, bool)>,
    list: Seq<BuildTarget>,
    stubs: Seq<PackageId>,
    curr: BuildTarget,
)
    requires
        link_state_ok(s, n, native, visited, emitted, t0, list, stubs),
        link_order_ok(s, emitted, t0, list),
        t0.len() > 0,
        t0.last() == (curr, false),
        visited.has(curr),
    ensures
        link_order_ok(s, emitted, t0.drop_last(), list),
{
    let t = t0.drop_last();
    let l = t.len() as int;
    assert(t0[l] == (curr, false));
    if link_acyclic(s) {
        assert forall|k: int| 0 <= k < t.len() implies #[trigger] t[k] == t0[k] by {}
        assert forall|k: int, z: BuildTarget|
            0 <= k < t.len() && (#[trigger] t[k]).1 && !emitted.has(t[k].0) && #[trigger] link_edge(s, t[k].0, z)
                implies emitted.has(z) || (exists|j: int| k < j < t.len() && #[trigger] entry_stands_for(s, t[j], z))
                || (exists|j: int| 0 <= j <= k && #[trigger] t[j] == (z, true)) by {
            assert(t0[k] == t[k]);
            if !emitted.has(z) && !(exists|j: int| 0 <= j <= k && #[trigger] t0[j] == (z, true)) {
                let j = choose|j: int| k < j < t0.len() && #[trigger] entry_stands_for(s, t0[j], z);
                if j < l {
                    assert(entry_stands_for(s, t[j], z));
                } else {
                    assert(curr.package.0 < n);
                    assert(expands(s, curr) && resolve(s, curr) == z);
                    let m = choose|m: int| 0 <= m < t0.len() && #[trigger] t0[m] == (resolve(s, curr), true);
                    assert(m != l);
                    if m > k {
                        assert(entry_stands_for(s, t[m], z));
                    } else {
                        assert(t[m] == (z, true));
                    }
                }
            } else if !emitted.has(z) {
                let j = choose|j: int| 0 <= j <= k && #[trigger] t0[j] == (z, true);
                assert(t[j] == (z, true));
            }
        }
        assert forall|j: int, k: int| 0 <= j < k < t.len() && (#[trigger] t[j]).1 implies #[trigger] entry_reached_from(
            s,
            t[j].0,
            t[k],
        ) by {
            assert(t[j] == t0[j] && t[k] == t0[k]);
        }
    }
}

/// Popping a target that stands for nothing expanded keeps the order facts.
pub proof fn lemma_order_pop_unexpanded(
    s: LinkScope,
    emitted: TargetMarks,
    t0: Seq<(BuildTarget, bool)>,
    list: Seq<BuildTarget>,
    curr: BuildTarget,
)
    requires
        link_order_ok(s, emitted, t0, list),
        t0.len() > 0,
        t0.last() == (curr, false),
        !expands(s, curr),
    ensures
        link_order_ok(s, emitted, t0.drop_last(), list),
{
    let t = t0.drop_last();
    let l = t.len() as int;
    assert(t0[l] == (curr, false));
    if link_acyclic(s) {
        assert forall|k: int| 0 <= k < t.len() implies #[trigger] t[k] == t0[k] by {}
        assert forall|k: int, z: BuildTarget|
            0 <= k < t.len() && (#[trigger] t[k]).1 && !emitted.has(t[k].0) && #[trigger] link_edge(s, t[k].0, z)
                implies emitted.has(z) || (exists|j: int| k < j < t.len() && #[trigger] entry_stands_for(s, t[j], z))
                || (exists|j: int| 0 <= j <= k && #[trigger] t[j] == (z, true)) by {
            assert(t0[k] == t[k]);
            if !emitted.has(z) && !(exists|j: int| 0 <= j <= k && #[trigger] t0[j] == (z, true)) {
                let j = choose|j: int| k < j < t0.len() && #[trigger] entry_stands_for(s, t0[j], z);
                assert(j != l);
                assert(entry_stands_for(s, t[j], z));
            } else if !emitted.has(z) {
                let j = choose|j: int| 0 <= j <= k && #[trigger] t0[j] == (z, true);
                assert(t[j] == (z, true));
            }
        }
        assert forall|j: int, k: int| 0 <= j < k < t.len() && (#[trigger] t[j]).1 implies #[trigger] entry_reached_from(
            s,
            t[j].0,
            t[k],
        ) by {
            assert(t[j] == t0[j] && t[k] == t0[k]);
        }
    }
}

/// Popping the marker of a finished target keeps the order facts; `e1` is
/// `e0` with `cur` added.
pub proof fn lemma_order_pop_marker(
    s: LinkScope,
    n: nat,
    native: bool,
    visited: TargetMarks,
    e0: TargetMarks,
    e1: TargetMarks,
    t0: Seq<(BuildTarget, bool)>,
    list: Seq<BuildTarget>,
    stubs: Seq<PackageId>,
    cur: BuildTarget,
)
    requires
        link_state_ok(s, n, native, visited, e0, t0, list, stubs),
        link_order_ok(s, e0, t0, list),
        t0.len() > 0,
        t0.last() == (cur, true),
        forall|u: BuildTarget| u.package.0 < n ==> #[trigger] e1.has(u) == (e0.has(u) || u == cur),
    ensures
        link_order_ok(s, e1, t0.drop_last(), list),
{
    let t = t0.drop_last();
    let l = t.len() as int;
    assert(t0[l] == (cur, true));
    if link_acyclic(s) {
        assert forall|k: int| 0 <= k < t.len() implies #[trigger] t[k] == t0[k] by {}
        assert forall|k: int, z: BuildTarget|
            0 <= k < t.len() && (#[trigger] t[k]).1 && !e1.has(t[k].0) && #[trigger] link_edge(s, t[k].0, z)
                implies e1.has(z) || (exists|j: int| k < j < t.len() && #[trigger] entry_stands_for(s, t[j], z))
                || (exists|j: int| 0 <= j <= k && #[trigger] t[j] == (z, true)) by {
            assert(t0[k] == t[k]);
            assert(t0[k].0.package.0 < n);
            assert(!e0.has(t0[k].0));
            lemma_edge_valid(s, n, native, visited, e0, t0, list, stubs, t0[k].0, z);
            if !e1.has(z) && !(exists|j: int| 0 <= j <= k && #[trigger] t0[j] == (z, true)) {
                assert(!e0.has(z) && z != cur);
                let j = choose|j: int| k < j < t0.len() && #[trigger] entry_stands_for(s, t0[j], z);
                assert(j != l);
                assert(entry_stands_for(s, t[j], z));
            } else if !e1.has(z) {
                let j = choose|j: int| 0 <= j <= k && #[trigger] t0[j] == (z, true);
                assert(t[j] == (z, true));
            }
        }
        assert forall|j: int, k: int| 0 <= j < k < t.len() && (#[trigger] t[j]).1 implies #[trigger] entry_reached_from(
            s,
            t[j].0,
            t[k],
        ) by {
            assert(t[j] == t0[j] && t[k] == t0[k]);
        }
    }
}

/// What an unfinished marker on top of the stack depends on is finished.
proof fn lemma_top_deps_finished(
    s: LinkScope,
    e0: TargetMarks,
    t0: Seq<(BuildTarget, bool)>,
    list: Seq<BuildTarget>,
    cur: BuildTarget,
    z: BuildTarget,
)
    requires
        link_acyclic(s),
        link_order_ok(s, e0, t0, list),
        t0.len() > 0,
        t0.last() == (cur, true),
        !e0.has(cur),
        link_edge(s, cur, z),
    ensures
        e0.has(z),
{
    let l = t0.len() - 1;
    assert(t0[l] == (cur, true));
    assert(t0[l].1 && !e0.has(t0[l].0) && link_edge(s, t0[l].0, z));
    if !e0.has(z) {
        assert(exists|j: int| 0 <= j <= l && #[trigger] t0[j] == (z, true));
        {
            let j = choose|j: int| 0 <= j <= l && #[trigger] t0[j] == (z, true);
            if j == l {
                assert(z == cur);
                lemma_edge_reaches(s, cur, cur);
                assert(!link_reaches(s, cur, cur));
            } else {
                assert(entry_reached_from(s, t0[j].0, t0[l]));
                assert(link_reaches(s, z, cur));
                lemma_reaches_edge(s, z, cur, z);
                assert(!link_reaches(s, z, z));
            }
        }
    }
}

/// Finishing the marker on top of the stack by listing its target at the
/// end keeps the order facts.
pub proof fn lemma_order_emit(
    s: LinkScope,
    n: nat,
    native: bool,
    visited: TargetMarks,
    e0: TargetMarks,
    e1: TargetMarks,
    t0: Seq<(BuildTarget, bool)>,
    list0: Seq<BuildTarget>,
    list1: Seq<BuildTarget>,
    stubs0: Seq<PackageId>,
    cur: BuildTarget,
)
    requires
        link_state_ok(s, n, native, visited, e0, t0, list0, stubs0),
        link_order_ok(s, e0, t0, list0),
        t0.len() > 0,
        t0.last() == (cur, true),
        !e0.has(cur),
        cur.package.0 < n,
        forall|u: BuildTarget| u.package.0 < n ==> #[trigger] e1.has(u) == (e0.has(u) || u == cur),
        list1 == (if list0.contains(cur) {
            list0
        } else {
            list0.push(cur)
        }),
    ensures
        link_order_ok(s, e1, t0.drop_last(), list1),
{
    assert(!list0.contains(cur)) by {
        if list0.contains(cur) {
            let i = choose|i: int| 0 <= i < list0.len() && list0[i] == cur;
            assert(e0.has(list0[i]));
        }
    }
    assert(list1 == list0.push(cur));
    let l = t0.len() - 1;
    assert(t0[l] == (cur, true));
    lemma_order_pop_marker(s, n, native, visited, e0, e1, t0, list0, stubs0, cur);
    if link_acyclic(s) {
        assert forall|i: int, z: BuildTarget|
            0 <= i < list1.len() && (#[trigger] list1[i]).kind != TargetKind::WhiteboxTest && #[trigger] link_edge(
                s,
                list1[i],
                z,
            ) implies listed_before(list1, i, z) by {
            if i < list0.len() {
                assert(list1[i] == list0[i]);
                let k = choose|k: int|
                    0 <= k < i && (#[trigger] list0[k] == z || (z.kind == TargetKind::Source && list0[k] == whitebox(
                        z.package,
                    )));
                assert(list1[k] == list0[k]);
            } else {
                assert(list1[i] == cur);
                lemma_top_deps_finished(s, e0, t0, list0, cur, z);
                lemma_edge_valid(s, n, native, visited, e0, t0, list0, stubs0, cur, z);
                if list0.contains(z) {
                    let k = choose|k: int| 0 <= k < list0.len() && list0[k] == z;
                    assert(list1[k] == z);
                } else {
                    let k = choose|k: int| 0 <= k < list0.len() && list0[k] == whitebox(z.package);
                    assert(list1[k] == whitebox(z.package));
                }
            }
        }
    }
}

/// A whitebox test taking its source's place keeps the order facts.
pub proof fn lemma_order_replace(
    s: LinkScope,
    n: nat,
    native: bool,
    visited: TargetMarks,
    e0: TargetMarks,
    e1: TargetMarks,
    t0: Seq<(BuildTarget, bool)>,
    list0: Seq<BuildTarget>,
    stubs0: Seq<PackageId>,
    cur: BuildTarget,
    idx: int,
)
    requires
        link_state_ok(s, n, native, visited, e0, t0, list0, stubs0),
        link_order_ok(s, e0, t0, list0),
        t0.len() > 0,
        t0.last() == (cur, true),
        cur.kind == TargetKind::WhiteboxTest,
        cur.package.0 < n,
        0 <= idx < list0.len(),
        list0[idx] == source(cur.package),
        forall|u: BuildTarget| u.package.0 < n ==> #[trigger] e1.has(u) == (e0.has(u) || u == cur),
    ensures
        link_order_ok(s, e1, t0.drop_last(), list0.update(idx, cur)),
{
    let list1 = list0.update(idx, cur);
    let l = t0.len() - 1;
    assert(t0[l] == (cur, true));
    lemma_order_pop_marker(s, n, native, visited, e0, e1, t0, list0, stubs0, cur);
    if link_acyclic(s) {
        assert forall|i: int, z: BuildTarget|
            0 <= i < list1.len() && (#[trigger] list1[i]).kind != TargetKind::WhiteboxTest && #[trigger] link_edge(
                s,
                list1[i],
                z,
            ) implies listed_before(list1, i, z) by {
            assert(i != idx);
            assert(list1[i] == list0[i]);
            let k = choose|k: int|
                0 <= k < i && (#[trigger] list0[k] == z || (z.kind == TargetKind::Source && list0[k] == whitebox(
                    z.package,
                )));
            if k == idx {
                assert(list0[k] == z);
                assert(list1[k] == whitebox(z.package));
            } else {
                assert(list1[k] == list0[k]);
            }
        }
    }
}

/// Expanding a target keeps the order facts: its node is marked where the
/// target was, and the targets visited from it are pushed above the marker.
pub proof fn lemma_order_expand(
    s: LinkScope,
    n: nat,
    native: bool,
    v0: TargetMarks,
    v1: TargetMarks,
    emitted: TargetMarks,
    t0: Seq<(BuildTarget, bool)>,
    t1: Seq<(BuildTarget, bool)>,
    t2: Seq<(BuildTarget, bool)>,
    list: Seq<BuildTarget>,
    stubs: Seq<PackageId>,
    deps: Seq<BuildTarget>,
    curr: BuildTarget,
    node: BuildTarget,
)
    requires
        link_state_ok(s, n, native, v0, emitted, t0, list, stubs),
        link_order_ok(s, emitted, t0, list),
        t0.len() > 0,
        t0.last() == (curr, false),
        curr == s.target || v0.has(s.target),
        node == resolve(s, curr),
        expands(s, curr),
        forall|u: BuildTarget| u.package.0 < n ==> #[trigger] v1.has(u) == (v0.has(u) || u == curr),
        t1 == t0.drop_last().push((node, true)),
        t2.len() >= t1.len(),
        forall|q: int| 0 <= q < t1.len() ==> t2[q] == #[trigger] t1[q],
        forall|q: int| t1.len() <= q < t2.len() ==> !(#[trigger] t2[q]).1 && link_kid(s, curr, t2[q].0),
        forall|c: BuildTarget| #[trigger] deps.contains(c) <==> link_kid(s, curr, c),
        forall|i: int| 0 <= i < deps.len() ==> v1.has(#[trigger] deps[i]) || exists|q: int| t1.len() <= q < t2.len() && t2[q] == (deps[i], false),
    ensures
        link_order_ok(s, emitted, t2, list),
{
    let l = t0.len() - 1;
    assert(t0[l] == (curr, false));
    assert(reached(s, curr));
    assert(curr.package.0 < n);
    assert(t1[l] == (node, true));
    assert(t2[l] == (node, true));
    assert forall|q: int| 0 <= q < l implies #[trigger] t2[q] == t0[q] by {
        assert(t2[q] == t1[q]);
        assert(t1[q] == t0[q]);
    }
    if link_acyclic(s) {
        assert forall|k: int, z: BuildTarget|
            0 <= k < t2.len() && (#[trigger] t2[k]).1 && !emitted.has(t2[k].0) && #[trigger] link_edge(s, t2[k].0, z)
                implies emitted.has(z) || (exists|j: int| k < j < t2.len() && #[trigger] entry_stands_for(s, t2[j], z))
                || (exists|j: int| 0 <= j <= k && #[trigger] t2[j] == (z, true)) by {
            if k < l {
                assert(t0[k] == t2[k]);
                if !emitted.has(z) && !(exists|j: int| 0 <= j <= k && #[trigger] t0[j] == (z, true)) {
                    let j = choose|j: int| k < j < t0.len() && #[trigger] entry_stands_for(s, t0[j], z);
                    if j < l {
                        assert(entry_stands_for(s, t2[j], z));
                    } else {
                        assert(z == node);
                        assert(entry_stands_for(s, t2[l], z));
                    }
                } else if !emitted.has(z) {
                    let j = choose|j: int| 0 <= j <= k && #[trigger] t0[j] == (z, true);
                    assert(t2[j] == (z, true));
                }
            } else if k == l {
                lemma_expand_marker_deps(s, n, native, v0, v1, emitted, t0, t1, t2, list, stubs, deps, curr, node, z);
            } else {
                assert(!t2[k].1);
            }
        }
        assert forall|j: int, k: int| 0 <= j < k < t2.len() && (#[trigger] t2[j]).1 implies #[trigger] entry_reached_from(
            s,
            t2[j].0,
            t2[k],
        ) by {
            if k < l {
                assert(t2[j] == t0[j] && t2[k] == t0[k]);
            } else if k == l {
                assert(t2[j] == t0[j]);
                assert(entry_reached_from(s, t0[j].0, t0[l]));
            } else {
                let c = t2[k].0;
                assert(!t2[k].1 && link_kid(s, curr, c));
                if expands(s, c) {
                    assert(link_edge(s, node, resolve(s, c)));
                    if j < l {
                        assert(t2[j] == t0[j]);
                        assert(entry_reached_from(s, t0[j].0, t0[l]));
                        lemma_reaches_edge(s, t0[j].0, node, resolve(s, c));
                    } else {
                        assert(j == l);
                        lemma_edge_reaches(s, node, resolve(s, c));
                    }
                }
            }
        }
    }
}

/// The dependencies of the newly marked node are finished, pushed above its
/// marker, or marked below it.
proof fn lemma_expand_marker_deps(
    s: LinkScope,
    n: nat,
    native: bool,
    v0: TargetMarks,
    v1: TargetMarks,
    emitted: TargetMarks,
    t0: Seq<(BuildTarget, bool)>,
    t1: Seq<(BuildTarget, bool)>,
    t2: Seq<(BuildTarget, bool)>,
    list: Seq<BuildTarget>,
    stubs: Seq<PackageId>,
    deps: Seq<BuildTarget>,
    curr: BuildTarget,
    node: BuildTarget,
    z: BuildTarget,
)
    requires
        link_acyclic(s),
        link_state_ok(s, n, native, v0, emitted, t0, list, stubs),
        link_order_ok(s, emitted, t0, list),
        t0.len() > 0,
        t0.last() == (curr, false),
        curr == s.target || v0.has(s.target),
        node == resolve(s, curr),
        expands(s, curr),
        reached(s, curr),
        curr.package.0 < n,
        forall|u: BuildTarget| u.package.0 < n ==> #[trigger] v1.has(u) == (v0.has(u) || u == curr),
        t1 == t0.drop_last().push((node, true)),
        t2.len() >= t1.len(),
        forall|q: int| 0 <= q < t1.len() ==> t2[q] == #[trigger] t1[q],
        forall|c: BuildTarget| #[trigger] deps.contains(c) <==> link_kid(s, curr, c),
        forall|i: int| 0 <= i < deps.len() ==> v1.has(#[trigger] deps[i]) || exists|q: int| t1.len() <= q < t2.len() && t2[q] == (deps[i], false),
        !emitted.has(node),
        link_edge(s, node, z),
    ensures
        emitted.has(z) || (exists|j: int| t0.len() - 1 < j < t2.len() && #[trigger] entry_stands_for(s, t2[j], z))
            || (exists|j: int| 0 <= j <= t0.len() - 1 && #[trigger] t2[j] == (z, true)),
{
    let l = t0.len() - 1;
    assert(t0[l] == (curr, false));
    assert(t2[l] == t1[l]);
    let (x, c) = choose|x: BuildTarget, c: BuildTarget|
        #[trigger] link_kid(s, x, c) && reached(s, x) && expands(s, x) && resolve(s, x) == node && expands(s, c)
            && resolve(s, c) == z;
    if link_kid(s, curr, c) {
        assert(deps.contains(c));
        let i = choose|i: int| 0 <= i < deps.len() && deps[i] == c;
        assert(c.package.0 < n);
        if !v1.has(deps[i]) {
            let q = choose|q: int| t1.len() <= q < t2.len() && t2[q] == (deps[i], false);
            assert(entry_stands_for(s, t2[q], z));
        } else if c == curr {
            lemma_edge_reaches(s, node, node);
            assert(!link_reaches(s, node, node));
        } else {
            assert(v0.has(c));
            if !emitted.has(z) {
                let m = choose|m: int| 0 <= m < t0.len() && #[trigger] t0[m] == (resolve(s, c), true);
                assert(m != l);
                assert(t2[m] == t1[m]);
                assert(t1[m] == t0[m]);
                assert(t2[m] == (z, true));
            }
        }
    } else {
        assert(x == s.target);
        assert(curr != s.target);
        assert(v0.has(s.target));
        assert(s.target.package.0 < n);
        assert(resolve(s, s.target) == node);
        if !emitted.has(node) {
            let m = choose|m: int| 0 <= m < t0.len() && #[trigger] t0[m] == (resolve(s, s.target), true);
            assert(m != l);
            assert(entry_reached_from(s, t0[m].0, t0[l]));
            assert(link_reaches(s, node, node));
        }
    }
}

} // verus!
