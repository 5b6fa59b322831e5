//! Depth-first traversals of the dependency graph between build targets.

use vstd::prelude::*;

use crate::build_action_plan::view::{count_true, lemma_count_true_bound, lemma_count_true_set};
use crate::assoc::{assoc_map, lemma_assoc_lookup, unique_keys};
use crate::discover::model::{
    id_value, lemma_modules_valid, name_key, package_name, valid_id, DiscoverResult, DiscoverResultView,
};
use crate::model::{BuildTarget, ModuleId, PackageId, TargetKind};
use crate::order::{
    char_lt, lemma_char_lt_strict_total, lemma_lex_irreflexive, lemma_lex_total, lemma_lex_transitive,
    str_lt, string_lt,
};

verus! {

/// The dependency graph between build targets: each node with the targets
/// it depends on, in edge order.
#[derive(Debug, Clone)]
pub struct DepGraph {
    pub edges: Vec<(BuildTarget, Vec<BuildTarget>)>,
}

/// A node, as the graph keys it.
pub open spec fn node_key() -> spec_fn(BuildTarget) -> BuildTarget {
    |t: BuildTarget| t
}

/// The dependencies of a node, as stored.
pub open spec fn deps_value() -> spec_fn(Vec<BuildTarget>) -> Seq<BuildTarget> {
    |v: Vec<BuildTarget>| v@
}

impl DepGraph {
    /// Each node is listed once.
    pub open spec fn wf(&self) -> bool {
        unique_keys(self.edges@, node_key())
    }

    /// The dependencies of `t`, none when it is not a node.
    pub open spec fn deps(&self, t: BuildTarget) -> Seq<BuildTarget> {
        let m = assoc_map(self.edges@, node_key(), deps_value());
        if m.contains_key(t) {
            m[t]
        } else {
            Seq::empty()
        }
    }

    /// Every dependency names a package of `pkgs`.
    pub open spec fn deps_valid(&self, pkgs: DiscoverResult) -> bool {
        forall|i: int, j: int|
            0 <= i < self.edges@.len() && 0 <= j < self.edges@[i].1@.len() ==> valid_id(
                pkgs@,
                (#[trigger] self.edges@[i].1@[j]).package,
            )
    }

    /// The dependencies of `t`, in edge order.
    pub fn neighbors(&self, t: BuildTarget) -> (r: Option<&Vec<BuildTarget>>)
        requires
            self.wf(),
        ensures
            match r {
                Some(v) => v@ == self.deps(t) && exists|i: int| 0 <= i < self.edges@.len() && self.edges@[i].1 == *v,
                None => self.deps(t).len() == 0,
            },
    {
        proof {
            lemma_assoc_lookup(self.edges@, node_key(), deps_value(), t);
        }
        let mut i: usize = 0;
        while i < self.edges.len()
            invariant
                i <= self.edges.len(),
                self.wf(),
                forall|j: int| 0 <= j < i ==> self.edges@[j].0 != t,
            decreases self.edges.len() - i,
        {
            if self.edges[i].0 == t {
                proof {
                    lemma_assoc_lookup(self.edges@, node_key(), deps_value(), t);
                }
                return Some(&self.edges[i].1);
            }
            i = i + 1;
        }
        proof {
            if assoc_map(self.edges@, node_key(), deps_value()).contains_key(t) {
                let j = choose|j: int| 0 <= j < self.edges@.len() && node_key()(#[trigger] self.edges@[j].0) == t;
                assert(self.edges@[j].0 != t);
            }
        }
        None
    }
}

/// The source target of a package.
pub open spec fn source(p: PackageId) -> BuildTarget {
    BuildTarget { package: p, kind: TargetKind::Source }
}

/// Whether `c` is a package of module `m`.
pub open spec fn in_module(pkgs: DiscoverResult, m: ModuleId, c: PackageId) -> bool {
    valid_id(pkgs@, c) && pkgs@.packages[c.0 as int].module == m
}

/// Whether the source of `c` is a dependency of the source of `a` within
/// module `m`.
pub open spec fn module_edge(g: DepGraph, pkgs: DiscoverResult, m: ModuleId, a: PackageId, c: PackageId) -> bool {
    g.deps(source(a)).contains(source(c)) && in_module(pkgs, m, c)
}

/// `path` follows module edges from its first package to its last.
pub open spec fn is_module_path(g: DepGraph, pkgs: DiscoverResult, m: ModuleId, path: Seq<PackageId>) -> bool {
    &&& path.len() >= 2
    &&& forall|i: int| 0 <= i < path.len() - 1 ==> #[trigger] module_edge(g, pkgs, m, path[i], path[i + 1])
}

/// Whether `b` is reached from `a` through at least one module edge.
pub open spec fn module_reaches(g: DepGraph, pkgs: DiscoverResult, m: ModuleId, a: PackageId, b: PackageId) -> bool {
    exists|path: Seq<PackageId>| #[trigger] is_module_path(g, pkgs, m, path) && path[0] == a && path.last() == b
}

/// No package of module `m` reaches itself through module edges.
pub open spec fn module_acyclic(g: DepGraph, pkgs: DiscoverResult, m: ModuleId) -> bool {
    forall|a: PackageId| !#[trigger] module_reaches(g, pkgs, m, a, a)
}

proof fn lemma_reaches_edge(g: DepGraph, pkgs: DiscoverResult, m: ModuleId, a: PackageId, b: PackageId, c: PackageId)
    requires
        module_reaches(g, pkgs, m, a, b),
        module_edge(g, pkgs, m, b, c),
    ensures
        module_reaches(g, pkgs, m, a, c),
{
    let path = choose|path: Seq<PackageId>| #[trigger] is_module_path(g, pkgs, m, path) && path[0] == a && path.last() == b;
    let p2 = path.push(c);
    assert forall|i: int| 0 <= i < p2.len() - 1 implies #[trigger] module_edge(g, pkgs, m, p2[i], p2[i + 1]) by {
        if i < path.len() - 1 {
            assert(p2[i] == path[i] && p2[i + 1] == path[i + 1]);
        } else {
            assert(p2[i] == b && p2[i + 1] == c);
        }
    }
    assert(is_module_path(g, pkgs, m, p2));
}

proof fn lemma_edge_reaches(g: DepGraph, pkgs: DiscoverResult, m: ModuleId, a: PackageId, b: PackageId)
    requires
        module_edge(g, pkgs, m, a, b),
    ensures
        module_reaches(g, pkgs, m, a, b),
{
    let path = seq![a, b];
    assert(module_edge(g, pkgs, m, path[0int], path[0int + 1]));
    assert(is_module_path(g, pkgs, m, path));
}

/// The position of package `p` among `n` packages.
fn index_of(p: PackageId, n: usize) -> (r: usize)
    requires
        p.0 < n,
    ensures
        r as int == p.0 as int,
{
    let r = p.0 as usize;
    assert(r as int == p.0 as int);
    r
}

/// The position of a kind in the order of kinds: source, whitebox test,
/// blackbox test, inline test, subpackage.
pub open spec fn kind_order(k: TargetKind) -> int {
    match k {
        TargetKind::Source => 0,
        TargetKind::WhiteboxTest => 1,
        TargetKind::BlackboxTest => 2,
        TargetKind::InlineTest => 3,
        TargetKind::SubPackage => 4,
    }
}

/// The rank of a target kind in the order of kinds.
fn kind_rank(k: TargetKind) -> (r: u8)
    ensures
        r as int == kind_order(k),
{
    match k {
        TargetKind::Source => 0,
        TargetKind::WhiteboxTest => 1,
        TargetKind::BlackboxTest => 2,
        TargetKind::InlineTest => 3,
        TargetKind::SubPackage => 4,
    }
}

/// The fully qualified name of the package of `t`.
pub open spec fn target_name(v: DiscoverResultView, t: BuildTarget) -> Seq<char> {
    package_name(v.packages[t.package.0 as int])
}

/// Whether `a` orders before `b`: by the names of their packages, then, when
/// `then_kind` is set, by kind.
pub open spec fn target_lt(v: DiscoverResultView, a: BuildTarget, b: BuildTarget, then_kind: bool) -> bool {
    ||| str_lt(target_name(v, a), target_name(v, b))
    ||| then_kind && target_name(v, a) == target_name(v, b) && kind_order(a.kind) < kind_order(b.kind)
}

/// Where a stable insertion puts `x` into `s`: before the first target that
/// `x` orders before.
pub open spec fn target_insert_pos(v: DiscoverResultView, s: Seq<BuildTarget>, x: BuildTarget, then_kind: bool) -> int
    decreases s.len(),
{
    if s.len() == 0 || target_lt(v, x, s[0], then_kind) {
        0
    } else {
        1 + target_insert_pos(v, s.drop_first(), x, then_kind)
    }
}

/// `s` sorted by [`target_lt`], targets that compare equal in their given
/// order.
pub open spec fn target_sort(v: DiscoverResultView, s: Seq<BuildTarget>, then_kind: bool) -> Seq<BuildTarget>
    decreases s.len(),
{
    if s.len() == 0 {
        s
    } else {
        let r = target_sort(v, s.drop_last(), then_kind);
        r.insert(target_insert_pos(v, r, s.last(), then_kind), s.last())
    }
}

proof fn lemma_target_insert_pos(v: DiscoverResultView, s: Seq<BuildTarget>, x: BuildTarget, then_kind: bool, i: int)
    requires
        0 <= i <= s.len(),
        forall|j: int| 0 <= j < i ==> !target_lt(v, x, #[trigger] s[j], then_kind),
        i == s.len() || target_lt(v, x, s[i], then_kind),
    ensures
        target_insert_pos(v, s, x, then_kind) == i,
    decreases s.len(),
{
    if i > 0 {
        let t = s.drop_first();
        assert forall|j: int| 0 <= j < i - 1 implies !target_lt(v, x, #[trigger] t[j], then_kind) by {
            assert(t[j] == s[j + 1]);
        }
        if i - 1 < t.len() {
            assert(t[i - 1] == s[i]);
        }
        assert(!target_lt(v, x, s[0], then_kind));
        lemma_target_insert_pos(v, t, x, then_kind, i - 1);
    }
}

proof fn lemma_target_insert_pos_bounds(v: DiscoverResultView, s: Seq<BuildTarget>, x: BuildTarget, then_kind: bool)
    ensures
        0 <= target_insert_pos(v, s, x, then_kind) <= s.len(),
        forall|j: int| 0 <= j < target_insert_pos(v, s, x, then_kind) ==> !target_lt(v, x, #[trigger] s[j], then_kind),
        target_insert_pos(v, s, x, then_kind) < s.len() ==> target_lt(v, x, s[target_insert_pos(v, s, x, then_kind)], then_kind),
    decreases s.len(),
{
    if s.len() > 0 && !target_lt(v, x, s[0], then_kind) {
        let t = s.drop_first();
        lemma_target_insert_pos_bounds(v, t, x, then_kind);
        assert forall|j: int| 0 <= j < target_insert_pos(v, s, x, then_kind) implies !target_lt(v, x, #[trigger] s[j], then_kind) by {
            if j > 0 {
                assert(s[j] == t[j - 1]);
            }
        }
        if target_insert_pos(v, s, x, then_kind) < s.len() {
            assert(s[target_insert_pos(v, s, x, then_kind)] == t[target_insert_pos(v, t, x, then_kind)]);
        }
    }
}

proof fn lemma_target_lt_order(v: DiscoverResultView, then_kind: bool)
    ensures
        forall|a: BuildTarget| !target_lt(v, a, a, then_kind),
        forall|a: BuildTarget, b: BuildTarget, c: BuildTarget|
            #[trigger] target_lt(v, a, b, then_kind) && #[trigger] target_lt(v, b, c, then_kind) ==> target_lt(v, a, c, then_kind),
{
    let elt = |x: char, y: char| char_lt(x, y);
    lemma_char_lt_strict_total();
    assert forall|a: BuildTarget| !target_lt(v, a, a, then_kind) by {
        lemma_lex_irreflexive(target_name(v, a), elt);
    }
    assert forall|a: BuildTarget, b: BuildTarget, c: BuildTarget|
        #[trigger] target_lt(v, a, b, then_kind) && #[trigger] target_lt(v, b, c, then_kind) implies target_lt(v, a, c, then_kind) by {
        let (na, nb, nc) = (target_name(v, a), target_name(v, b), target_name(v, c));
        if str_lt(na, nb) && str_lt(nb, nc) {
            lemma_lex_transitive(na, nb, nc, elt);
        }
    }
}

/// No target of `s` orders before an earlier one.
pub open spec fn targets_in_order(v: DiscoverResultView, s: Seq<BuildTarget>, then_kind: bool) -> bool {
    forall|i: int, j: int| 0 <= i < j < s.len() ==> !target_lt(v, #[trigger] s[j], #[trigger] s[i], then_kind)
}

/// Sorting targets yields them in name (and kind) order, as a permutation.
pub proof fn law_target_sort_sorted_permutation(v: DiscoverResultView, s: Seq<BuildTarget>, then_kind: bool)
    ensures
        targets_in_order(v, target_sort(v, s, then_kind), then_kind),
        target_sort(v, s, then_kind).to_multiset() == s.to_multiset(),
    decreases s.len(),
{
    broadcast use vstd::seq_lib::group_to_multiset_ensures;

    if s.len() > 0 {
        let init = s.drop_last();
        let x = s.last();
        law_target_sort_sorted_permutation(v, init, then_kind);
        let r = target_sort(v, init, then_kind);
        lemma_target_insert_pos_bounds(v, r, x, then_kind);
        lemma_target_lt_order(v, then_kind);
        let p = target_insert_pos(v, r, x, then_kind);
        let w = r.insert(p, x);
        assert forall|i: int, j: int| 0 <= i < j < w.len() implies !target_lt(
            v,
            #[trigger] w[j],
            #[trigger] w[i],
            then_kind,
        ) by {
            if j < p {
                assert(w[i] == r[i] && w[j] == r[j]);
            } else if j == p {
                assert(w[i] == r[i]);
            } else if i == p {
                assert(w[j] == r[j - 1]);
                if target_lt(v, r[j - 1], x, then_kind) {
                    assert(target_lt(v, x, r[p], then_kind));
                    if j - 1 > p {
                        assert(!target_lt(v, r[j - 1], r[p], then_kind));
                    }
                }
            } else if i < p {
                assert(w[i] == r[i] && w[j] == r[j - 1]);
            } else {
                assert(w[i] == r[i - 1] && w[j] == r[j - 1]);
            }
        }
        assert(s =~= init.push(x));
    }
}

/// Whether `a` orders before `b`: by the name of their packages, then, when
/// `then_kind` is set, by kind.
fn target_less(a: BuildTarget, b: BuildTarget, pkgs: &DiscoverResult, then_kind: bool) -> (r: bool)
    requires
        valid_id(pkgs@, a.package),
        valid_id(pkgs@, b.package),
    ensures
        r == target_lt(pkgs@, a, b, then_kind),
{
    let na = pkgs.fqn(a.package).name;
    let nb = pkgs.fqn(b.package).name;
    if string_lt(na.as_str(), nb.as_str()) {
        true
    } else if then_kind && !string_lt(nb.as_str(), na.as_str()) {
        proof {
            lemma_char_lt_strict_total();
            if na@ != nb@ {
                lemma_lex_total(na@, nb@, |x: char, y: char| char_lt(x, y));
            }
        }
        kind_rank(a.kind) < kind_rank(b.kind)
    } else {
        proof {
            if then_kind && na@ == nb@ {
                lemma_char_lt_strict_total();
                lemma_lex_irreflexive(na@, |x: char, y: char| char_lt(x, y));
            }
        }
        false
    }
}

/// Sorts targets by the fully qualified names of their packages and, when
/// `then_kind` is set, by kind; targets that compare equal keep their given
/// order.
pub(crate) fn sort_targets(v: Vec<BuildTarget>, pkgs: &DiscoverResult, then_kind: bool) -> (r: Vec<BuildTarget>)
    requires
        forall|i: int| 0 <= i < v.len() ==> valid_id(pkgs@, (#[trigger] v@[i]).package),
    ensures
        r@ == target_sort(pkgs@, v@, then_kind),
        r.len() == v.len(),
        forall|x: BuildTarget| r@.contains(x) <==> v@.contains(x),
{
    let mut r: Vec<BuildTarget> = Vec::new();
    let mut i: usize = 0;
    while i < v.len()
        invariant
            i <= v.len(),
            forall|k: int| 0 <= k < v.len() ==> valid_id(pkgs@, (#[trigger] v@[k]).package),
            r.len() == i,
            forall|k: int| 0 <= k < r.len() ==> valid_id(pkgs@, (#[trigger] r@[k]).package),
            forall|x: BuildTarget| r@.contains(x) <==> v@.take(i as int).contains(x),
            r@ == target_sort(pkgs@, v@.take(i as int), then_kind),
        decreases v.len() - i,
    {
        let x = v[i];
        let mut p: usize = 0;
        while p < r.len() && !target_less(x, r[p], pkgs, then_kind)
            invariant
                p <= r.len(),
                valid_id(pkgs@, x.package),
                forall|k: int| 0 <= k < r.len() ==> valid_id(pkgs@, (#[trigger] r@[k]).package),
                forall|k: int| 0 <= k < p ==> !target_lt(pkgs@, x, #[trigger] r@[k], then_kind),
            decreases r.len() - p,
        {
            p = p + 1;
        }
        let ghost before = r@;
        r.insert(p, x);
        proof {
            let w = v@.take(i + 1);
            let w0 = v@.take(i as int);
            assert(r@ == before.insert(p as int, x));
            assert(w == w0.push(x));
            lemma_target_insert_pos(pkgs@, before, x, then_kind, p as int);
            assert(w.drop_last() =~= w0);
            assert forall|y: BuildTarget| r@.contains(y) <==> w.contains(y) by {
                if r@.contains(y) {
                    let k = choose|k: int| 0 <= k < r@.len() && r@[k] == y;
                    if y != x {
                        if k < p {
                            assert(before[k] == y);
                        } else {
                            assert(before[k - 1] == y);
                        }
                        assert(before.contains(y));
                        assert(w0.contains(y));
                        let q = choose|q: int| 0 <= q < w0.len() && w0[q] == y;
                        assert(w[q] == y);
                    } else {
                        assert(w[i as int] == x);
                    }
                }
                if w.contains(y) {
                    let q = choose|q: int| 0 <= q < w.len() && w[q] == y;
                    if q == i {
                        assert(r@[p as int] == x);
                    } else {
                        assert(w0[q] == y);
                        assert(before.contains(y));
                        let k = choose|k: int| 0 <= k < before.len() && before[k] == y;
                        if k < p {
                            assert(r@[k] == y);
                        } else {
                            assert(r@[k + 1] == y);
                        }
                    }
                }
            }
            assert forall|k: int| 0 <= k < r.len() implies valid_id(pkgs@, (#[trigger] r@[k]).package) by {
                if k < p {
                    assert(r@[k] == before[k]);
                } else if k > p {
                    assert(r@[k] == before[k - 1]);
                }
            }
        }
        i = i + 1;
    }
    assert(v@.take(v.len() as int) =~= v@);
    r
}

/// The source targets of the module dependencies of `node`, in name order.
fn module_deps(graph: &DepGraph, pkgs: &DiscoverResult, module_id: ModuleId, node: PackageId) -> (r: Vec<BuildTarget>)
    requires
        graph.wf(),
        graph.deps_valid(*pkgs),
    ensures
        forall|x: BuildTarget| r@.contains(x) <==> (graph.deps(source(node)).contains(x) && x.kind == TargetKind::Source && in_module(*pkgs, module_id, x.package)),
        forall|i: int| 0 <= i < r.len() ==> (#[trigger] r@[i]).kind == TargetKind::Source && in_module(*pkgs, module_id, r@[i].package),
{
    let deps = match graph.neighbors(node.build_target(TargetKind::Source)) {
        Some(v) => v,
        None => {
            let r: Vec<BuildTarget> = Vec::new();
            proof {
                assert forall|x: BuildTarget| r@.contains(x) <==> (graph.deps(source(node)).contains(x) && x.kind == TargetKind::Source && in_module(*pkgs, module_id, x.package)) by {
                    assert(!graph.deps(source(node)).contains(x));
                }
            }
            return r;
        },
    };
    proof {
        let e = choose|e: int| 0 <= e < graph.edges@.len() && graph.edges@[e].1 == *deps;
        assert forall|j: int| 0 <= j < deps.len() implies valid_id(pkgs@, (#[trigger] deps@[j]).package) by {
            assert(graph.edges@[e].1@[j] == deps@[j]);
        }
    }
    let mut kept: Vec<BuildTarget> = Vec::new();
    let mut i: usize = 0;
    while i < deps.len()
        invariant
            i <= deps.len(),
            forall|j: int| 0 <= j < deps.len() ==> valid_id(pkgs@, (#[trigger] deps@[j]).package),
            forall|j: int| 0 <= j < kept.len() ==> (#[trigger] kept@[j]).kind == TargetKind::Source && in_module(*pkgs, module_id, kept@[j].package),
            forall|x: BuildTarget| kept@.contains(x) <==> (deps@.take(i as int).contains(x) && x.kind == TargetKind::Source && in_module(*pkgs, module_id, x.package)),
        decreases deps.len() - i,
    {
        let d = deps[i];
        let ghost before = kept@;
        if d.kind == TargetKind::Source && pkgs.get_package(d.package).module == module_id {
            kept.push(d);
        }
        proof {
            let w = deps@.take(i + 1);
            let w0 = deps@.take(i as int);
            assert(w == w0.push(d));
            assert forall|x: BuildTarget| kept@.contains(x) <==> (w.contains(x) && x.kind == TargetKind::Source && in_module(*pkgs, module_id, x.package)) by {
                if w.contains(x) && x != d {
                    let q = choose|q: int| 0 <= q < w.len() && w[q] == x;
                    assert(w0[q] == x);
                }
                if w0.contains(x) {
                    let q = choose|q: int| 0 <= q < w0.len() && w0[q] == x;
                    assert(w[q] == x);
                }
                if x == d {
                    assert(w[i as int] == d);
                }
                if kept@.contains(x) && x != d {
                    let q = choose|q: int| 0 <= q < kept@.len() && kept@[q] == x;
                    if q < before.len() {
                        assert(before[q] == x);
                    }
                }
                if before.contains(x) {
                    let q = choose|q: int| 0 <= q < before.len() && before[q] == x;
                    assert(kept@[q] == x);
                }
                if x == d && kept@.len() > before.len() {
                    assert(kept@[before.len() as int] == d);
                }
            }
        }
        i = i + 1;
    }
    assert(deps@.take(deps.len() as int) =~= deps@);
    let ghost unsorted = kept@;
    let r = sort_targets(kept, pkgs, false);
    proof {
        assert forall|i: int| 0 <= i < r.len() implies (#[trigger] r@[i]).kind == TargetKind::Source && in_module(*pkgs, module_id, r@[i].package) by {
            assert(r@.contains(r@[i]));
            assert(unsorted.contains(r@[i]));
            let q = choose|q: int| 0 <= q < unsorted.len() && unsorted[q] == r@[i];
        }
    }
    r
}

proof fn lemma_count_true_none(s: Seq<bool>)
    requires
        forall|i: int| 0 <= i < s.len() ==> !s[i],
    ensures
        count_true(s) == 0,
    decreases s.len(),
{
    if s.len() > 0 {
        lemma_count_true_none(s.drop_last());
    }
}

/// Popping a package that was already visited keeps the stack's state.
proof fn lemma_skip(
    g: DepGraph,
    pkgs: DiscoverResult,
    m: ModuleId,
    visited: Seq<bool>,
    done: Seq<bool>,
    t0: Seq<(PackageId, bool)>,
    node: PackageId,
)
    requires
        stack_ok(g, pkgs, m, visited, done, t0),
        visited.len() == done.len(),
        t0.len() > 0,
        t0.last() == (node, false),
        visited[node.0 as int],
        visited.len() <= usize::MAX,
    ensures
        stack_ok(g, pkgs, m, visited, done, t0.drop_last()),
{
    let t = t0.drop_last();
    let l = t.len() as int;
    assert(t0[l] == (node, false));
    assert forall|k: int| 0 <= k < t.len() implies (#[trigger] t[k]).0.0 < visited.len() by {
        assert(t[k] == t0[k]);
    }
    assert forall|k: int| 0 <= k < t.len() && (#[trigger] t[k]).1 implies visited[t[k].0.0 as int] && !done[t[k].0.0 as int] by {
        assert(t[k] == t0[k]);
    }
    assert forall|j: int, k: int| 0 <= j < k < t.len() && (#[trigger] t[j]).1 && (#[trigger] t[k]).1 implies t[j].0 != t[k].0 by {
        assert(t[j] == t0[j] && t[k] == t0[k]);
    }
    assert forall|p: int| 0 <= p < visited.len() && #[trigger] visited[p] && !done[p] implies marked(t, p) by {
        let k = choose|k: int| 0 <= k < t0.len() && #[trigger] t0[k] == (PackageId(p as u64), true);
        assert(k != l);
        assert(t[k] == t0[k]);
    }
    assert forall|k: int, c: PackageId|
        0 <= k < t.len() && (#[trigger] t[k]).1 && #[trigger] module_edge(g, pkgs, m, t[k].0, c) implies done[c.0 as int]
            || (exists|j: int| k < j < t.len() && (#[trigger] t[j]).0 == c)
            || (exists|j: int| 0 <= j <= k && #[trigger] t[j] == (c, true)) by {
        assert(t[k] == t0[k]);
        assert(t0[k].1 && module_edge(g, pkgs, m, t0[k].0, c));
        if !done[c.0 as int] {
            if exists|j: int| 0 <= j <= k && #[trigger] t0[j] == (c, true) {
                let j = choose|j: int| 0 <= j <= k && #[trigger] t0[j] == (c, true);
                assert(t[j] == t0[j]);
            } else {
                let j = choose|j: int| k < j < t0.len() && (#[trigger] t0[j]).0 == c;
                if j < l {
                    assert(t[j] == t0[j]);
                } else {
                    assert(c == node);
                    assert(c.0 < visited.len());
                    assert(PackageId(c.0 as int as u64) == c);
                    assert(visited[c.0 as int]);
                    assert(marked(t0, c.0 as int));
                    let q = choose|q: int| 0 <= q < t0.len() && #[trigger] t0[q] == (PackageId(c.0 as int as u64), true);
                    assert(q != l);
                    assert(t[q] == t0[q]);
                    if q > k {
                        assert(t[q].0 == c);
                    } else {
                        assert(t[q] == (c, true));
                    }
                }
            }
        }
    }
    assert forall|j: int, k: int| 0 <= j < k < t.len() && (#[trigger] t[j]).1 implies #[trigger] module_reaches(g, pkgs, m, t[j].0, t[k].0) by {
        assert(t[j] == t0[j] && t[k] == t0[k]);
    }
}

/// Finishing the marked package on top of the stack: it is done, and listed
/// when it belongs to the module.
proof fn lemma_emit(
    g: DepGraph,
    pkgs: DiscoverResult,
    m: ModuleId,
    visited: Seq<bool>,
    done0: Seq<bool>,
    t0: Seq<(PackageId, bool)>,
    o0: Seq<BuildTarget>,
    o1: Seq<BuildTarget>,
    node: PackageId,
)
    requires
        stack_ok(g, pkgs, m, visited, done0, t0),
        emitted_ok(g, pkgs, m, done0, o0),
        visited.len() == done0.len(),
        done0.len() == pkgs@.packages.len(),
        t0.len() > 0,
        t0.last() == (node, true),
        visited.len() <= usize::MAX,
        in_module(pkgs, m, node) ==> o1 == o0.push(source(node)),
        !in_module(pkgs, m, node) ==> o1 == o0,
    ensures
        stack_ok(g, pkgs, m, visited, done0.update(node.0 as int, true), t0.drop_last()),
        emitted_ok(g, pkgs, m, done0.update(node.0 as int, true), o1),
{
    let t = t0.drop_last();
    let l = t.len() as int;
    let done = done0.update(node.0 as int, true);
    let x = node.0 as int;
    assert(t0[l] == (node, true));
    assert(0 <= x < visited.len());
    assert(visited[x] && !done0[x]);
    assert(PackageId(x as u64) == node);
    assert forall|k: int| 0 <= k < t.len() implies (#[trigger] t[k]).0.0 < visited.len() by {
        assert(t[k] == t0[k]);
    }
    assert forall|k: int| 0 <= k < t.len() && (#[trigger] t[k]).1 implies visited[t[k].0.0 as int] && !done[t[k].0.0 as int] by {
        assert(t[k] == t0[k]);
        assert(t0[k].0 != t0[l].0);
    }
    assert forall|j: int, k: int| 0 <= j < k < t.len() && (#[trigger] t[j]).1 && (#[trigger] t[k]).1 implies t[j].0 != t[k].0 by {
        assert(t[j] == t0[j] && t[k] == t0[k]);
    }
    assert forall|p: int| 0 <= p < visited.len() && #[trigger] visited[p] && !done[p] implies marked(t, p) by {
        assert(p != x);
        assert(!done0[p]);
        let k = choose|k: int| 0 <= k < t0.len() && #[trigger] t0[k] == (PackageId(p as u64), true);
        if k == l {
            assert(PackageId(p as u64) == node);
            assert(p == x);
        }
        assert(t[k] == t0[k]);
    }
    assert forall|p: int| 0 <= p < visited.len() && #[trigger] done[p] implies visited[p] by {
        if p != x {
            assert(done0[p]);
        }
    }
    assert forall|k: int, c: PackageId|
        0 <= k < t.len() && (#[trigger] t[k]).1 && #[trigger] module_edge(g, pkgs, m, t[k].0, c) implies done[c.0 as int]
            || (exists|j: int| k < j < t.len() && (#[trigger] t[j]).0 == c)
            || (exists|j: int| 0 <= j <= k && #[trigger] t[j] == (c, true)) by {
        assert(t[k] == t0[k]);
        assert(t0[k].1 && module_edge(g, pkgs, m, t0[k].0, c));
        if !done[c.0 as int] {
            assert(!done0[c.0 as int]);
            if exists|j: int| 0 <= j <= k && #[trigger] t0[j] == (c, true) {
                let j = choose|j: int| 0 <= j <= k && #[trigger] t0[j] == (c, true);
                assert(t[j] == t0[j]);
            } else {
                let j = choose|j: int| k < j < t0.len() && (#[trigger] t0[j]).0 == c;
                if j == l {
                    assert(c == node);
                } else {
                    assert(t[j] == t0[j]);
                }
            }
        }
    }
    assert forall|j: int, k: int| 0 <= j < k < t.len() && (#[trigger] t[j]).1 implies #[trigger] module_reaches(g, pkgs, m, t[j].0, t[k].0) by {
        assert(t[j] == t0[j] && t[k] == t0[k]);
    }
    // The emitted list.
    assert forall|c: PackageId| #[trigger] module_edge(g, pkgs, m, node, c) && module_acyclic(g, pkgs, m) implies done0[c.0 as int] by {
        assert(t0[l].1 && module_edge(g, pkgs, m, t0[l].0, c));
        if !done0[c.0 as int] {
            assert(!exists|j: int| l < j < t0.len() && (#[trigger] t0[j]).0 == c);
            let j = choose|j: int| 0 <= j <= l && #[trigger] t0[j] == (c, true);
            if j == l {
                assert(c == node);
                lemma_edge_reaches(g, pkgs, m, node, node);
                assert(module_reaches(g, pkgs, m, node, node));
            } else {
                assert(module_reaches(g, pkgs, m, t0[j].0, t0[l].0));
                lemma_reaches_edge(g, pkgs, m, c, node, c);
                assert(module_reaches(g, pkgs, m, c, c));
            }
        }
    }
    assert forall|i: int| 0 <= i < o1.len() implies (#[trigger] o1[i]).kind == TargetKind::Source && in_module(pkgs, m, o1[i].package) && done[o1[i].package.0 as int] by {
        if i < o0.len() {
            assert(o1[i] == o0[i]);
        }
    }
    assert forall|p: int| 0 <= p < done.len() && done[p] && #[trigger] in_module(pkgs, m, PackageId(p as u64)) implies o1.contains(source(PackageId(p as u64))) by {
        if p == x {
            assert(o1[o0.len() as int] == source(node));
        } else {
            assert(done0[p]);
            let k = choose|k: int| 0 <= k < o0.len() && o0[k] == source(PackageId(p as u64));
            assert(o1[k] == o0[k]);
        }
    }
    assert forall|i: int, j: int| 0 <= i < j < o1.len() implies o1[i] != o1[j] by {
        if j == o0.len() {
            assert(o1[i] == o0[i]);
            assert(done0[o0[i].package.0 as int]);
        } else {
            assert(o1[i] == o0[i] && o1[j] == o0[j]);
        }
    }
    if module_acyclic(g, pkgs, m) {
        assert forall|i: int, c: PackageId|
            0 <= i < o1.len() && #[trigger] module_edge(g, pkgs, m, o1[i].package, c) implies exists|k: int| 0 <= k < i && o1[k] == source(c) by {
            if i < o0.len() {
                assert(o1[i] == o0[i]);
                let k = choose|k: int| 0 <= k < i && o0[k] == source(c);
                assert(o1[k] == o0[k]);
            } else {
                assert(o1[i] == source(node));
                assert(done0[c.0 as int]);
                assert(PackageId(c.0 as int as u64) == c);
                assert(in_module(pkgs, m, PackageId(c.0 as int as u64)));
                let k = choose|k: int| 0 <= k < o0.len() && o0[k] == source(PackageId(c.0 as int as u64));
                assert(o1[k] == o0[k]);
            }
        }
    }
}

/// Expanding an unvisited package: it is visited and marked where it was
/// popped, and its unvisited module dependencies are pushed above it.
proof fn lemma_expand(
    g: DepGraph,
    pkgs: DiscoverResult,
    m: ModuleId,
    vis0: Seq<bool>,
    vis1: Seq<bool>,
    done: Seq<bool>,
    t0: Seq<(PackageId, bool)>,
    t1: Seq<(PackageId, bool)>,
    t2: Seq<(PackageId, bool)>,
    deps: Seq<BuildTarget>,
    node: PackageId,
)
    requires
        stack_ok(g, pkgs, m, vis0, done, t0),
        vis0.len() == done.len(),
        done.len() == pkgs@.packages.len(),
        t0.len() > 0,
        t0.last() == (node, false),
        !vis0[node.0 as int],
        vis0.len() <= usize::MAX,
        vis1 == vis0.update(node.0 as int, true),
        t1 == t0.drop_last().push((node, true)),
        t2.len() >= t1.len(),
        forall|q: int| 0 <= q < t1.len() ==> t2[q] == #[trigger] t1[q],
        forall|q: int| t1.len() <= q < t2.len() ==> !(#[trigger] t2[q]).1 && module_edge(g, pkgs, m, node, t2[q].0),
        forall|x: BuildTarget| deps.contains(x) <==> (g.deps(source(node)).contains(x) && x.kind == TargetKind::Source && in_module(pkgs, m, x.package)),
        forall|i: int| 0 <= i < deps.len() ==> vis1[(#[trigger] deps[i]).package.0 as int] || exists|q: int| t1.len() <= q < t2.len() && t2[q].0 == deps[i].package,
    ensures
        stack_ok(g, pkgs, m, vis1, done, t2),
{
    let l = t0.len() - 1;
    let x = node.0 as int;
    assert(t0[l] == (node, false));
    assert(0 <= x < vis0.len());
    assert(PackageId(x as u64) == node);
    assert(!done[x]);
    assert(t1[l] == (node, true));
    assert(t2[l] == (node, true));
    assert forall|q: int| 0 <= q < l implies #[trigger] t2[q] == t0[q] by {
        assert(t2[q] == t1[q]);
        assert(t1[q] == t0[q]);
    }
    assert forall|k: int| 0 <= k < t2.len() implies (#[trigger] t2[k]).0.0 < vis1.len() by {
        if k < l {
            assert(t2[k] == t1[k] && t1[k] == t0[k]);
        } else if k > l {
            assert(module_edge(g, pkgs, m, node, t2[k].0));
        }
    }
    assert forall|k: int| 0 <= k < t2.len() && (#[trigger] t2[k]).1 implies vis1[t2[k].0.0 as int] && !done[t2[k].0.0 as int] by {
        if k < l {
            assert(t2[k] == t1[k] && t1[k] == t0[k]);
        }
    }
    assert forall|j: int, k: int| 0 <= j < k < t2.len() && (#[trigger] t2[j]).1 && (#[trigger] t2[k]).1 implies t2[j].0 != t2[k].0 by {
        if k < l {
            assert(t2[j] == t0[j] && t2[k] == t0[k]);
        } else if k == l {
            assert(t2[j] == t0[j]);
            assert(vis0[t0[j].0.0 as int]);
        }
    }
    assert forall|p: int| 0 <= p < vis1.len() && #[trigger] vis1[p] && !done[p] implies marked(t2, p) by {
        if p == x {
            assert(t2[l] == (PackageId(p as u64), true));
        } else {
            assert(vis0[p]);
            let k = choose|k: int| 0 <= k < t0.len() && #[trigger] t0[k] == (PackageId(p as u64), true);
            assert(k != l);
            assert(t2[k] == t1[k] && t1[k] == t0[k]);
        }
    }
    assert forall|p: int| 0 <= p < vis1.len() && #[trigger] done[p] implies vis1[p] by {
        assert(vis0[p]);
    }
    assert forall|k: int, c: PackageId|
        0 <= k < t2.len() && (#[trigger] t2[k]).1 && #[trigger] module_edge(g, pkgs, m, t2[k].0, c) implies done[c.0 as int]
            || (exists|j: int| k < j < t2.len() && (#[trigger] t2[j]).0 == c)
            || (exists|j: int| 0 <= j <= k && #[trigger] t2[j] == (c, true)) by {
        if k < l {
            assert(t2[k] == t0[k]);
            assert(t0[k].1 && module_edge(g, pkgs, m, t0[k].0, c));
            if !done[c.0 as int] {
                if exists|j: int| 0 <= j <= k && #[trigger] t0[j] == (c, true) {
                    let j = choose|j: int| 0 <= j <= k && #[trigger] t0[j] == (c, true);
                    assert(t2[j] == t0[j]);
                } else {
                    let j = choose|j: int| k < j < t0.len() && (#[trigger] t0[j]).0 == c;
                    if j < l {
                        assert(t2[j] == t0[j]);
                    } else {
                        assert(t2[l].0 == c);
                    }
                }
            }
        } else {
            assert(k == l);
            assert(t2[k].0 == node);
            if !done[c.0 as int] {
                assert(g.deps(source(node)).contains(source(c)));
                assert(deps.contains(source(c)));
                let i = choose|i: int| 0 <= i < deps.len() && deps[i] == source(c);
                if exists|q: int| t1.len() <= q < t2.len() && t2[q].0 == deps[i].package {
                    let q = choose|q: int| t1.len() <= q < t2.len() && t2[q].0 == deps[i].package;
                    assert(t2[q].0 == c);
                } else {
                    assert(vis1[c.0 as int]);
                    if c == node {
                        assert(t2[l] == (c, true));
                    } else {
                        assert(c.0 as int != x);
                        assert(vis0[c.0 as int]);
                        assert(c.0 < vis0.len());
                        assert(PackageId(c.0 as int as u64) == c);
                        let q = choose|q: int| 0 <= q < t0.len() && #[trigger] t0[q] == (PackageId(c.0 as int as u64), true);
                        assert(q != l);
                        assert(t2[q] == t0[q]);
                        assert(t2[q] == (c, true));
                    }
                }
            }
        }
    }
    assert forall|j: int, k: int| 0 <= j < k < t2.len() && (#[trigger] t2[j]).1 implies #[trigger] module_reaches(g, pkgs, m, t2[j].0, t2[k].0) by {
        if k < l {
            assert(t2[j] == t0[j] && t2[k] == t0[k]);
        } else if k == l {
            assert(t2[j] == t0[j]);
            assert(module_reaches(g, pkgs, m, t0[j].0, t0[l].0));
        } else {
            assert(module_edge(g, pkgs, m, node, t2[k].0));
            if j == l {
                lemma_edge_reaches(g, pkgs, m, node, t2[k].0);
            } else {
                assert(t2[j] == t0[j]);
                assert(module_reaches(g, pkgs, m, t0[j].0, t0[l].0));
                lemma_reaches_edge(g, pkgs, m, t0[j].0, node, t2[k].0);
            }
        }
    }
}

/// Whether `(p, true)`, the marker of an expanded package, is on the stack.
pub open spec fn marked(t: Seq<(PackageId, bool)>, p: int) -> bool {
    exists|k: int| 0 <= k < t.len() && #[trigger] t[k] == (PackageId(p as u64), true)
}

/// What the traversal keeps true of the emitted list `o`: each entry is the
/// source target of a finished package of the module, at most once; each
/// finished package of the module is listed; and, without cycles, each entry
/// follows its dependencies.
pub open spec fn emitted_ok(g: DepGraph, pkgs: DiscoverResult, m: ModuleId, done: Seq<bool>, o: Seq<BuildTarget>) -> bool {
    &&& forall|i: int| 0 <= i < o.len() ==> (#[trigger] o[i]).kind == TargetKind::Source && in_module(pkgs, m, o[i].package) && done[o[i].package.0 as int]
    &&& forall|p: int| 0 <= p < done.len() && done[p] && #[trigger] in_module(pkgs, m, PackageId(p as u64)) ==> o.contains(source(PackageId(p as u64)))
    &&& forall|i: int, j: int| 0 <= i < j < o.len() ==> o[i] != o[j]
    &&& module_acyclic(g, pkgs, m) ==> forall|i: int, c: PackageId|
        0 <= i < o.len() && #[trigger] module_edge(g, pkgs, m, o[i].package, c) ==> exists|k: int| 0 <= k < i && o[k] == source(c)
}

/// The state of the traversal's stack `t`: packages on it name packages;
/// markers are visited, unfinished and distinct; every visited unfinished
/// package is marked; every module dependency of a marked package is
/// finished, still to be handled above it, or marked at or below it; and
/// each marked package reaches everything above it.
pub open spec fn stack_ok(g: DepGraph, pkgs: DiscoverResult, m: ModuleId, visited: Seq<bool>, done: Seq<bool>, t: Seq<(PackageId, bool)>) -> bool {
    &&& forall|k: int| 0 <= k < t.len() ==> (#[trigger] t[k]).0.0 < visited.len()
    &&& forall|k: int| 0 <= k < t.len() && (#[trigger] t[k]).1 ==> visited[t[k].0.0 as int] && !done[t[k].0.0 as int]
    &&& forall|j: int, k: int| 0 <= j < k < t.len() && (#[trigger] t[j]).1 && (#[trigger] t[k]).1 ==> t[j].0 != t[k].0
    &&& forall|p: int| 0 <= p < visited.len() && #[trigger] visited[p] && !done[p] ==> marked(t, p)
    &&& forall|p: int| 0 <= p < visited.len() && #[trigger] done[p] ==> visited[p]
    &&& forall|k: int, c: PackageId|
        0 <= k < t.len() && (#[trigger] t[k]).1 && #[trigger] module_edge(g, pkgs, m, t[k].0, c) ==> done[c.0 as int]
            || (exists|j: int| k < j < t.len() && (#[trigger] t[j]).0 == c)
            || (exists|j: int| 0 <= j <= k && #[trigger] t[j] == (c, true))
    &&& forall|j: int, k: int| 0 <= j < k < t.len() && (#[trigger] t[j]).1 ==> #[trigger] module_reaches(g, pkgs, m, t[j].0, t[k].0)
}

/// Lists the packages of module `module_id` in dependency order: a
/// depth-first traversal that stays within the module's source targets,
/// started from each package in name order and visiting dependencies in
/// name order, emits each package after the packages it depends on.
///
/// The result holds the source target of each of the module's packages
/// once; when the module's dependencies have no cycle, every package comes
/// after all of its dependencies within the module.
pub fn topo_sort_module_packages(pkgs: &DiscoverResult, graph: &DepGraph, module_id: ModuleId) -> (r: Vec<BuildTarget>)
    requires
        pkgs.wf(),
        graph.wf(),
        graph.deps_valid(*pkgs),
        exists|p: Seq<char>| pkgs@.modules.contains_key((module_id, p)),
    ensures
        forall|i: int, j: int| 0 <= i < j < r.len() ==> r@[i] != r@[j],
        forall|i: int| 0 <= i < r.len() ==> (#[trigger] r@[i]).kind == TargetKind::Source && in_module(*pkgs, module_id, r@[i].package),
        forall|p: Seq<char>|
            pkgs@.modules.contains_key((module_id, p)) && in_module(*pkgs, module_id, #[trigger] pkgs@.modules[(module_id, p)])
                ==> r@.contains(source(pkgs@.modules[(module_id, p)])),
        module_acyclic(*graph, *pkgs, module_id) ==> forall|i: int, c: PackageId|
            0 <= i < r.len() && #[trigger] module_edge(*graph, *pkgs, module_id, r@[i].package, c) ==> exists|k: int|
                0 <= k < i && r@[k] == source(c),
{
    let n = pkgs.package_count();
    let pkg_map = match pkgs.packages_for_module(module_id) {
        Some(v) => v,
        None => {
            proof {
                let p = choose|p: Seq<char>| pkgs@.modules.contains_key((module_id, p));
                assert(!pkgs@.modules.contains_key((module_id, p)));
            }
            Vec::new()
        },
    };
    proof {
        assert forall|k: int| 0 <= k < pkg_map.len() implies valid_id(pkgs@, (#[trigger] pkg_map@[k]).1) by {
            let q = pkg_map@[k].0@;
            lemma_assoc_lookup(pkg_map@, name_key(), id_value(), q);
            lemma_modules_valid(*pkgs, (module_id, q));
        }
    }
    let mut seeds: Vec<BuildTarget> = Vec::new();
    let mut i: usize = 0;
    while i < pkg_map.len()
        invariant
            i <= pkg_map.len(),
            seeds.len() == i,
            forall|k: int| 0 <= k < i ==> #[trigger] seeds@[k] == source(pkg_map@[k].1),
            forall|k: int| 0 <= k < pkg_map.len() ==> valid_id(pkgs@, (#[trigger] pkg_map@[k]).1),
        decreases pkg_map.len() - i,
    {
        seeds.push(pkg_map[i].1.build_target(TargetKind::Source));
        i = i + 1;
    }
    let ghost unsorted = seeds@;
    let seeds = sort_targets(seeds, pkgs, false);
    proof {
        assert forall|k: int| 0 <= k < seeds.len() implies (#[trigger] seeds@[k]).package.0 < n && seeds@[k].kind == TargetKind::Source by {
            assert(unsorted.contains(seeds@[k]));
            let q = choose|q: int| 0 <= q < unsorted.len() && unsorted[q] == seeds@[k];
            assert(valid_id(pkgs@, pkg_map@[q].1));
        }
    }
    let mut visited: Vec<bool> = Vec::new();
    let mut v: usize = 0;
    while v < n
        invariant
            v <= n,
            visited@ == Seq::new(v as nat, |i: int| false),
        decreases n - v,
    {
        visited.push(false);
        assert(visited@ =~= Seq::new((v + 1) as nat, |i: int| false));
        v = v + 1;
    }
    let ghost mut done: Seq<bool> = Seq::new(n as nat, |i: int| false);
    let mut count: usize = 0;
    proof {
        lemma_count_true_none(visited@);
    }
    let mut ordered: Vec<BuildTarget> = Vec::new();
    let mut stack: Vec<(PackageId, bool)> = Vec::new();
    let mut s: usize = 0;
    while s < seeds.len()
        invariant
            n == pkgs@.packages.len(),
            pkgs.wf(),
            graph.wf(),
            graph.deps_valid(*pkgs),
            s <= seeds.len(),
            forall|k: int| 0 <= k < seeds.len() ==> (#[trigger] seeds@[k]).package.0 < n && seeds@[k].kind == TargetKind::Source,
            forall|k: int| 0 <= k < s ==> visited@[(#[trigger] seeds@[k]).package.0 as int],
            stack@.len() == 0,
            visited@.len() == n,
            done.len() == n,
            count == count_true(visited@),
            count <= n,
            stack_ok(*graph, *pkgs, module_id, visited@, done, stack@),
            emitted_ok(*graph, *pkgs, module_id, done, ordered@),
        decreases seeds.len() - s,
    {
        let seed = seeds[s].package;
        if !visited[index_of(seed, n)] {
            stack.push((seed, false));
            while stack.len() > 0
                invariant
                    n == pkgs@.packages.len(),
                    pkgs.wf(),
                    graph.wf(),
                    graph.deps_valid(*pkgs),
                    seed.0 < n,
                    visited@.len() == n,
                    done.len() == n,
                    count == count_true(visited@),
                    count <= n,
                    visited@[seed.0 as int] || (stack@.len() > 0 && stack@[0] == (seed, false)),
                    s < seeds.len(),
                    forall|k: int| 0 <= k < seeds.len() ==> (#[trigger] seeds@[k]).package.0 < n && seeds@[k].kind == TargetKind::Source,
                    forall|k: int| 0 <= k < s ==> visited@[(#[trigger] seeds@[k]).package.0 as int],
                    stack_ok(*graph, *pkgs, module_id, visited@, done, stack@),
                    emitted_ok(*graph, *pkgs, module_id, done, ordered@),
                decreases n - count, stack@.len(),
            {
                let ghost t0 = stack@;
                let (node, expanded) = stack.pop().unwrap();
                let ghost p = stack@.len() as int;
                proof {
                    assert(t0 == stack@.push((node, expanded)));
                    assert(t0[p] == (node, expanded));
                }
                if expanded {
                    let ghost done0 = done;
                    let ghost o0 = ordered@;
                    proof {
                        done = done.update(node.0 as int, true);
                    }
                    let pkg = pkgs.get_package(node);
                    if pkg.module == module_id {
                        ordered.push(node.build_target(TargetKind::Source));
                    }
                    proof {
                        lemma_emit(*graph, *pkgs, module_id, visited@, done0, t0, o0, ordered@, node);
                    }
                } else if visited[index_of(node, n)] {
                    proof {
                        lemma_skip(*graph, *pkgs, module_id, visited@, done, t0, node);
                    }
                } else {
                    let ghost vis0 = visited@;
                    proof {
                        lemma_count_true_set(visited@, node.0 as int);
                        lemma_count_true_bound(visited@.update(node.0 as int, true));
                    }
                    let ix = index_of(node, n);
                    visited.set(ix, true);
                    count = count + 1;
                    proof {
                        assert(visited@ == vis0.update(node.0 as int, true));
                        assert forall|k: int| 0 <= k < s implies visited@[(#[trigger] seeds@[k]).package.0 as int] by {
                            assert(seeds@[k].package.0 < n);
                            assert(vis0[seeds@[k].package.0 as int]);
                        }
                    }
                    stack.push((node, true));
                    let ghost t1 = stack@;
                    proof {
                        if t0.len() > 1 {
                            assert(t1[0] == t0[0]);
                        }
                    }
                    let deps = module_deps(graph, pkgs, module_id, node);
                    let mut j: usize = deps.len();
                    while j > 0
                        invariant
                            j <= deps.len(),
                            stack@.len() >= t1.len(),
                            forall|q: int| 0 <= q < t1.len() ==> stack@[q] == #[trigger] t1[q],
                            forall|q: int| t1.len() <= q < stack@.len() ==> !(#[trigger] stack@[q]).1 && module_edge(*graph, *pkgs, module_id, node, stack@[q].0),
                            forall|i: int| 0 <= i < deps.len() ==> (#[trigger] deps@[i]).kind == TargetKind::Source && in_module(*pkgs, module_id, deps@[i].package),
                            forall|x: BuildTarget| deps@.contains(x) <==> (graph.deps(source(node)).contains(x) && x.kind == TargetKind::Source && in_module(*pkgs, module_id, x.package)),
                            forall|i: int| j <= i < deps.len() ==> visited@[(#[trigger] deps@[i]).package.0 as int] || exists|q: int| t1.len() <= q < stack@.len() && stack@[q].0 == deps@[i].package,
                            visited@.len() == n,
                            n == pkgs@.packages.len(),
                            forall|k: int| 0 <= k < seeds.len() ==> (#[trigger] seeds@[k]).package.0 < n,
                            s < seeds.len(),
                            forall|k: int| 0 <= k < s ==> visited@[(#[trigger] seeds@[k]).package.0 as int],
                            visited@[seed.0 as int] || (stack@.len() > 0 && stack@[0] == (seed, false)),
                        decreases j,
                    {
                        j = j - 1;
                        let d = deps[j];
                        let ghost before = stack@;
                        proof {
                            assert(deps@.contains(d));
                            assert(d == source(d.package));
                            assert(module_edge(*graph, *pkgs, module_id, node, d.package));
                        }
                        if !visited[index_of(d.package, n)] {
                            stack.push((d.package, false));
                        }
                        proof {
                            assert forall|i: int| j <= i < deps.len() implies visited@[(#[trigger] deps@[i]).package.0 as int] || exists|q: int| t1.len() <= q < stack@.len() && stack@[q].0 == deps@[i].package by {
                                if i == j {
                                    if !visited@[d.package.0 as int] {
                                        assert(stack@[stack@.len() - 1].0 == d.package);
                                    }
                                } else if !visited@[deps@[i].package.0 as int] {
                                    let q = choose|q: int| t1.len() <= q < before.len() && before[q].0 == deps@[i].package;
                                    assert(stack@[q] == before[q]);
                                }
                            }
                        }
                    }
                    proof {
                        lemma_expand(*graph, *pkgs, module_id, vis0, visited@, done, t0, t1, stack@, deps@, node);
                    }
                }
            }
        }
        s = s + 1;
    }
    proof {
        assert forall|q: Seq<char>|
            pkgs@.modules.contains_key((module_id, q)) && in_module(*pkgs, module_id, #[trigger] pkgs@.modules[(module_id, q)])
                implies ordered@.contains(source(pkgs@.modules[(module_id, q)])) by {
            lemma_assoc_lookup(pkg_map@, name_key(), id_value(), q);
            let k = choose|k: int| 0 <= k < pkg_map@.len() && name_key()(#[trigger] pkg_map@[k].0) == q;
            assert(unsorted[k] == source(pkg_map@[k].1));
            assert(unsorted.contains(source(pkg_map@[k].1)));
            assert(seeds@.contains(source(pkg_map@[k].1)));
            let z = choose|z: int| 0 <= z < seeds@.len() && seeds@[z] == source(pkg_map@[k].1);
            assert(visited@[seeds@[z].package.0 as int]);
            let id = pkg_map@[k].1;
            assert(PackageId(id.0 as int as u64) == id);
        }
    }
    ordered
}

} // verus!
