//! The build targets linked into one executable: a depth-first traversal of
//! the dependency graph from the linked target, with virtual packages
//! replaced by their implementations.

use vstd::prelude::*;

use super::link_order::{
    lemma_order_emit, lemma_order_expand, lemma_order_pop_marker, lemma_order_pop_unexpanded,
    lemma_order_pop_visited, lemma_order_replace, lemma_order_start, link_acyclic, link_edge, link_order_ok,
    listed_before,
};
use super::prebuild::BuildPlanConstructError;
use super::traversal::{sort_targets, source, DepGraph};
use crate::assoc::{assoc_map, lemma_assoc_lookup, unique_keys};
use crate::build_action_plan::view::{count_true, lemma_count_true_bound, lemma_count_true_set};
use crate::discover::model::{package_name, valid_id, DiscoverResult};
use crate::model::{BuildTarget, PackageId, TargetKind};

verus! {

/// A set of build targets of `n` packages: one flag per package and kind.
pub struct TargetMarks {
    pub source: Vec<bool>,
    pub whitebox: Vec<bool>,
    pub blackbox: Vec<bool>,
    pub inline: Vec<bool>,
    pub sub: Vec<bool>,
}

impl TargetMarks {
    /// The flags of one kind.
    pub open spec fn row(&self, k: TargetKind) -> Seq<bool> {
        match k {
            TargetKind::Source => self.source@,
            TargetKind::WhiteboxTest => self.whitebox@,
            TargetKind::BlackboxTest => self.blackbox@,
            TargetKind::InlineTest => self.inline@,
            TargetKind::SubPackage => self.sub@,
        }
    }

    /// Whether `t` is in the set.
    pub open spec fn has(&self, t: BuildTarget) -> bool {
        self.row(t.kind)[t.package.0 as int]
    }

    /// The number of targets in the set.
    pub open spec fn size(&self) -> nat {
        count_true(self.source@) + count_true(self.whitebox@) + count_true(self.blackbox@) + count_true(
            self.inline@,
        ) + count_true(self.sub@)
    }

    /// Every kind has a flag for each of the `n` packages.
    pub open spec fn wf(&self, n: nat) -> bool {
        &&& self.source@.len() == n
        &&& self.whitebox@.len() == n
        &&& self.blackbox@.len() == n
        &&& self.inline@.len() == n
        &&& self.sub@.len() == n
    }

    fn falses(n: usize) -> (r: Vec<bool>)
        ensures
            r@.len() == n,
            forall|i: int| 0 <= i < n ==> !r@[i],
            count_true(r@) == 0,
    {
        let mut r: Vec<bool> = Vec::new();
        let mut i: usize = 0;
        while i < n
            invariant
                i <= n,
                r@.len() == i,
                forall|j: int| 0 <= j < i ==> !r@[j],
                count_true(r@) == 0,
            decreases n - i,
        {
            assert(r@.push(false).drop_last() =~= r@);
            r.push(false);
            i = i + 1;
        }
        r
    }

    /// The empty set of targets of `n` packages.
    pub fn new(n: usize) -> (r: TargetMarks)
        ensures
            r.wf(n as nat),
            r.size() == 0,
            forall|t: BuildTarget| t.package.0 < n ==> !#[trigger] r.has(t),
    {
        TargetMarks {
            source: Self::falses(n),
            whitebox: Self::falses(n),
            blackbox: Self::falses(n),
            inline: Self::falses(n),
            sub: Self::falses(n),
        }
    }

    /// Whether `t` is in the set.
    pub fn contains(&self, t: BuildTarget, n: usize) -> (r: bool)
        requires
            self.wf(n as nat),
            t.package.0 < n,
        ensures
            r == self.has(t),
    {
        let i = slot_of(t.package, n);
        match t.kind {
            TargetKind::Source => self.source[i],
            TargetKind::WhiteboxTest => self.whitebox[i],
            TargetKind::BlackboxTest => self.blackbox[i],
            TargetKind::InlineTest => self.inline[i],
            TargetKind::SubPackage => self.sub[i],
        }
    }

    /// Adds `t`, which is not in the set.
    pub fn insert(&mut self, t: BuildTarget, n: usize)
        requires
            old(self).wf(n as nat),
            t.package.0 < n,
            !old(self).has(t),
        ensures
            final(self).wf(n as nat),
            forall|u: BuildTarget| u.package.0 < n ==> #[trigger] final(self).has(u) == (old(self).has(u) || u == t),
            final(self).size() == old(self).size() + 1,
            final(self).size() <= 5 * n,
    {
        let i = slot_of(t.package, n);
        let ghost p = t.package.0 as int;
        proof {
            lemma_count_true_set(self.row(t.kind), p);
            lemma_count_true_bound(self.source@);
            lemma_count_true_bound(self.whitebox@);
            lemma_count_true_bound(self.blackbox@);
            lemma_count_true_bound(self.inline@);
            lemma_count_true_bound(self.sub@);
            lemma_count_true_bound(self.row(t.kind).update(p, true));
        }
        match t.kind {
            TargetKind::Source => self.source.set(i, true),
            TargetKind::WhiteboxTest => self.whitebox.set(i, true),
            TargetKind::BlackboxTest => self.blackbox.set(i, true),
            TargetKind::InlineTest => self.inline.set(i, true),
            TargetKind::SubPackage => self.sub.set(i, true),
        }
        proof {
            assert forall|u: BuildTarget| u.package.0 < n implies #[trigger] self.has(u) == (old(self).has(u) || u == t) by {
                if u.kind == t.kind && u.package.0 as int == p {
                    assert(u.package == t.package);
                }
            }
        }
    }
}

/// The position of package `p` among `n` packages.
fn slot_of(p: PackageId, n: usize) -> (r: usize)
    requires
        p.0 < n,
    ensures
        r as int == p.0 as int,
{
    let r = p.0 as usize;
    assert(r as int == p.0 as int);
    r
}

/// What a link traversal depends on.
pub struct LinkScope {
    pub pkgs: DiscoverResult,
    pub graph: DepGraph,
    /// The implementation chosen for each virtual package.
    pub overrides: Map<PackageId, PackageId>,
    /// Whether the standard library is linked implicitly.
    pub std: bool,
    /// The target being linked.
    pub target: BuildTarget,
}

/// A package id, as an override table keys it.
pub open spec fn package_key() -> spec_fn(PackageId) -> PackageId {
    |p: PackageId| p
}

/// The override table of the linked target's package, if it has one.
pub open spec fn override_map(ov: Option<Vec<(PackageId, PackageId)>>) -> Map<PackageId, PackageId> {
    match ov {
        Some(v) => assoc_map(v@, package_key(), package_key()),
        None => Map::empty(),
    }
}

/// The node that stands for `x`: the source of its package's implementation
/// when the package is overridden, `x` itself otherwise.
pub open spec fn resolve(s: LinkScope, x: BuildTarget) -> BuildTarget {
    if s.overrides.contains_key(x.package) {
        source(s.overrides[x.package])
    } else {
        x
    }
}

/// The `abort` package of the standard library, when the library is linked.
pub open spec fn link_abort(s: LinkScope) -> Option<PackageId> {
    if s.std {
        s.pkgs@.abort
    } else {
        None
    }
}

/// The package that overrides `abort`, if any.
pub open spec fn abort_override(s: LinkScope) -> Option<PackageId> {
    match link_abort(s) {
        Some(a) => if s.overrides.contains_key(a) {
            Some(s.overrides[a])
        } else {
            None
        },
        None => None,
    }
}

/// Whether the traversal expands `x`: everything but what resolves to
/// `abort`.
pub open spec fn expands(s: LinkScope, x: BuildTarget) -> bool {
    link_abort(s) != Some(resolve(s, x).package)
}

/// Whether `c` is visited from `x`: a dependency of the node that stands for
/// `x`, leaving out standard-library packages when the library is linked
/// implicitly, or the override of `abort` when `x` is the linked target.
pub open spec fn link_kid(s: LinkScope, x: BuildTarget, c: BuildTarget) -> bool {
    ||| s.graph.deps(resolve(s, x)).contains(c) && (!s.std || !s.pkgs@.packages[c.package.0 as int].is_stdlib)
    ||| x == s.target && abort_override(s) == Some(c.package) && c.kind == TargetKind::Source
}

/// `path` goes from the linked target through visited dependencies.
pub open spec fn link_path(s: LinkScope, path: Seq<BuildTarget>) -> bool {
    &&& path.len() >= 1
    &&& path[0] == s.target
    &&& forall|i: int| 0 <= i < path.len() - 1 ==> expands(s, #[trigger] path[i]) && link_kid(s, path[i], path[i + 1])
}

/// Whether the traversal reaches `x`.
pub open spec fn reached(s: LinkScope, x: BuildTarget) -> bool {
    exists|path: Seq<BuildTarget>| #[trigger] link_path(s, path) && path.last() == x
}

/// Whether `y` stands for some target that the traversal reaches and
/// expands.
pub open spec fn produced(s: LinkScope, y: BuildTarget) -> bool {
    exists|x: BuildTarget| #[trigger] reached(s, x) && expands(s, x) && resolve(s, x) == y
}

/// Whether package `p` has code to link.
pub open spec fn has_impl(pkgs: DiscoverResult, p: PackageId) -> bool {
    match pkgs@.packages[p.0 as int].raw.virtual_pkg {
        None => true,
        Some(has_default) => has_default,
    }
}

/// Whether package `p` has C stubs.
pub open spec fn has_stubs(pkgs: DiscoverResult, p: PackageId) -> bool {
    pkgs@.packages[p.0 as int].c_stub_files@.len() > 0
}

/// The whitebox-test target of package `p`.
pub open spec fn whitebox(p: PackageId) -> BuildTarget {
    BuildTarget { package: p, kind: TargetKind::WhiteboxTest }
}

/// The scope of a traversal of `graph` from `target`.
pub open spec fn link_scope(
    pkgs: DiscoverResult,
    graph: DepGraph,
    overrides: Option<Vec<(PackageId, PackageId)>>,
    std: bool,
    target: BuildTarget,
) -> LinkScope {
    LinkScope { pkgs, graph, overrides: override_map(overrides), std, target }
}

/// The override of package `p`, if the table has one.
fn lookup_override(overrides: &Option<Vec<(PackageId, PackageId)>>, p: PackageId) -> (r: Option<PackageId>)
    requires
        overrides matches Some(v) ==> unique_keys(v@, package_key()),
    ensures
        r == (if override_map(*overrides).contains_key(p) {
            Some(override_map(*overrides)[p])
        } else {
            None
        }),
{
    match overrides {
        None => None,
        Some(v) => {
            proof {
                lemma_assoc_lookup(v@, package_key(), package_key(), p);
            }
            let mut i: usize = 0;
            while i < v.len()
                invariant
                    i <= v.len(),
                    *overrides == Some(*v),
                    unique_keys(v@, package_key()),
                    forall|j: int| 0 <= j < i ==> v@[j].0 != p,
                decreases v.len() - i,
            {
                if v[i].0 == p {
                    proof {
                        lemma_assoc_lookup(v@, package_key(), package_key(), p);
                        assert(package_key()(v@[i as int].0) == p);
                        assert(override_map(*overrides) == assoc_map(v@, package_key(), package_key()));
                        assert(assoc_map(v@, package_key(), package_key())[p] == package_key()(v@[i as int].1));
                    }
                    return Some(v[i].1);
                }
                i = i + 1;
            }
            proof {
                if assoc_map(v@, package_key(), package_key()).contains_key(p) {
                    let j = choose|j: int| 0 <= j < v@.len() && package_key()(#[trigger] v@[j].0) == p;
                    assert(v@[j].0 != p);
                }
            }
            None
        },
    }
}

/// Whether `list` holds `t`.
fn holds(list: &Vec<BuildTarget>, t: BuildTarget) -> (r: bool)
    ensures
        r == list@.contains(t),
{
    let mut i: usize = 0;
    while i < list.len()
        invariant
            i <= list.len(),
            forall|j: int| 0 <= j < i ==> list@[j] != t,
        decreases list.len() - i,
    {
        if list[i] == t {
            return true;
        }
        i = i + 1;
    }
    false
}

/// The position of `t` in `list`, if it is there.
fn position(list: &Vec<BuildTarget>, t: BuildTarget) -> (r: Option<usize>)
    ensures
        match r {
            Some(i) => i < list.len() && list@[i as int] == t,
            None => !list@.contains(t),
        },
{
    let mut i: usize = 0;
    while i < list.len()
        invariant
            i <= list.len(),
            forall|j: int| 0 <= j < i ==> list@[j] != t,
        decreases list.len() - i,
    {
        if list[i] == t {
            return Some(i);
        }
        i = i + 1;
    }
    None
}

/// Adds package `p` to `list` unless it is there.
fn add_package(list: &mut Vec<PackageId>, p: PackageId)
    ensures
        forall|q: PackageId| #[trigger] final(list)@.contains(q) == (old(list)@.contains(q) || q == p),
        (forall|i: int, j: int| 0 <= i < j < old(list)@.len() ==> old(list)@[i] != old(list)@[j]) ==> (forall|i: int, j: int|
            0 <= i < j < final(list)@.len() ==> final(list)@[i] != final(list)@[j]),
{
    let mut i: usize = 0;
    while i < list.len()
        invariant
            i <= list.len(),
            forall|j: int| 0 <= j < i ==> list@[j] != p,
        decreases list.len() - i,
    {
        if list[i] == p {
            return;
        }
        i = i + 1;
    }
    let ghost before = list@;
    list.push(p);
    proof {
        assert forall|q: PackageId| #[trigger] list@.contains(q) == (before.contains(q) || q == p) by {
            if list@.contains(q) {
                let k = choose|k: int| 0 <= k < list@.len() && list@[k] == q;
                if k < before.len() {
                    assert(before[k] == q);
                }
            }
            if before.contains(q) {
                let k = choose|k: int| 0 <= k < before.len() && before[k] == q;
                assert(list@[k] == q);
            }
            if q == p {
                assert(list@[before.len() as int] == p);
            }
        }
    }
}

/// The targets visited from `curr`, which stands for `node`, in name then
/// kind order.
fn link_kids(
    pkgs: &DiscoverResult,
    graph: &DepGraph,
    overrides: &Option<Vec<(PackageId, PackageId)>>,
    std: bool,
    target: BuildTarget,
    abort_override_pkg: Option<PackageId>,
    curr: BuildTarget,
    node: BuildTarget,
) -> (r: Vec<BuildTarget>)
    requires
        pkgs.wf(),
        graph.wf(),
        graph.deps_valid(*pkgs),
        node == resolve(link_scope(*pkgs, *graph, *overrides, std, target), curr),
        abort_override_pkg == abort_override(link_scope(*pkgs, *graph, *overrides, std, target)),
        abort_override_pkg matches Some(o) ==> valid_id(pkgs@, o),
    ensures
        forall|c: BuildTarget| #[trigger] r@.contains(c) <==> link_kid(link_scope(*pkgs, *graph, *overrides, std, target), curr, c),
        forall|i: int| 0 <= i < r.len() ==> valid_id(pkgs@, (#[trigger] r@[i]).package),
{
    let ghost s = link_scope(*pkgs, *graph, *overrides, std, target);
    let mut deps: Vec<BuildTarget> = Vec::new();
    match graph.neighbors(node) {
        Some(v) => {
            proof {
                let e = choose|e: int| 0 <= e < graph.edges@.len() && graph.edges@[e].1 == *v;
                assert forall|j: int| 0 <= j < v.len() implies valid_id(pkgs@, (#[trigger] v@[j]).package) by {
                    assert(graph.edges@[e].1@[j] == v@[j]);
                }
            }
            let mut i: usize = 0;
            while i < v.len()
                invariant
                    i <= v.len(),
                    v@ == graph.deps(node),
                    forall|j: int| 0 <= j < v.len() ==> valid_id(pkgs@, (#[trigger] v@[j]).package),
                    forall|j: int| 0 <= j < deps.len() ==> valid_id(pkgs@, (#[trigger] deps@[j]).package),
                    forall|c: BuildTarget| #[trigger] deps@.contains(c) <==> (v@.take(i as int).contains(c) && (!std || !pkgs@.packages[c.package.0 as int].is_stdlib)),
                decreases v.len() - i,
            {
                let d = v[i];
                let ghost before = deps@;
                if !std || !pkgs.is_stdlib_package(d.package) {
                    deps.push(d);
                }
                proof {
                    let w = v@.take(i + 1);
                    let w0 = v@.take(i as int);
                    assert(w == w0.push(d));
                    assert forall|c: BuildTarget| #[trigger] deps@.contains(c) <==> (w.contains(c) && (!std || !pkgs@.packages[c.package.0 as int].is_stdlib)) by {
                        if w.contains(c) && c != d {
                            let q = choose|q: int| 0 <= q < w.len() && w[q] == c;
                            assert(w0[q] == c);
                        }
                        if w0.contains(c) {
                            let q = choose|q: int| 0 <= q < w0.len() && w0[q] == c;
                            assert(w[q] == c);
                        }
                        if c == d {
                            assert(w[i as int] == d);
                        }
                        if deps@.contains(c) && c != d {
                            let q = choose|q: int| 0 <= q < deps@.len() && deps@[q] == c;
                            if q < before.len() {
                                assert(before[q] == c);
                            }
                        }
                        if before.contains(c) {
                            let q = choose|q: int| 0 <= q < before.len() && before[q] == c;
                            assert(deps@[q] == c);
                        }
                        if c == d && deps@.len() > before.len() {
                            assert(deps@[before.len() as int] == d);
                        }
                    }
                }
                i = i + 1;
            }
            assert(v@.take(v.len() as int) =~= v@);
        },
        None => {},
    }
    let ghost filtered = deps@;
    if curr == target {
        if let Some(o) = abort_override_pkg {
            let ot = o.build_target(TargetKind::Source);
            if !holds(&deps, ot) {
                deps.push(ot);
            }
        }
    }
    proof {
        assert forall|c: BuildTarget| #[trigger] deps@.contains(c) <==> link_kid(s, curr, c) by {
            if filtered.contains(c) {
                let q = choose|q: int| 0 <= q < filtered.len() && filtered[q] == c;
                assert(deps@[q] == c);
            }
            if deps@.contains(c) {
                let q = choose|q: int| 0 <= q < deps@.len() && deps@[q] == c;
                if q < filtered.len() {
                    assert(filtered[q] == c);
                }
            }
            if curr == target && abort_override_pkg is Some && c == source(abort_override_pkg->0) && !filtered.contains(c) {
                assert(deps@[filtered.len() as int] == c);
            }
        }
        assert forall|j: int| 0 <= j < deps.len() implies valid_id(pkgs@, (#[trigger] deps@[j]).package) by {
            if j >= filtered.len() {
                assert(deps@[j] == source(abort_override_pkg->0));
            }
        }
    }
    let ghost unsorted = deps@;
    let r = sort_targets(deps, pkgs, true);
    proof {
        assert forall|j: int| 0 <= j < r.len() implies valid_id(pkgs@, (#[trigger] r@[j]).package) by {
            assert(r@.contains(r@[j]));
            assert(unsorted.contains(r@[j]));
            let q = choose|q: int| 0 <= q < unsorted.len() && unsorted[q] == r@[j];
        }
    }
    r
}

/// A reached target that is expanded reaches each target visited from it.
proof fn lemma_reached_kid(s: LinkScope, x: BuildTarget, c: BuildTarget)
    requires
        reached(s, x),
        expands(s, x),
        link_kid(s, x, c),
    ensures
        reached(s, c),
{
    let path = choose|path: Seq<BuildTarget>| #[trigger] link_path(s, path) && path.last() == x;
    let p2 = path.push(c);
    assert forall|i: int| 0 <= i < p2.len() - 1 implies expands(s, #[trigger] p2[i]) && link_kid(s, p2[i], p2[i + 1]) by {
        if i < path.len() - 1 {
            assert(p2[i] == path[i] && p2[i + 1] == path[i + 1]);
        } else {
            assert(p2[i] == x && p2[i + 1] == c);
        }
    }
    assert(link_path(s, p2));
}

/// A set that holds the linked target and the targets visited from each of
/// its expanded members holds everything the traversal reaches.
proof fn lemma_closed_holds_reached(s: LinkScope, visited: TargetMarks, n: nat, path: Seq<BuildTarget>)
    requires
        link_path(s, path),
        s.target.package.0 < n,
        visited.has(s.target),
        forall|x: BuildTarget, c: BuildTarget| #[trigger] link_kid(s, x, c) ==> c.package.0 < n,
        forall|x: BuildTarget, c: BuildTarget|
            x.package.0 < n && #[trigger] visited.has(x) && expands(s, x) && #[trigger] link_kid(s, x, c) ==> visited.has(c),
    ensures
        path.last().package.0 < n,
        visited.has(path.last()),
    decreases path.len(),
{
    if path.len() > 1 {
        let init = path.drop_last();
        assert forall|i: int| 0 <= i < init.len() - 1 implies expands(s, #[trigger] init[i]) && link_kid(s, init[i], init[i + 1]) by {
            assert(init[i] == path[i] && init[i + 1] == path[i + 1]);
        }
        assert(link_path(s, init));
        lemma_closed_holds_reached(s, visited, n, init);
        let k = path.len() - 2;
        assert(expands(s, path[k]) && link_kid(s, path[k], path[k + 1]));
        assert(init.last() == path[k]);
    }
}

/// Overrides name packages of the result, and so does every target visited
/// from another.
proof fn lemma_scope_valid(
    pkgs: DiscoverResult,
    graph: DepGraph,
    overrides: Option<Vec<(PackageId, PackageId)>>,
    std: bool,
    target: BuildTarget,
)
    requires
        pkgs.wf(),
        graph.wf(),
        graph.deps_valid(pkgs),
        overrides matches Some(v) ==> unique_keys(v@, package_key()) && forall|i: int|
            0 <= i < v.len() ==> valid_id(pkgs@, (#[trigger] v@[i]).0) && valid_id(pkgs@, v@[i].1),
        abort_override(link_scope(pkgs, graph, overrides, std, target)) matches Some(o) ==> valid_id(pkgs@, o),
    ensures
        forall|p: PackageId| #[trigger] override_map(overrides).contains_key(p) ==> valid_id(pkgs@, override_map(overrides)[p]),
        forall|x: BuildTarget, c: BuildTarget| #[trigger] link_kid(link_scope(pkgs, graph, overrides, std, target), x, c)
            ==> valid_id(pkgs@, c.package),
{
    let s = link_scope(pkgs, graph, overrides, std, target);
    assert forall|p: PackageId| #[trigger] override_map(overrides).contains_key(p) implies valid_id(pkgs@, override_map(overrides)[p]) by {
        let v = overrides->0;
        lemma_assoc_lookup(v@, package_key(), package_key(), p);
        let j = choose|j: int| 0 <= j < v@.len() && package_key()(#[trigger] v@[j].0) == p;
        assert(valid_id(pkgs@, v@[j].1));
    }
    assert forall|x: BuildTarget, c: BuildTarget| #[trigger] link_kid(s, x, c) implies valid_id(pkgs@, c.package) by {
        let y = resolve(s, x);
        if graph.deps(y).contains(c) {
            lemma_assoc_lookup(graph.edges@, super::traversal::node_key(), super::traversal::deps_value(), y);
            let e = choose|e: int| 0 <= e < graph.edges@.len() && super::traversal::node_key()(#[trigger] graph.edges@[e].0) == y;
            let q = choose|q: int| 0 <= q < graph.deps(y).len() && graph.deps(y)[q] == c;
            assert(graph.edges@[e].1@[q] == c);
        }
    }
}

/// The state of a link traversal: what is on the stack was reached (or
/// stands for a reached target), what was visited was reached, every
/// expanded target is finished or marked, every target visited from an
/// expanded one is visited or still on the stack, and the list and the stub
/// packages describe what was finished.
pub open spec fn link_state_ok(
    s: LinkScope,
    n: nat,
    native: bool,
    visited: TargetMarks,
    emitted: TargetMarks,
    t: Seq<(BuildTarget, bool)>,
    list: Seq<BuildTarget>,
    stubs: Seq<PackageId>,
) -> bool {
    &&& s.target.package.0 < n
    &&& forall|x: BuildTarget, c: BuildTarget| #[trigger] link_kid(s, x, c) ==> c.package.0 < n
    &&& forall|p: PackageId| #[trigger] s.overrides.contains_key(p) ==> s.overrides[p].0 < n
    &&& forall|k: int| 0 <= k < t.len() ==> (#[trigger] t[k]).0.package.0 < n
    &&& forall|k: int| 0 <= k < t.len() && !(#[trigger] t[k]).1 ==> reached(s, t[k].0)
    &&& forall|k: int| 0 <= k < t.len() && (#[trigger] t[k]).1 ==> produced(s, t[k].0)
    &&& forall|x: BuildTarget| x.package.0 < n && #[trigger] visited.has(x) ==> reached(s, x)
    &&& forall|x: BuildTarget|
        x.package.0 < n && #[trigger] visited.has(x) && expands(s, x) ==> emitted.has(resolve(s, x))
            || exists|k: int| 0 <= k < t.len() && #[trigger] t[k] == (resolve(s, x), true)
    &&& forall|x: BuildTarget, c: BuildTarget|
        x.package.0 < n && #[trigger] visited.has(x) && expands(s, x) && #[trigger] link_kid(s, x, c) ==> visited.has(c)
            || exists|k: int| 0 <= k < t.len() && #[trigger] t[k] == (c, false)
    &&& forall|i: int, j: int| 0 <= i < j < list.len() ==> list[i] != list[j]
    &&& forall|i: int| 0 <= i < list.len() ==> (#[trigger] list[i]).package.0 < n && emitted.has(list[i]) && produced(s, list[i])
        && has_impl(s.pkgs, list[i].package)
    &&& forall|y: BuildTarget|
        y.package.0 < n && #[trigger] emitted.has(y) ==> list.contains(y) || (y.kind == TargetKind::Source && list.contains(whitebox(y.package)))
    &&& forall|i: int, j: int| 0 <= i < j < stubs.len() ==> stubs[i] != stubs[j]
    &&& forall|p: PackageId| #[trigger] stubs.contains(p) <==> (native && has_stubs(s.pkgs, p) && exists|i: int| 0 <= i < list.len() && (#[trigger] list[i]).package == p)
}

/// Popping a target that was visited already keeps the state.
proof fn lemma_pop_visited(
    s: LinkScope,
    n: nat,
    native: bool,
    visited: TargetMarks,
    emitted: TargetMarks,
    t0: Seq<(BuildTarget, bool)>,
    list: Seq<BuildTarget>,
    stubs: Seq<PackageId>,
    curr: BuildTarget,
)
    requires
        link_state_ok(s, n, native, visited, emitted, t0, list, stubs),
        t0.len() > 0,
        t0.last() == (curr, false),
        visited.has(curr),
    ensures
        link_state_ok(s, n, native, visited, emitted, t0.drop_last(), list, stubs),
{
    let t = t0.drop_last();
    let l = t.len() as int;
    assert(t0[l] == (curr, false));
    assert forall|k: int| 0 <= k < t.len() implies #[trigger] t[k] == t0[k] by {}
    assert forall|x: BuildTarget|
        x.package.0 < n && #[trigger] visited.has(x) && expands(s, x) implies emitted.has(resolve(s, x))
            || exists|k: int| 0 <= k < t.len() && #[trigger] t[k] == (resolve(s, x), true) by {
        if !emitted.has(resolve(s, x)) {
            let k = choose|k: int| 0 <= k < t0.len() && #[trigger] t0[k] == (resolve(s, x), true);
            assert(k != l);
            assert(t[k] == t0[k]);
        }
    }
    assert forall|x: BuildTarget, c: BuildTarget|
        x.package.0 < n && #[trigger] visited.has(x) && expands(s, x) && #[trigger] link_kid(s, x, c) implies visited.has(c)
            || exists|k: int| 0 <= k < t.len() && #[trigger] t[k] == (c, false) by {
        if !visited.has(c) {
            let k = choose|k: int| 0 <= k < t0.len() && #[trigger] t0[k] == (c, false);
            assert(k != l);
            assert(t[k] == t0[k]);
        }
    }
}

/// Visiting a target that stands for `abort`: it is visited and not
/// expanded.
proof fn lemma_visit_unexpanded(
    s: LinkScope,
    n: nat,
    native: bool,
    v0: TargetMarks,
    v1: TargetMarks,
    emitted: TargetMarks,
    t0: Seq<(BuildTarget, bool)>,
    list: Seq<BuildTarget>,
    stubs: Seq<PackageId>,
    curr: BuildTarget,
)
    requires
        link_state_ok(s, n, native, v0, emitted, t0, list, stubs),
        t0.len() > 0,
        t0.last() == (curr, false),
        forall|u: BuildTarget| u.package.0 < n ==> #[trigger] v1.has(u) == (v0.has(u) || u == curr),
        !expands(s, curr),
    ensures
        link_state_ok(s, n, native, v1, emitted, t0.drop_last(), list, stubs),
{
    let t = t0.drop_last();
    let l = t.len() as int;
    assert(t0[l] == (curr, false));
    assert forall|k: int| 0 <= k < t.len() implies #[trigger] t[k] == t0[k] by {}
    assert forall|x: BuildTarget| x.package.0 < n && #[trigger] v1.has(x) implies reached(s, x) by {
        if x == curr {
            assert(!t0[l].1);
        } else {
            assert(v0.has(x));
        }
    }
    assert forall|x: BuildTarget|
        x.package.0 < n && #[trigger] v1.has(x) && expands(s, x) implies emitted.has(resolve(s, x))
            || exists|k: int| 0 <= k < t.len() && #[trigger] t[k] == (resolve(s, x), true) by {
        assert(x != curr);
        assert(v0.has(x));
        if !emitted.has(resolve(s, x)) {
            let k = choose|k: int| 0 <= k < t0.len() && #[trigger] t0[k] == (resolve(s, x), true);
            assert(k != l);
            assert(t[k] == t0[k]);
        }
    }
    assert forall|x: BuildTarget, c: BuildTarget|
        x.package.0 < n && #[trigger] v1.has(x) && expands(s, x) && #[trigger] link_kid(s, x, c) implies v1.has(c)
            || exists|k: int| 0 <= k < t.len() && #[trigger] t[k] == (c, false) by {
        assert(x != curr);
        assert(v0.has(x));
        if !v0.has(c) {
            let k = choose|k: int| 0 <= k < t0.len() && #[trigger] t0[k] == (c, false);
            if k == l {
                assert(c == curr);
                assert(t0[l].0.package.0 < n);
                assert(v1.has(c));
            } else {
                assert(t[k] == t0[k]);
            }
        }
    }
}

/// Popping the marker of a target that was finished already keeps the
/// state.
proof fn lemma_pop_emitted(
    s: LinkScope,
    n: nat,
    native: bool,
    visited: TargetMarks,
    emitted: TargetMarks,
    t0: Seq<(BuildTarget, bool)>,
    list: Seq<BuildTarget>,
    stubs: Seq<PackageId>,
    cur: BuildTarget,
)
    requires
        link_state_ok(s, n, native, visited, emitted, t0, list, stubs),
        t0.len() > 0,
        t0.last() == (cur, true),
        emitted.has(cur),
    ensures
        link_state_ok(s, n, native, visited, emitted, t0.drop_last(), list, stubs),
{
    let t = t0.drop_last();
    let l = t.len() as int;
    assert(t0[l] == (cur, true));
    assert forall|k: int| 0 <= k < t.len() implies #[trigger] t[k] == t0[k] by {}
    assert forall|x: BuildTarget|
        x.package.0 < n && #[trigger] visited.has(x) && expands(s, x) implies emitted.has(resolve(s, x))
            || exists|k: int| 0 <= k < t.len() && #[trigger] t[k] == (resolve(s, x), true) by {
        if !emitted.has(resolve(s, x)) {
            let k = choose|k: int| 0 <= k < t0.len() && #[trigger] t0[k] == (resolve(s, x), true);
            assert(k != l);
            assert(t[k] == t0[k]);
        }
    }
    assert forall|x: BuildTarget, c: BuildTarget|
        x.package.0 < n && #[trigger] visited.has(x) && expands(s, x) && #[trigger] link_kid(s, x, c) implies visited.has(c)
            || exists|k: int| 0 <= k < t.len() && #[trigger] t[k] == (c, false) by {
        if !visited.has(c) {
            let k = choose|k: int| 0 <= k < t0.len() && #[trigger] t0[k] == (c, false);
            assert(k != l);
            assert(t[k] == t0[k]);
        }
    }
}

/// Finishing the target on top of the stack: it is listed and its stubs
/// recorded.
proof fn lemma_emit_link(
    s: LinkScope,
    n: nat,
    native: bool,
    visited: TargetMarks,
    e0: TargetMarks,
    e1: TargetMarks,
    t0: Seq<(BuildTarget, bool)>,
    list0: Seq<BuildTarget>,
    list1: Seq<BuildTarget>,
    stubs0: Seq<PackageId>,
    stubs1: Seq<PackageId>,
    cur: BuildTarget,
)
    requires
        link_state_ok(s, n, native, visited, e0, t0, list0, stubs0),
        t0.len() > 0,
        t0.last() == (cur, true),
        !e0.has(cur),
        has_impl(s.pkgs, cur.package),
        list1 == (if list0.contains(cur) {
            list0
        } else {
            list0.push(cur)
        }),
        forall|u: BuildTarget| u.package.0 < n ==> #[trigger] e1.has(u) == (e0.has(u) || u == cur),
        forall|q: PackageId| #[trigger] stubs1.contains(q) == (stubs0.contains(q) || (native && has_stubs(s.pkgs, cur.package) && q == cur.package)),
        (forall|i: int, j: int| 0 <= i < j < stubs0.len() ==> stubs0[i] != stubs0[j]) ==> (forall|i: int, j: int|
            0 <= i < j < stubs1.len() ==> stubs1[i] != stubs1[j]),
    ensures
        link_state_ok(s, n, native, visited, e1, t0.drop_last(), list1, stubs1),
{
    let t = t0.drop_last();
    let l = t.len() as int;
    assert(t0[l] == (cur, true));
    assert(cur.package.0 < n);
    assert(produced(s, t0[l].0));
    assert forall|k: int| 0 <= k < t.len() implies #[trigger] t[k] == t0[k] by {}
    assert(!list0.contains(cur)) by {
        if list0.contains(cur) {
            let i = choose|i: int| 0 <= i < list0.len() && list0[i] == cur;
            assert(e0.has(list0[i]));
        }
    }
    assert(list1 == list0.push(cur));
    assert forall|x: BuildTarget|
        x.package.0 < n && #[trigger] visited.has(x) && expands(s, x) implies e1.has(resolve(s, x))
            || exists|k: int| 0 <= k < t.len() && #[trigger] t[k] == (resolve(s, x), true) by {
        if !e1.has(resolve(s, x)) {
            assert(resolve(s, x).package.0 < n);
            assert(!e0.has(resolve(s, x)));
            let k = choose|k: int| 0 <= k < t0.len() && #[trigger] t0[k] == (resolve(s, x), true);
            assert(k != l);
            assert(t[k] == t0[k]);
        }
    }
    assert forall|x: BuildTarget, c: BuildTarget|
        x.package.0 < n && #[trigger] visited.has(x) && expands(s, x) && #[trigger] link_kid(s, x, c) implies visited.has(c)
            || exists|k: int| 0 <= k < t.len() && #[trigger] t[k] == (c, false) by {
        if !visited.has(c) {
            let k = choose|k: int| 0 <= k < t0.len() && #[trigger] t0[k] == (c, false);
            assert(k != l);
            assert(t[k] == t0[k]);
        }
    }
    assert forall|i: int, j: int| 0 <= i < j < list1.len() implies list1[i] != list1[j] by {
        if j == list0.len() {
            assert(list1[i] == list0[i]);
        } else {
            assert(list1[i] == list0[i] && list1[j] == list0[j]);
        }
    }
    assert forall|i: int| 0 <= i < list1.len() implies (#[trigger] list1[i]).package.0 < n && e1.has(list1[i]) && produced(s, list1[i])
        && has_impl(s.pkgs, list1[i].package) by {
        if i < list0.len() {
            assert(list1[i] == list0[i]);
            assert(e0.has(list0[i]));
        }
    }
    assert forall|y: BuildTarget|
        y.package.0 < n && #[trigger] e1.has(y) implies list1.contains(y) || (y.kind == TargetKind::Source && list1.contains(whitebox(y.package))) by {
        if y == cur {
            assert(list1[list0.len() as int] == cur);
        } else {
            assert(e0.has(y));
            if list0.contains(y) {
                let i = choose|i: int| 0 <= i < list0.len() && list0[i] == y;
                assert(list1[i] == y);
            } else {
                let i = choose|i: int| 0 <= i < list0.len() && list0[i] == whitebox(y.package);
                assert(list1[i] == whitebox(y.package));
            }
        }
    }
    assert forall|p: PackageId| #[trigger] stubs1.contains(p) <==> (native && has_stubs(s.pkgs, p) && exists|i: int|
        0 <= i < list1.len() && (#[trigger] list1[i]).package == p) by {
        if exists|i: int| 0 <= i < list0.len() && (#[trigger] list0[i]).package == p {
            let i = choose|i: int| 0 <= i < list0.len() && (#[trigger] list0[i]).package == p;
            assert(list1[i] == list0[i]);
        }
        if exists|i: int| 0 <= i < list1.len() && (#[trigger] list1[i]).package == p {
            let i = choose|i: int| 0 <= i < list1.len() && (#[trigger] list1[i]).package == p;
            if i < list0.len() {
                assert(list1[i] == list0[i]);
            } else {
                assert(list1[i] == cur);
            }
        }
        if p == cur.package {
            assert(list1[list0.len() as int].package == p);
        }
    }
}

/// A whitebox test takes the place of its package's listed source.
proof fn lemma_replace_whitebox(
    s: LinkScope,
    n: nat,
    native: bool,
    visited: TargetMarks,
    e0: TargetMarks,
    e1: TargetMarks,
    t0: Seq<(BuildTarget, bool)>,
    list0: Seq<BuildTarget>,
    list1: Seq<BuildTarget>,
    stubs0: Seq<PackageId>,
    stubs1: Seq<PackageId>,
    cur: BuildTarget,
    idx: int,
)
    requires
        link_state_ok(s, n, native, visited, e0, t0, list0, stubs0),
        t0.len() > 0,
        t0.last() == (cur, true),
        cur.kind == TargetKind::WhiteboxTest,
        0 <= idx < list0.len(),
        list0[idx] == source(cur.package),
        !list0.contains(cur),
        list1 == list0.update(idx, cur),
        forall|u: BuildTarget| u.package.0 < n ==> #[trigger] e1.has(u) == (e0.has(u) || u == cur),
        forall|q: PackageId| #[trigger] stubs1.contains(q) == (stubs0.contains(q) || (native && has_stubs(s.pkgs, cur.package) && q == cur.package)),
        (forall|i: int, j: int| 0 <= i < j < stubs0.len() ==> stubs0[i] != stubs0[j]) ==> (forall|i: int, j: int|
            0 <= i < j < stubs1.len() ==> stubs1[i] != stubs1[j]),
    ensures
        link_state_ok(s, n, native, visited, e1, t0.drop_last(), list1, stubs1),
{
    let t = t0.drop_last();
    let l = t.len() as int;
    assert(t0[l] == (cur, true));
    assert(cur.package.0 < n);
    assert(produced(s, t0[l].0));
    assert(has_impl(s.pkgs, list0[idx].package));
    assert forall|k: int| 0 <= k < t.len() implies #[trigger] t[k] == t0[k] by {}
    assert forall|x: BuildTarget|
        x.package.0 < n && #[trigger] visited.has(x) && expands(s, x) implies e1.has(resolve(s, x))
            || exists|k: int| 0 <= k < t.len() && #[trigger] t[k] == (resolve(s, x), true) by {
        if !e1.has(resolve(s, x)) {
            assert(resolve(s, x).package.0 < n);
            assert(!e0.has(resolve(s, x)));
            let k = choose|k: int| 0 <= k < t0.len() && #[trigger] t0[k] == (resolve(s, x), true);
            assert(k != l);
            assert(t[k] == t0[k]);
        }
    }
    assert forall|x: BuildTarget, c: BuildTarget|
        x.package.0 < n && #[trigger] visited.has(x) && expands(s, x) && #[trigger] link_kid(s, x, c) implies visited.has(c)
            || exists|k: int| 0 <= k < t.len() && #[trigger] t[k] == (c, false) by {
        if !visited.has(c) {
            let k = choose|k: int| 0 <= k < t0.len() && #[trigger] t0[k] == (c, false);
            assert(k != l);
            assert(t[k] == t0[k]);
        }
    }
    assert forall|i: int, j: int| 0 <= i < j < list1.len() implies list1[i] != list1[j] by {
        if i == idx {
            assert(list1[j] == list0[j]);
            assert(list0.contains(list0[j]));
        } else if j == idx {
            assert(list1[i] == list0[i]);
            assert(list0.contains(list0[i]));
        } else {
            assert(list1[i] == list0[i] && list1[j] == list0[j]);
        }
    }
    assert forall|i: int| 0 <= i < list1.len() implies (#[trigger] list1[i]).package.0 < n && e1.has(list1[i]) && produced(s, list1[i])
        && has_impl(s.pkgs, list1[i].package) by {
        if i != idx {
            assert(list1[i] == list0[i]);
            assert(e0.has(list0[i]));
        }
    }
    assert forall|y: BuildTarget|
        y.package.0 < n && #[trigger] e1.has(y) implies list1.contains(y) || (y.kind == TargetKind::Source && list1.contains(whitebox(y.package))) by {
        if y == cur {
            assert(list1[idx] == cur);
        } else if y == source(cur.package) {
            assert(list1[idx] == whitebox(y.package));
        } else {
            assert(e0.has(y));
            if list0.contains(y) {
                let i = choose|i: int| 0 <= i < list0.len() && list0[i] == y;
                assert(i != idx);
                assert(list1[i] == y);
            } else {
                let i = choose|i: int| 0 <= i < list0.len() && list0[i] == whitebox(y.package);
                assert(i != idx);
                assert(list1[i] == whitebox(y.package));
            }
        }
    }
    assert forall|p: PackageId| #[trigger] stubs1.contains(p) <==> (native && has_stubs(s.pkgs, p) && exists|i: int|
        0 <= i < list1.len() && (#[trigger] list1[i]).package == p) by {
        if exists|i: int| 0 <= i < list0.len() && (#[trigger] list0[i]).package == p {
            let i = choose|i: int| 0 <= i < list0.len() && (#[trigger] list0[i]).package == p;
            if i == idx {
                assert(list1[idx].package == p);
            } else {
                assert(list1[i] == list0[i]);
            }
        }
        if exists|i: int| 0 <= i < list1.len() && (#[trigger] list1[i]).package == p {
            let i = choose|i: int| 0 <= i < list1.len() && (#[trigger] list1[i]).package == p;
            if i == idx {
                assert(list0[idx].package == p);
            } else {
                assert(list1[i] == list0[i]);
            }
        }
        if p == cur.package {
            assert(list0[idx].package == p);
        }
    }
}

/// Expanding a target: it is visited, the node that stands for it is
/// marked, and the targets visited from it that were not visited yet are
/// pushed above the marker.
proof fn lemma_expand_link(
    s: LinkScope,
    n: nat,
    native: bool,
    v0: TargetMarks,
    v1: TargetMarks,
    emitted: TargetMarks,
    t0: Seq<(BuildTarget, bool)>,
    t1: Seq<(BuildTarget, bool)>,
    t2: Seq<(BuildTarget, bool)>,
    list: Seq<BuildTarget>,
    stubs: Seq<PackageId>,
    deps: Seq<BuildTarget>,
    curr: BuildTarget,
    node: BuildTarget,
)
    requires
        link_state_ok(s, n, native, v0, emitted, t0, list, stubs),
        t0.len() > 0,
        t0.last() == (curr, false),
        node == resolve(s, curr),
        expands(s, curr),
        forall|u: BuildTarget| u.package.0 < n ==> #[trigger] v1.has(u) == (v0.has(u) || u == curr),
        t1 == t0.drop_last().push((node, true)),
        t2.len() >= t1.len(),
        forall|q: int| 0 <= q < t1.len() ==> t2[q] == #[trigger] t1[q],
        forall|q: int| t1.len() <= q < t2.len() ==> !(#[trigger] t2[q]).1 && link_kid(s, curr, t2[q].0),
        forall|c: BuildTarget| #[trigger] deps.contains(c) <==> link_kid(s, curr, c),
        forall|i: int| 0 <= i < deps.len() ==> v1.has(#[trigger] deps[i]) || exists|q: int| t1.len() <= q < t2.len() && t2[q] == (deps[i], false),
    ensures
        link_state_ok(s, n, native, v1, emitted, t2, list, stubs),
{
    let l = t0.len() - 1;
    assert(t0[l] == (curr, false));
    assert(reached(s, curr));
    assert(curr.package.0 < n);
    assert(node.package.0 < n);
    assert(t1[l] == (node, true));
    assert(t2[l] == (node, true));
    assert forall|q: int| 0 <= q < l implies #[trigger] t2[q] == t0[q] by {
        assert(t2[q] == t1[q]);
        assert(t1[q] == t0[q]);
    }
    assert forall|k: int| 0 <= k < t2.len() implies (#[trigger] t2[k]).0.package.0 < n by {
        if k > l {
            assert(link_kid(s, curr, t2[k].0));
        }
    }
    assert forall|k: int| 0 <= k < t2.len() && !(#[trigger] t2[k]).1 implies reached(s, t2[k].0) by {
        if k > l {
            lemma_reached_kid(s, curr, t2[k].0);
        }
    }
    assert forall|k: int| 0 <= k < t2.len() && (#[trigger] t2[k]).1 implies produced(s, t2[k].0) by {
        if k == l {
            assert(reached(s, curr) && expands(s, curr) && resolve(s, curr) == node);
        }
    }
    assert forall|x: BuildTarget| x.package.0 < n && #[trigger] v1.has(x) implies reached(s, x) by {
        if x != curr {
            assert(v0.has(x));
        }
    }
    assert forall|x: BuildTarget|
        x.package.0 < n && #[trigger] v1.has(x) && expands(s, x) implies emitted.has(resolve(s, x))
            || exists|k: int| 0 <= k < t2.len() && #[trigger] t2[k] == (resolve(s, x), true) by {
        if x == curr {
            assert(t2[l] == (resolve(s, x), true));
        } else {
            assert(v0.has(x));
            if !emitted.has(resolve(s, x)) {
                let k = choose|k: int| 0 <= k < t0.len() && #[trigger] t0[k] == (resolve(s, x), true);
                assert(k != l);
                assert(t2[k] == t0[k]);
            }
        }
    }
    assert forall|x: BuildTarget, c: BuildTarget|
        x.package.0 < n && #[trigger] v1.has(x) && expands(s, x) && #[trigger] link_kid(s, x, c) implies v1.has(c)
            || exists|k: int| 0 <= k < t2.len() && #[trigger] t2[k] == (c, false) by {
        assert(c.package.0 < n);
        if x == curr {
            assert(deps.contains(c));
            let i = choose|i: int| 0 <= i < deps.len() && deps[i] == c;
            if !v1.has(deps[i]) {
                let q = choose|q: int| t1.len() <= q < t2.len() && t2[q] == (deps[i], false);
            }
        } else {
            assert(v0.has(x));
            if !v0.has(c) {
                let k = choose|k: int| 0 <= k < t0.len() && #[trigger] t0[k] == (c, false);
                if k == l {
                    assert(c == curr);
                } else {
                    assert(t2[k] == t0[k]);
                }
            }
        }
    }
}

/// With the stack empty, everything reached is finished.
proof fn lemma_link_finish(
    s: LinkScope,
    n: nat,
    native: bool,
    visited: TargetMarks,
    emitted: TargetMarks,
    list: Seq<BuildTarget>,
    stubs: Seq<PackageId>,
)
    requires
        link_state_ok(s, n, native, visited, emitted, Seq::empty(), list, stubs),
        visited.has(s.target),
    ensures
        forall|x: BuildTarget| #[trigger] reached(s, x) && expands(s, x) ==> list.contains(resolve(s, x))
            || (resolve(s, x).kind == TargetKind::Source && list.contains(whitebox(resolve(s, x).package))),
{
    let t = Seq::<(BuildTarget, bool)>::empty();
    assert forall|x: BuildTarget| #[trigger] reached(s, x) && expands(s, x) implies list.contains(resolve(s, x))
        || (resolve(s, x).kind == TargetKind::Source && list.contains(whitebox(resolve(s, x).package))) by {
        let path = choose|path: Seq<BuildTarget>| #[trigger] link_path(s, path) && path.last() == x;
        assert forall|y: BuildTarget, c: BuildTarget|
            y.package.0 < n && #[trigger] visited.has(y) && expands(s, y) && #[trigger] link_kid(s, y, c) implies visited.has(c) by {
            if !visited.has(c) {
                let k = choose|k: int| 0 <= k < t.len() && #[trigger] t[k] == (c, false);
            }
        }
        lemma_closed_holds_reached(s, visited, n, path);
        let y = resolve(s, x);
        assert(y.package.0 < n);
        if !emitted.has(y) {
            let k = choose|k: int| 0 <= k < t.len() && #[trigger] t[k] == (y, true);
        }
    }
}

/// Lists the targets to link into `target`, in the order the traversal
/// finishes them, with the packages whose C stubs are linked (native
/// backends only) and whether the standard library's `abort` is overridden.
///
/// The traversal starts at `target` and visits each dependency, in name then
/// kind order, of the node that stands for a target: the implementation's
/// source for an overridden virtual package. It skips `abort` and, when the
/// standard library is linked implicitly, the library's packages; the
/// override of `abort` is a dependency of the root. A whitebox test takes
/// the place of its package's source when that is listed already. Linking a
/// virtual package without an implementation fails.
///
/// When the dependencies the traversal follows have no cycle, every listed
/// target comes after the targets it depends on (or their whitebox tests in
/// their place); a whitebox test put in its source's place keeps that
/// position, which may come before the test's own dependencies.
pub fn dfs_link_core_sources(
    pkgs: &DiscoverResult,
    graph: &DepGraph,
    overrides: &Option<Vec<(PackageId, PackageId)>>,
    std: bool,
    native: bool,
    target: BuildTarget,
) -> (r: Result<(Vec<BuildTarget>, Vec<PackageId>, bool), BuildPlanConstructError>)
    requires
        pkgs.wf(),
        graph.wf(),
        graph.deps_valid(*pkgs),
        valid_id(pkgs@, target.package),
        overrides matches Some(v) ==> unique_keys(v@, package_key()) && forall|i: int|
            0 <= i < v.len() ==> valid_id(pkgs@, (#[trigger] v@[i]).0) && valid_id(pkgs@, v@[i].1),
    ensures
        ({
            let s = link_scope(*pkgs, *graph, *overrides, std, target);
            match r {
                Ok((list, stubs, abort_overridden)) => {
                    &&& forall|i: int, j: int| 0 <= i < j < list.len() ==> list@[i] != list@[j]
                    &&& forall|i: int| 0 <= i < list.len() ==> produced(s, #[trigger] list@[i]) && has_impl(*pkgs, list@[i].package)
                    &&& forall|i: int| 0 <= i < list.len() ==> link_abort(s) != Some((#[trigger] list@[i]).package)
                    &&& forall|x: BuildTarget| #[trigger] reached(s, x) && expands(s, x) ==> list@.contains(resolve(s, x))
                        || (resolve(s, x).kind == TargetKind::Source && list@.contains(whitebox(resolve(s, x).package)))
                    &&& forall|i: int, j: int| 0 <= i < j < stubs.len() ==> stubs@[i] != stubs@[j]
                    &&& forall|p: PackageId| #[trigger] stubs@.contains(p) <==> (native && has_stubs(*pkgs, p) && exists|i: int|
                        0 <= i < list.len() && (#[trigger] list@[i]).package == p)
                    &&& abort_overridden == abort_override(s) is Some
                    &&& link_acyclic(s) ==> forall|i: int, z: BuildTarget|
                        0 <= i < list.len() && (#[trigger] list@[i]).kind != TargetKind::WhiteboxTest
                            && #[trigger] link_edge(s, list@[i], z) ==> listed_before(list@, i, z)
                },
                Err(BuildPlanConstructError::NoImplementationForVirtualPackage { package, dep }) => {
                    &&& package.name@ == package_name(pkgs@.packages[target.package.0 as int])
                    &&& exists|y: BuildTarget| #[trigger] produced(s, y) && !has_impl(*pkgs, y.package) && dep.name@
                        == package_name(pkgs@.packages[y.package.0 as int])
                },
                Err(_) => false,
            }
        }),
{
    let ghost s = link_scope(*pkgs, *graph, *overrides, std, target);
    let n = pkgs.package_count();
    let abort = if std {
        pkgs.abort_pkg()
    } else {
        None
    };
    proof {
        if abort is Some {
            assert(pkgs.wf());
        }
    }
    let abort_override_pkg = match abort {
        Some(a) => lookup_override(overrides, a),
        None => None,
    };
    proof {
        if let Some(o) = abort_override_pkg {
            let v = overrides->0;
            let a = abort->0;
            lemma_assoc_lookup(v@, package_key(), package_key(), a);
            let j = choose|j: int| 0 <= j < v@.len() && package_key()(#[trigger] v@[j].0) == a;
            assert(valid_id(pkgs@, v@[j].1));
        }
    }
    let abort_overridden = abort_override_pkg.is_some();
    let mut list: Vec<BuildTarget> = Vec::new();
    let mut stubs: Vec<PackageId> = Vec::new();
    let mut visited = TargetMarks::new(n);
    let mut emitted = TargetMarks::new(n);
    let mut stack: Vec<(BuildTarget, bool)> = Vec::new();
    stack.push((target, false));
    proof {
        let path = seq![target];
        assert(link_path(s, path));
        assert(stack@[0] == (target, false));
        lemma_scope_valid(*pkgs, *graph, *overrides, std, target);
        assert forall|p: PackageId| #[trigger] stubs@.contains(p) <==> (native && has_stubs(*pkgs, p) && exists|i: int|
            0 <= i < list@.len() && (#[trigger] list@[i]).package == p) by {
            if stubs@.contains(p) {
                let i = choose|i: int| 0 <= i < stubs@.len() && stubs@[i] == p;
            }
        }
        assert(link_state_ok(s, n as nat, native, visited, emitted, stack@, list@, stubs@));
        lemma_order_start(s, emitted, stack@);
        assert(stack@ =~= seq![(target, false)]);
    }
    while stack.len() > 0
        invariant
            s == link_scope(*pkgs, *graph, *overrides, std, target),
            n == pkgs@.packages.len(),
            pkgs.wf(),
            graph.wf(),
            graph.deps_valid(*pkgs),
            valid_id(pkgs@, target.package),
            overrides matches Some(v) ==> unique_keys(v@, package_key()) && forall|i: int|
                0 <= i < v.len() ==> valid_id(pkgs@, (#[trigger] v@[i]).0) && valid_id(pkgs@, v@[i].1),
            abort == link_abort(s),
            abort_override_pkg == abort_override(s),
            abort_override_pkg matches Some(o) ==> valid_id(pkgs@, o),
            visited.wf(n as nat),
            emitted.wf(n as nat),
            visited.size() <= 5 * n,
            visited.has(target) || stack@ == seq![(target, false)],
            link_state_ok(s, n as nat, native, visited, emitted, stack@, list@, stubs@),
            link_order_ok(s, emitted, stack@, list@),
        decreases 5 * n - visited.size(), stack@.len(),
    {
        let ghost t0 = stack@;
        let (curr, expanded) = stack.pop().unwrap();
        let ghost l = stack@.len() as int;
        proof {
            assert(t0 == stack@.push((curr, expanded)));
            assert(t0[l] == (curr, expanded));
        }
        if !expanded {
            if visited.contains(curr, n) {
                proof {
                    lemma_pop_visited(s, n as nat, native, visited, emitted, t0, list@, stubs@, curr);
                    lemma_order_pop_visited(s, n as nat, native, visited, emitted, t0, list@, stubs@, curr);
                }
                continue;
            }
            let ghost v0 = visited;
            proof {
                if !v0.has(target) {
                    assert(t0 == seq![(target, false)]);
                    assert(t0[l] == (target, false));
                }
            }
            visited.insert(curr, n);
            let node = match lookup_override(overrides, curr.package) {
                Some(o) => o.build_target(TargetKind::Source),
                None => curr,
            };
            let is_abort = match abort {
                Some(a) => node.package == a,
                None => false,
            };
            if is_abort {
                proof {
                    lemma_visit_unexpanded(s, n as nat, native, v0, visited, emitted, t0, list@, stubs@, curr);
                    lemma_order_pop_unexpanded(s, emitted, t0, list@, curr);
                }
                continue;
            }
            stack.push((node, true));
            let ghost t1 = stack@;
            let deps = link_kids(pkgs, graph, overrides, std, target, abort_override_pkg, curr, node);
            let mut j: usize = deps.len();
            while j > 0
                invariant
                    j <= deps.len(),
                    stack@.len() >= t1.len(),
                    forall|q: int| 0 <= q < t1.len() ==> stack@[q] == #[trigger] t1[q],
                    forall|q: int| t1.len() <= q < stack@.len() ==> !(#[trigger] stack@[q]).1 && link_kid(s, curr, stack@[q].0),
                    forall|c: BuildTarget| #[trigger] deps@.contains(c) <==> link_kid(s, curr, c),
                    forall|i: int| 0 <= i < deps.len() ==> valid_id(pkgs@, (#[trigger] deps@[i]).package),
                    forall|i: int| j <= i < deps.len() ==> visited.has(#[trigger] deps@[i]) || exists|q: int|
                        t1.len() <= q < stack@.len() && stack@[q] == (deps@[i], false),
                    visited.wf(n as nat),
                    n == pkgs@.packages.len(),
                    visited.has(target),
                decreases j,
            {
                j = j - 1;
                let d = deps[j];
                let ghost before = stack@;
                proof {
                    assert(deps@.contains(d));
                }
                if !visited.contains(d, n) {
                    stack.push((d, false));
                }
                proof {
                    assert forall|i: int| j <= i < deps.len() implies visited.has(#[trigger] deps@[i]) || exists|q: int|
                        t1.len() <= q < stack@.len() && stack@[q] == (deps@[i], false) by {
                        if i == j {
                            if !visited.has(d) {
                                assert(stack@[stack@.len() - 1] == (d, false));
                            }
                        } else if !visited.has(deps@[i]) {
                            let q = choose|q: int| t1.len() <= q < before.len() && before[q] == (deps@[i], false);
                            assert(stack@[q] == before[q]);
                        }
                    }
                }
            }
            proof {
                lemma_expand_link(s, n as nat, native, v0, visited, emitted, t0, t1, stack@, list@, stubs@, deps@, curr, node);
                lemma_order_expand(s, n as nat, native, v0, visited, emitted, t0, t1, stack@, list@, stubs@, deps@, curr, node);
            }
        } else {
            let cur = curr;
            let ghost e0 = emitted;
            let ghost list0 = list@;
            let ghost stubs0 = stubs@;
            if cur.kind == TargetKind::WhiteboxTest {
                let src = cur.package.build_target(TargetKind::Source);
                match position(&list, src) {
                    Some(idx) => {
                        if !holds(&list, cur) {
                            list.set(idx, cur);
                            if !emitted.contains(cur, n) {
                                emitted.insert(cur, n);
                            }
                            let pkg = pkgs.get_package(cur.package);
                            if native && pkg.c_stub_files.len() > 0 {
                                add_package(&mut stubs, cur.package);
                            }
                            proof {
                                lemma_replace_whitebox(s, n as nat, native, visited, e0, emitted, t0, list0, list@, stubs0, stubs@, cur, idx as int);
                                lemma_order_replace(s, n as nat, native, visited, e0, emitted, t0, list0, stubs0, cur, idx as int);
                            }
                            continue;
                        }
                    },
                    None => {},
                }
            }
            if emitted.contains(cur, n) {
                proof {
                    lemma_pop_emitted(s, n as nat, native, visited, emitted, t0, list@, stubs@, cur);
                    lemma_order_pop_marker(s, n as nat, native, visited, emitted, emitted, t0, list@, stubs@, cur);
                }
                continue;
            }
            let pkg = pkgs.get_package(cur.package);
            if !pkg.has_implementation() {
                proof {
                    assert(produced(s, t0[l].0));
                }
                return Err(
                    BuildPlanConstructError::NoImplementationForVirtualPackage {
                        package: pkgs.fqn(target.package),
                        dep: pkgs.fqn(cur.package),
                    },
                );
            }
            if !holds(&list, cur) {
                list.push(cur);
            }
            emitted.insert(cur, n);
            if native && pkg.c_stub_files.len() > 0 {
                add_package(&mut stubs, cur.package);
            }
            proof {
                lemma_emit_link(s, n as nat, native, visited, e0, emitted, t0, list0, list@, stubs0, stubs@, cur);
                lemma_order_emit(s, n as nat, native, visited, e0, emitted, t0, list0, list@, stubs0, cur);
            }
        }
    }
    proof {
        assert(stack@ =~= Seq::<(BuildTarget, bool)>::empty());
        lemma_link_finish(s, n as nat, native, visited, emitted, list@, stubs@);
        assert forall|i: int| 0 <= i < list.len() implies link_abort(s) != Some((#[trigger] list@[i]).package) by {
            assert(produced(s, list@[i]));
            let x = choose|x: BuildTarget| #[trigger] reached(s, x) && expands(s, x) && resolve(s, x) == list@[i];
        }
    }
    Ok((list, stubs, abort_overridden))
}

} // verus!
