//! The action-level view of a build plan that backend lowering consumes, and
//! the split of a standalone build into dependency preparation and script
//! work.

use vstd::prelude::*;

use super::BuildActionId;
use crate::build_plan::artifact::ArtifactKey;
use crate::model::{BuildPlanNode, BuildTarget, PackageId};

verus! {

/// The build target that a plan node works on, if it works on one.
pub open spec fn node_target(n: BuildPlanNode) -> Option<BuildTarget> {
    match n {
        BuildPlanNode::Check(t) | BuildPlanNode::EmitProof(t) | BuildPlanNode::Prove(t)
        | BuildPlanNode::BuildCore(t) | BuildPlanNode::LinkCore(t)
        | BuildPlanNode::MakeExecutable(t) | BuildPlanNode::GenerateDsym(t)
        | BuildPlanNode::GenerateTestInfo(t) | BuildPlanNode::GenerateMbti(t) => Some(t),
        _ => None,
    }
}

/// The package that owns the work of a plan node, if a package does.
pub open spec fn node_package(n: BuildPlanNode) -> Option<PackageId> {
    match n {
        BuildPlanNode::Check(t) | BuildPlanNode::EmitProof(t) | BuildPlanNode::Prove(t)
        | BuildPlanNode::BuildCore(t) | BuildPlanNode::LinkCore(t)
        | BuildPlanNode::MakeExecutable(t) | BuildPlanNode::GenerateDsym(t)
        | BuildPlanNode::GenerateTestInfo(t) | BuildPlanNode::GenerateMbti(t) => Some(t.package),
        BuildPlanNode::BuildCStub(p, _) | BuildPlanNode::ArchiveOrLinkCStubs(p)
        | BuildPlanNode::BuildVirtual(p) | BuildPlanNode::RunPrebuild(p, _)
        | BuildPlanNode::RunMoonLexPrebuild(p, _) | BuildPlanNode::RunMoonYaccPrebuild(p, _) => Some(p),
        BuildPlanNode::GenerateNodeTestPackageConfig(p) => Some(p),
        BuildPlanNode::Bundle(_) | BuildPlanNode::BuildRuntimeObject(_)
        | BuildPlanNode::BuildRuntimeLib | BuildPlanNode::BuildDocs(_) => None,
    }
}

/// The package that owns the work of a node.
pub fn action_package(n: BuildPlanNode) -> (r: Option<PackageId>)
    ensures
        r == node_package(n),
{
    match n {
        BuildPlanNode::Check(t) | BuildPlanNode::EmitProof(t) | BuildPlanNode::Prove(t)
        | BuildPlanNode::BuildCore(t) | BuildPlanNode::LinkCore(t)
        | BuildPlanNode::MakeExecutable(t) | BuildPlanNode::GenerateDsym(t)
        | BuildPlanNode::GenerateTestInfo(t) | BuildPlanNode::GenerateMbti(t) => Some(t.package),
        BuildPlanNode::BuildCStub(p, _) | BuildPlanNode::ArchiveOrLinkCStubs(p)
        | BuildPlanNode::BuildVirtual(p) | BuildPlanNode::RunPrebuild(p, _)
        | BuildPlanNode::RunMoonLexPrebuild(p, _) | BuildPlanNode::RunMoonYaccPrebuild(p, _) => Some(p),
        BuildPlanNode::GenerateNodeTestPackageConfig(p) => Some(p),
        BuildPlanNode::Bundle(_) | BuildPlanNode::BuildRuntimeObject(_)
        | BuildPlanNode::BuildRuntimeLib | BuildPlanNode::BuildDocs(_) => None,
    }
}

/// Normalized action-level view of a build plan: action `i` is the plan node
/// `action_nodes[i]`, depends on the actions `dependencies[i]`, and the
/// requested artifacts are each provided by an action.
#[derive(Debug)]
pub struct BuildActionPlan {
    pub action_nodes: Vec<BuildPlanNode>,
    pub dependencies: Vec<Vec<BuildActionId>>,
    pub requested_artifacts: Vec<(ArtifactKey, BuildActionId)>,
}

/// The ids `0..n`.
pub open spec fn all_ids(n: nat) -> Seq<BuildActionId> {
    Seq::new(n, |i: int| BuildActionId(i as usize))
}

/// The elements of `s` in the order of their first occurrence.
pub open spec fn first_ids_of(s: Seq<BuildActionId>) -> Seq<BuildActionId>
    decreases s.len(),
{
    if s.len() == 0 {
        Seq::empty()
    } else {
        let r = first_ids_of(s.drop_last());
        if r.contains(s.last()) {
            r
        } else {
            r.push(s.last())
        }
    }
}

/// The dependency lists of a plan, as integers.
pub open spec fn dep_graph(p: BuildActionPlan) -> Seq<Seq<BuildActionId>> {
    Seq::new(p.dependencies@.len(), |i: int| p.dependencies@[i]@)
}

/// `path` starts at an action of `seeds` and each next action is a
/// dependency of the one before.
pub open spec fn is_dep_path(g: Seq<Seq<BuildActionId>>, seed: spec_fn(int) -> bool, path: Seq<int>) -> bool {
    &&& path.len() > 0
    &&& seed(path[0])
    &&& forall|i: int| 0 <= i < path.len() ==> 0 <= #[trigger] path[i] < g.len()
    &&& forall|i: int| 0 <= i < path.len() - 1 ==> g[path[i]].contains(BuildActionId(#[trigger] path[i + 1] as usize))
}

/// Whether action `a` is reachable through dependencies from an action of
/// `seeds`, itself included.
pub open spec fn reachable(g: Seq<Seq<BuildActionId>>, seed: spec_fn(int) -> bool, a: int) -> bool {
    exists|path: Seq<int>| #[trigger] is_dep_path(g, seed, path) && path.last() == a
}

/// The actions that prepare dependencies for script package `script`: those
/// owned by another package, and everything they depend on.
pub open spec fn dependency_seed(p: BuildActionPlan, script: PackageId) -> spec_fn(int) -> bool {
    |a: int| 0 <= a < p.action_nodes@.len() && (node_package(p.action_nodes@[a]) matches Some(q) && q != script)
}

/// Whether action `a` is dependency preparation for `script`.
pub open spec fn is_dependency_action(p: BuildActionPlan, script: PackageId, a: int) -> bool {
    reachable(dep_graph(p), dependency_seed(p, script), a)
}

/// Whether action `a` is owned by package `script`.
pub open spec fn is_script_owned(p: BuildActionPlan, script: PackageId, a: int) -> bool {
    0 <= a < p.action_nodes@.len() && node_package(p.action_nodes@[a]) == Some(script)
}

/// The number of set flags.
pub open spec fn count_true(s: Seq<bool>) -> nat
    decreases s.len(),
{
    if s.len() == 0 {
        0
    } else {
        count_true(s.drop_last()) + if s.last() {
            1nat
        } else {
            0nat
        }
    }
}

pub proof fn lemma_count_true_bound(s: Seq<bool>)
    ensures
        count_true(s) <= s.len(),
    decreases s.len(),
{
    if s.len() > 0 {
        lemma_count_true_bound(s.drop_last());
    }
}

pub proof fn lemma_count_true_set(s: Seq<bool>, i: int)
    requires
        0 <= i < s.len(),
        !s[i],
    ensures
        count_true(s.update(i, true)) == count_true(s) + 1,
    decreases s.len(),
{
    let t = s.update(i, true);
    if i == s.len() - 1 {
        assert(t.drop_last() =~= s.drop_last());
    } else {
        lemma_count_true_set(s.drop_last(), i);
        assert(t.drop_last() =~= s.drop_last().update(i, true));
    }
}

/// Whether action `a` is on the stack `s`.
pub open spec fn on_stack(s: Seq<BuildActionId>, a: int) -> bool {
    exists|k: int| 0 <= k < s.len() && (#[trigger] s[k]).0 == a
}

proof fn lemma_on_stack_push(s: Seq<BuildActionId>, x: BuildActionId, a: int)
    ensures
        on_stack(s.push(x), a) == (on_stack(s, a) || x.0 == a),
{
    if on_stack(s, a) {
        let k = choose|k: int| 0 <= k < s.len() && (#[trigger] s[k]).0 == a;
        assert(s.push(x)[k] == s[k]);
    }
    if x.0 == a {
        assert(s.push(x)[s.len() as int] == x);
    }
    if on_stack(s.push(x), a) {
        let k = choose|k: int| 0 <= k < s.len() + 1 && (#[trigger] s.push(x)[k]).0 == a;
        if k < s.len() {
            assert(s.push(x)[k] == s[k]);
        }
    }
}

/// Every dependency-path from a seed stays inside a set that holds the
/// seeds and is closed under dependencies.
proof fn lemma_closed_contains_reachable(
    g: Seq<Seq<BuildActionId>>,
    seed: spec_fn(int) -> bool,
    inset: Seq<bool>,
    path: Seq<int>,
)
    requires
        inset.len() == g.len(),
        g.len() <= usize::MAX,
        forall|a: int| 0 <= a < g.len() && #[trigger] seed(a) ==> inset[a],
        forall|a: int, j: int|
            0 <= a < g.len() && inset[a] && 0 <= j < g[a].len() ==> 0 <= (#[trigger] g[a][j]).0 < g.len()
                && inset[g[a][j].0 as int],
        is_dep_path(g, seed, path),
    ensures
        inset[path.last()],
    decreases path.len(),
{
    if path.len() == 1 {
        assert(path.last() == path[0]);
        assert(0 <= path[0] < g.len());
    } else {
        let init = path.drop_last();
        assert(is_dep_path(g, seed, init)) by {
            assert forall|i: int| 0 <= i < init.len() - 1 implies g[init[i]].contains(BuildActionId(#[trigger] init[i + 1] as usize)) by {
                assert(init[i] == path[i] && init[i + 1] == path[i + 1]);
            }
        }
        lemma_closed_contains_reachable(g, seed, inset, init);
        let k = path.len() - 2;
        let a = path[k];
        assert(init.last() == a);
        assert(g[a].contains(BuildActionId(path[k + 1] as usize)));
        let j = choose|j: int| 0 <= j < g[a].len() && g[a][j] == BuildActionId(path[k + 1] as usize);
        assert(0 <= path[k + 1] < g.len());
        assert(g[a][j].0 as int == path[k + 1]);
        assert(path.last() == path[k + 1]);
    }
}

impl BuildActionPlan {
    /// Every action has a dependency list, every id in the view names an
    /// action, and no plan node occurs twice.
    pub open spec fn wf(&self) -> bool {
        &&& self.dependencies@.len() == self.action_nodes@.len()
        &&& forall|a: int, j: int|
            0 <= a < self.dependencies@.len() && 0 <= j < self.dependencies@[a]@.len() ==> (
            #[trigger] self.dependencies@[a]@[j]).0 < self.action_nodes@.len()
        &&& forall|i: int| 0 <= i < self.requested_artifacts@.len() ==> (
            #[trigger] self.requested_artifacts@[i]).1.0 < self.action_nodes@.len()
        &&& forall|i: int, j: int| 0 <= i < j < self.action_nodes@.len() ==> #[trigger] self.action_nodes@[i]
            != #[trigger] self.action_nodes@[j]
    }

    /// The ids of all actions, in order.
    pub fn action_ids(&self) -> (r: Vec<BuildActionId>)
        ensures
            r@ == all_ids(self.action_nodes@.len()),
    {
        let mut r: Vec<BuildActionId> = Vec::new();
        let mut i: usize = 0;
        while i < self.action_nodes.len()
            invariant
                i <= self.action_nodes.len(),
                r@ == all_ids(i as nat),
            decreases self.action_nodes.len() - i,
        {
            r.push(BuildActionId(i));
            assert(r@ =~= all_ids((i + 1) as nat));
            i = i + 1;
        }
        r
    }

    /// The requested artifacts and the actions that provide them.
    pub fn requested_artifacts(&self) -> (r: &Vec<(ArtifactKey, BuildActionId)>)
        ensures
            r == &self.requested_artifacts,
    {
        &self.requested_artifacts
    }

    /// The actions that provide requested artifacts, each once, in the order
    /// of their first request.
    pub fn root_action_ids(&self) -> (r: Vec<BuildActionId>)
        ensures
            r@ == first_ids_of(Seq::new(self.requested_artifacts@.len(), |i: int| self.requested_artifacts@[i].1)),
    {
        let ghost req = Seq::new(self.requested_artifacts@.len(), |i: int| self.requested_artifacts@[i].1);
        let mut r: Vec<BuildActionId> = Vec::new();
        let mut i: usize = 0;
        while i < self.requested_artifacts.len()
            invariant
                i <= self.requested_artifacts.len(),
                req == Seq::new(self.requested_artifacts@.len(), |i: int| self.requested_artifacts@[i].1),
                r@ == first_ids_of(req.take(i as int)),
            decreases self.requested_artifacts.len() - i,
        {
            let id = self.requested_artifacts[i].1;
            assert(req.take(i + 1).drop_last() =~= req.take(i as int));
            let mut seen = false;
            let mut k: usize = 0;
            while k < r.len()
                invariant
                    k <= r.len(),
                    seen == exists|m: int| 0 <= m < k && r@[m] == id,
                decreases r.len() - k,
            {
                if r[k] == id {
                    seen = true;
                }
                k = k + 1;
            }
            if !seen {
                r.push(id);
            }
            i = i + 1;
        }
        assert(req.take(req.len() as int) =~= req);
        r
    }

    /// The plan node of action `id`.
    pub fn node(&self, id: BuildActionId) -> (r: BuildPlanNode)
        requires
            id.0 < self.action_nodes@.len(),
        ensures
            r == self.action_nodes@[id.0 as int],
    {
        self.action_nodes[id.0]
    }

    /// The plan node of action `id`.
    pub fn build_plan_node(&self, id: BuildActionId) -> (r: BuildPlanNode)
        requires
            id.0 < self.action_nodes@.len(),
        ensures
            r == self.action_nodes@[id.0 as int],
    {
        self.node(id)
    }

    /// The action of plan node `node`, which the plan holds.
    pub fn id_for_node(&self, node: BuildPlanNode) -> (r: BuildActionId)
        requires
            self.action_nodes@.contains(node),
        ensures
            r.0 < self.action_nodes@.len(),
            self.action_nodes@[r.0 as int] == node,
    {
        let mut i: usize = 0;
        while i < self.action_nodes.len()
            invariant
                i <= self.action_nodes.len(),
                self.action_nodes@.contains(node),
                forall|j: int| 0 <= j < i ==> self.action_nodes@[j] != node,
            decreases self.action_nodes.len() - i,
        {
            if self.action_nodes[i] == node {
                return BuildActionId(i);
            }
            i = i + 1;
        }
        proof {
            let j = choose|j: int| 0 <= j < self.action_nodes@.len() && self.action_nodes@[j] == node;
            assert(self.action_nodes@[j] != node);
        }
        BuildActionId(0)
    }

    /// The actions that action `id` depends on.
    pub fn dependency_action_ids(&self, id: BuildActionId) -> (r: &Vec<BuildActionId>)
        requires
            self.wf(),
            id.0 < self.action_nodes@.len(),
        ensures
            r@ == self.dependencies@[id.0 as int]@,
    {
        &self.dependencies[id.0]
    }

    /// The target to name when action `id` fails.
    pub fn package_for_error(&self, id: BuildActionId) -> (r: Option<BuildTarget>)
        requires
            id.0 < self.action_nodes@.len(),
        ensures
            r == node_target(self.action_nodes@[id.0 as int]),
    {
        match self.node(id) {
            BuildPlanNode::Check(t) | BuildPlanNode::EmitProof(t) | BuildPlanNode::Prove(t)
            | BuildPlanNode::BuildCore(t) | BuildPlanNode::LinkCore(t)
            | BuildPlanNode::MakeExecutable(t) | BuildPlanNode::GenerateDsym(t)
            | BuildPlanNode::GenerateTestInfo(t) | BuildPlanNode::GenerateMbti(t) => Some(t),
            _ => None,
        }
    }

    /// Whether action `id` may rewrite its outputs when they are dirty:
    /// checking and proving do.
    pub fn can_dirty_on_output(&self, id: BuildActionId) -> (r: bool)
        requires
            id.0 < self.action_nodes@.len(),
        ensures
            r == (self.action_nodes@[id.0 as int] is Check || self.action_nodes@[id.0 as int] is EmitProof
                || self.action_nodes@[id.0 as int] is Prove),
    {
        match self.node(id) {
            BuildPlanNode::Check(_) | BuildPlanNode::EmitProof(_) | BuildPlanNode::Prove(_) => true,
            _ => false,
        }
    }

    /// Separates reusable dependency preparation from the work owned by the
    /// synthesized script package, keeping the order of actions: the first
    /// list holds the actions of other packages and everything they depend
    /// on, the second the rest. The plan has work for the script package,
    /// preparation never depends on a script action, and no requested
    /// artifact comes from preparation.
    pub fn partition_standalone_actions(&self, script_package: PackageId) -> (r: (
        Vec<BuildActionId>,
        Vec<BuildActionId>,
    ))
        requires
            self.wf(),
            exists|a: int| is_script_owned(*self, script_package, a),
            forall|a: int, j: int|
                is_dependency_action(*self, script_package, a) && 0 <= j < self.dependencies@[a]@.len()
                    ==> !is_script_owned(*self, script_package, (#[trigger] self.dependencies@[a]@[j]).0 as int),
            forall|i: int|
                0 <= i < self.requested_artifacts@.len() ==> !is_dependency_action(
                    *self,
                    script_package,
                    (#[trigger] self.requested_artifacts@[i]).1.0 as int,
                ),
        ensures
            r.0@ == all_ids(self.action_nodes@.len()).filter(
                |id: BuildActionId| is_dependency_action(*self, script_package, id.0 as int),
            ),
            r.1@ == all_ids(self.action_nodes@.len()).filter(
                |id: BuildActionId| !is_dependency_action(*self, script_package, id.0 as int),
            ),
    {
        let n = self.action_nodes.len();
        let ghost g = dep_graph(*self);
        let ghost seed = dependency_seed(*self, script_package);
        let mut inset: Vec<bool> = Vec::new();
        let mut pending: Vec<BuildActionId> = Vec::new();
        let mut count: usize = 0;
        let mut i: usize = 0;
        while i < n
            invariant
                n == self.action_nodes@.len(),
                self.wf(),
                g == dep_graph(*self),
                seed == dependency_seed(*self, script_package),
                i <= n,
                inset@.len() == i,
                count == count_true(inset@),
                forall|a: int| 0 <= a < i ==> (inset@[a] <==> #[trigger] seed(a)),
                forall|k: int| 0 <= k < pending@.len() ==> (#[trigger] pending@[k]).0 < i && inset@[pending@[k].0 as int],
                forall|a: int| 0 <= a < i && #[trigger] inset@[a] ==> on_stack(pending@, a),
            decreases n - i,
        {
            let is_seed = match action_package(self.action_nodes[i]) {
                Some(p) => p != script_package,
                None => false,
            };
            proof {
                assert(inset@.push(is_seed).drop_last() =~= inset@);
                lemma_count_true_bound(inset@);
                assert forall|a: int| 0 <= a < i && #[trigger] inset@[a] implies on_stack(pending@.push(BuildActionId(i)), a) by {
                    lemma_on_stack_push(pending@, BuildActionId(i), a);
                }
                lemma_on_stack_push(pending@, BuildActionId(i), i as int);
            }
            inset.push(is_seed);
            if is_seed {
                pending.push(BuildActionId(i));
                count = count + 1;
            }
            i = i + 1;
        }
        proof {
            lemma_count_true_bound(inset@);
            assert forall|a: int| 0 <= a < n && inset@[a] implies is_dependency_action(*self, script_package, a) by {
                let path = seq![a];
                assert(is_dep_path(g, seed, path));
            }
        }
        while pending.len() > 0
            invariant
                n == self.action_nodes@.len(),
                self.wf(),
                g == dep_graph(*self),
                seed == dependency_seed(*self, script_package),
                inset@.len() == n,
                count == count_true(inset@),
                count <= n,
                forall|a: int| 0 <= a < n && #[trigger] seed(a) ==> inset@[a],
                forall|a: int| 0 <= a < n && inset@[a] ==> is_dependency_action(*self, script_package, a),
                forall|k: int| 0 <= k < pending@.len() ==> (#[trigger] pending@[k]).0 < n && inset@[pending@[k].0 as int],
                forall|a: int, j: int|
                    0 <= a < n && inset@[a] && !on_stack(pending@, a) && 0 <= j < g[a].len()
                        ==> inset@[(#[trigger] g[a][j]).0 as int],
            decreases n - count, pending.len(),
        {
            let ghost before = pending@;
            let action = pending.pop().unwrap();
            let ghost popped = pending@;
            let ghost count0 = count as int;
            proof {
                assert(before =~= popped.push(action));
                assert forall|a: int| !on_stack(popped, a) && a != action.0 implies !on_stack(before, a) by {
                    lemma_on_stack_push(popped, action, a);
                }
            }
            let deps = &self.dependencies[action.0];
            assert(deps@ == g[action.0 as int]);
            let mut j: usize = 0;
            while j < deps.len()
                invariant
                    n == self.action_nodes@.len(),
                    self.wf(),
                    g == dep_graph(*self),
                    seed == dependency_seed(*self, script_package),
                    deps@ == g[action.0 as int],
                    action.0 < n,
                    inset@[action.0 as int],
                    is_dependency_action(*self, script_package, action.0 as int),
                    j <= deps.len(),
                    inset@.len() == n,
                    count == count_true(inset@),
                    count <= n,
                    count0 <= count,
                    pending@.len() - popped.len() == count - count0,
                    forall|a: int| 0 <= a < n && #[trigger] seed(a) ==> inset@[a],
                    forall|a: int| 0 <= a < n && inset@[a] ==> is_dependency_action(*self, script_package, a),
                    forall|k: int| 0 <= k < pending@.len() ==> (#[trigger] pending@[k]).0 < n && inset@[pending@[k].0 as int],
                    forall|m: int| 0 <= m < j ==> inset@[(#[trigger] deps@[m]).0 as int],
                    forall|a: int, m: int|
                        0 <= a < n && inset@[a] && !on_stack(pending@, a) && a != action.0 && 0 <= m < g[a].len()
                            ==> inset@[(#[trigger] g[a][m]).0 as int],
                decreases deps.len() - j,
            {
                let d = deps[j];
                assert(d == g[action.0 as int][j as int]);
                if !inset[d.0] {
                    let ghost pre = pending@;
                    let ghost pre_inset = inset@;
                    proof {
                        lemma_count_true_set(inset@, d.0 as int);
                        lemma_count_true_bound(inset@.update(d.0 as int, true));
                        let path = choose|path: Seq<int>| #[trigger] is_dep_path(g, seed, path) && path.last() == action.0 as int;
                        let p2 = path.push(d.0 as int);
                        assert(g[action.0 as int].contains(d));
                        assert(BuildActionId(d.0 as int as usize) == d);
                        assert(is_dep_path(g, seed, p2)) by {
                            assert forall|i: int| 0 <= i < p2.len() - 1 implies g[p2[i]].contains(BuildActionId(#[trigger] p2[i + 1] as usize)) by {
                                if i < path.len() - 1 {
                                    assert(p2[i] == path[i] && p2[i + 1] == path[i + 1]);
                                } else {
                                    assert(p2[i] == action.0 as int);
                                    assert(p2[i + 1] == d.0 as int);
                                }
                            }
                        }
                        assert(p2.last() == d.0 as int);
                    }
                    inset.set(d.0, true);
                    pending.push(d);
                    count = count + 1;
                    proof {
                        assert forall|a: int, m: int|
                            0 <= a < n && inset@[a] && !on_stack(pending@, a) && a != action.0 && 0 <= m < g[a].len()
                                implies inset@[(#[trigger] g[a][m]).0 as int] by {
                            lemma_on_stack_push(pre, d, a);
                            assert(pre_inset[a]);
                        }
                    }
                }
                j = j + 1;
            }
            proof {
                assert forall|a: int, m: int|
                    0 <= a < n && inset@[a] && !on_stack(pending@, a) && 0 <= m < g[a].len()
                        implies inset@[(#[trigger] g[a][m]).0 as int] by {
                    if a == action.0 {
                        assert(g[a][m] == deps@[m]);
                    }
                }
            }
        }
        proof {
            assert forall|a: int| 0 <= a < n implies (inset@[a] <==> is_dependency_action(*self, script_package, a)) by {
                if is_dependency_action(*self, script_package, a) {
                    let path = choose|path: Seq<int>| #[trigger] is_dep_path(g, seed, path) && path.last() == a;
                    assert forall|b: int, m: int|
                        0 <= b < g.len() && inset@[b] && 0 <= m < g[b].len() implies 0 <= (#[trigger] g[b][m]).0 < g.len()
                            && inset@[g[b][m].0 as int] by {
                        assert(!on_stack(pending@, b));
                        assert(g[b][m] == self.dependencies@[b]@[m]);
                    }
                    lemma_closed_contains_reachable(g, seed, inset@, path);
                }
            }
        }
        let ghost all = all_ids(n as nat);
        let ghost keep = |id: BuildActionId| is_dependency_action(*self, script_package, id.0 as int);
        let ghost skip = |id: BuildActionId| !is_dependency_action(*self, script_package, id.0 as int);
        let mut dependencies: Vec<BuildActionId> = Vec::new();
        let mut script: Vec<BuildActionId> = Vec::new();
        let mut k: usize = 0;
        while k < n
            invariant
                n == self.action_nodes@.len(),
                inset@.len() == n,
                all == all_ids(n as nat),
                keep == (|id: BuildActionId| is_dependency_action(*self, script_package, id.0 as int)),
                skip == (|id: BuildActionId| !is_dependency_action(*self, script_package, id.0 as int)),
                forall|a: int| 0 <= a < n ==> (inset@[a] <==> is_dependency_action(*self, script_package, a)),
                k <= n,
                dependencies@ == all.take(k as int).filter(keep),
                script@ == all.take(k as int).filter(skip),
            decreases n - k,
        {
            proof {
                assert(all.take(k + 1).drop_last() =~= all.take(k as int));
                reveal(Seq::filter);
                assert(all.take(k + 1).last() == BuildActionId(k));
                assert(BuildActionId(k).0 as int == k as int);
            }
            if inset[k] {
                dependencies.push(BuildActionId(k));
            } else {
                script.push(BuildActionId(k));
            }
            k = k + 1;
        }
        assert(all.take(n as int) =~= all);
        (dependencies, script)
    }
}

/// Dependency preparation is closed under dependencies: everything a
/// preparation action depends on is preparation too, so the preparation
/// phase never waits for script work.
pub proof fn law_dependency_actions_closed(p: BuildActionPlan, script: PackageId, a: int, j: int)
    requires
        p.wf(),
        is_dependency_action(p, script, a),
        0 <= j < p.dependencies@[a]@.len(),
    ensures
        is_dependency_action(p, script, p.dependencies@[a]@[j].0 as int),
{
    let g = dep_graph(p);
    let seed = dependency_seed(p, script);
    let path = choose|path: Seq<int>| #[trigger] is_dep_path(g, seed, path) && path.last() == a;
    let d = p.dependencies@[a]@[j];
    assert(d.0 < p.action_nodes@.len());
    assert(g[a] == p.dependencies@[a]@);
    let p2 = path.push(d.0 as int);
    assert(BuildActionId(d.0 as int as usize) == d);
    assert(g[a].contains(d));
    assert forall|i: int| 0 <= i < p2.len() - 1 implies g[p2[i]].contains(BuildActionId(#[trigger] p2[i + 1] as usize)) by {
        if i < path.len() - 1 {
            assert(p2[i] == path[i] && p2[i + 1] == path[i + 1]);
        } else {
            assert(p2[i] == a);
            assert(p2[i + 1] == d.0 as int);
        }
    }
    assert(is_dep_path(g, seed, p2));
    assert(p2.last() == d.0 as int);
}

} // verus!
