//! The per-node metadata of a build plan's backend actions, and the action
//! that each node stands for.

use vstd::prelude::*;

use super::native_exec::MakeExecutablePlan;
use super::package_prebuild::{PackagePrebuildKey, PackagePrebuildPlan};
use super::target_files::BuildTargetInfo;
use crate::model::{BuildPlanNode, BuildTarget, ModuleId, PackageId};

verus! {

/// What linking a target's core needs: the targets linked, in link order,
/// the packages whose C stubs are linked, and whether the standard library's
/// `abort` is overridden.
#[derive(Debug)]
pub struct LinkCoreInfo {
    pub linked_order: Vec<BuildTarget>,
    pub c_stub_deps: Vec<PackageId>,
    pub abort_overridden: bool,
}

/// The metadata that the backend actions of a plan are lowered from, keyed
/// by target, package or module; `S` is what a package's C stubs need and
/// `R` what the runtime needs.
#[derive(Debug)]
pub struct BackendPlan<S, R> {
    pub build_target_infos: Vec<(BuildTarget, BuildTargetInfo)>,
    pub c_stubs_info: Vec<(PackageId, S)>,
    pub link_core_info: Vec<(BuildTarget, LinkCoreInfo)>,
    pub make_executable_info: Vec<(BuildTarget, MakeExecutablePlan)>,
    /// The `dsymutil` executable, when debug-symbol bundles are made.
    pub dsymutil: Option<String>,
    /// The interface file of each virtual package.
    pub virtual_contract_inputs: Vec<(PackageId, String)>,
    /// The targets bundled into each module.
    pub bundle_info: Vec<(ModuleId, Vec<BuildTarget>)>,
    pub runtime_info: Option<R>,
}

/// Whether `i` is the first position of `v` whose key is `k`.
pub open spec fn first_at<K, V>(v: Seq<(K, V)>, k: K, i: int) -> bool {
    &&& 0 <= i < v.len()
    &&& v[i].0 == k
    &&& forall|j: int| 0 <= j < i ==> (#[trigger] v[j]).0 != k
}

/// Whether some entry of `v` has key `k`.
pub open spec fn has_key<K, V>(v: Seq<(K, V)>, k: K) -> bool {
    exists|i: int| 0 <= i < v.len() && (#[trigger] v[i]).0 == k
}

/// The first position of `v` whose key is `k`, when there is one.
pub open spec fn key_pos<K, V>(v: Seq<(K, V)>, k: K) -> int {
    choose|i: int| first_at(v, k, i)
}

proof fn lemma_key_pos<K, V>(v: Seq<(K, V)>, k: K, i: int)
    requires
        first_at(v, k, i),
    ensures
        key_pos(v, k) == i,
{
    let c = key_pos(v, k);
    assert(first_at(v, k, c));
    if c < i {
        assert(v[c].0 != k);
    } else if i < c {
        assert(v[i].0 != k);
    }
}

/// The entry for `k`, as a position: the first entry whose key is `k`.
fn find_target<V>(v: &Vec<(BuildTarget, V)>, k: BuildTarget) -> (r: Option<usize>)
    ensures
        r matches Some(i) ==> first_at(v@, k, i as int),
        r is None ==> !has_key(v@, k),
{
    let mut i: usize = 0;
    while i < v.len()
        invariant
            i <= v.len(),
            forall|j: int| 0 <= j < i ==> (#[trigger] v@[j]).0 != k,
        decreases v.len() - i,
    {
        if v[i].0 == k {
            return Some(i);
        }
        i = i + 1;
    }
    None
}

fn find_package<V>(v: &Vec<(PackageId, V)>, k: PackageId) -> (r: Option<usize>)
    ensures
        r matches Some(i) ==> first_at(v@, k, i as int),
        r is None ==> !has_key(v@, k),
{
    let mut i: usize = 0;
    while i < v.len()
        invariant
            i <= v.len(),
            forall|j: int| 0 <= j < i ==> (#[trigger] v@[j]).0 != k,
        decreases v.len() - i,
    {
        if v[i].0 == k {
            return Some(i);
        }
        i = i + 1;
    }
    None
}

fn find_module<V>(v: &Vec<(ModuleId, V)>, k: ModuleId) -> (r: Option<usize>)
    ensures
        r matches Some(i) ==> first_at(v@, k, i as int),
        r is None ==> !has_key(v@, k),
{
    let mut i: usize = 0;
    while i < v.len()
        invariant
            i <= v.len(),
            forall|j: int| 0 <= j < i ==> (#[trigger] v@[j]).0 != k,
        decreases v.len() - i,
    {
        if v[i].0 == k {
            return Some(i);
        }
        i = i + 1;
    }
    None
}

/// The action of a backend node, with the position of each piece of
/// metadata it is lowered from in the plan's tables.
#[derive(Clone, Copy, Debug, PartialEq, Eq, Structural)]
pub enum BuildAction {
    Check { target: BuildTarget, info: usize },
    EmitProof { target: BuildTarget, info: usize },
    Prove { target: BuildTarget, info: usize },
    BuildCore { target: BuildTarget, info: usize },
    BuildCStub { package: PackageId, index: u32, info: usize },
    ArchiveOrLinkCStubs { package: PackageId, info: usize },
    LinkCore { target: BuildTarget, info: usize, make_executable_info: Option<usize> },
    MakeExecutable { target: BuildTarget, info: usize },
    GenerateDsym { target: BuildTarget },
    GenerateTestInfo { target: BuildTarget, info: usize },
    GenerateNodeTestPackageConfig { package: PackageId },
    GenerateMbti { target: BuildTarget },
    BuildVirtual { package: PackageId, input: usize },
    Bundle { module: ModuleId, targets: usize },
    BuildRuntimeObject { index: u32 },
    BuildRuntimeLib,
    BuildDocs { module: ModuleId },
}

/// Whether `node` is a backend node, as opposed to a package prebuild.
pub open spec fn is_backend_node(node: BuildPlanNode) -> bool {
    !(node is RunPrebuild || node is RunMoonLexPrebuild || node is RunMoonYaccPrebuild)
}

impl<S, R> BackendPlan<S, R> {
    /// Whether the plan holds the metadata that the action of `node` is
    /// lowered from.
    pub open spec fn has_info(&self, node: BuildPlanNode) -> bool {
        match node {
            BuildPlanNode::Check(t) | BuildPlanNode::EmitProof(t) | BuildPlanNode::Prove(t)
            | BuildPlanNode::BuildCore(t) | BuildPlanNode::GenerateTestInfo(t) => has_key(
                self.build_target_infos@,
                t,
            ),
            BuildPlanNode::BuildCStub(p, _) | BuildPlanNode::ArchiveOrLinkCStubs(p) => has_key(
                self.c_stubs_info@,
                p,
            ),
            BuildPlanNode::LinkCore(t) => has_key(self.link_core_info@, t),
            BuildPlanNode::MakeExecutable(t) => has_key(self.make_executable_info@, t),
            BuildPlanNode::GenerateDsym(_) => self.dsymutil is Some,
            BuildPlanNode::BuildVirtual(p) => has_key(self.virtual_contract_inputs@, p),
            BuildPlanNode::Bundle(m) => has_key(self.bundle_info@, m),
            BuildPlanNode::BuildRuntimeObject(_) | BuildPlanNode::BuildRuntimeLib => self.runtime_info is Some,
            _ => true,
        }
    }

    /// The action of the backend node `node`.
    pub open spec fn action_of(&self, node: BuildPlanNode) -> BuildAction {
        match node {
            BuildPlanNode::Check(t) => BuildAction::Check {
                target: t,
                info: key_pos(self.build_target_infos@, t) as usize,
            },
            BuildPlanNode::EmitProof(t) => BuildAction::EmitProof {
                target: t,
                info: key_pos(self.build_target_infos@, t) as usize,
            },
            BuildPlanNode::Prove(t) => BuildAction::Prove {
                target: t,
                info: key_pos(self.build_target_infos@, t) as usize,
            },
            BuildPlanNode::BuildCore(t) => BuildAction::BuildCore {
                target: t,
                info: key_pos(self.build_target_infos@, t) as usize,
            },
            BuildPlanNode::BuildCStub(p, index) => BuildAction::BuildCStub {
                package: p,
                index,
                info: key_pos(self.c_stubs_info@, p) as usize,
            },
            BuildPlanNode::ArchiveOrLinkCStubs(p) => BuildAction::ArchiveOrLinkCStubs {
                package: p,
                info: key_pos(self.c_stubs_info@, p) as usize,
            },
            BuildPlanNode::LinkCore(t) => BuildAction::LinkCore {
                target: t,
                info: key_pos(self.link_core_info@, t) as usize,
                make_executable_info: if has_key(self.make_executable_info@, t) {
                    Some(key_pos(self.make_executable_info@, t) as usize)
                } else {
                    None
                },
            },
            BuildPlanNode::MakeExecutable(t) => BuildAction::MakeExecutable {
                target: t,
                info: key_pos(self.make_executable_info@, t) as usize,
            },
            BuildPlanNode::GenerateDsym(t) => BuildAction::GenerateDsym { target: t },
            BuildPlanNode::GenerateTestInfo(t) => BuildAction::GenerateTestInfo {
                target: t,
                info: key_pos(self.build_target_infos@, t) as usize,
            },
            BuildPlanNode::GenerateNodeTestPackageConfig(p) => BuildAction::GenerateNodeTestPackageConfig {
                package: p,
            },
            BuildPlanNode::GenerateMbti(t) => BuildAction::GenerateMbti { target: t },
            BuildPlanNode::BuildVirtual(p) => BuildAction::BuildVirtual {
                package: p,
                input: key_pos(self.virtual_contract_inputs@, p) as usize,
            },
            BuildPlanNode::Bundle(m) => BuildAction::Bundle {
                module: m,
                targets: key_pos(self.bundle_info@, m) as usize,
            },
            BuildPlanNode::BuildRuntimeObject(index) => BuildAction::BuildRuntimeObject { index },
            BuildPlanNode::BuildRuntimeLib => BuildAction::BuildRuntimeLib,
            BuildPlanNode::BuildDocs(m) => BuildAction::BuildDocs { module: m },
            _ => BuildAction::BuildRuntimeLib,
        }
    }

    /// The action of the backend node `node`, with the positions of its
    /// metadata; the metadata must be present, as planning guarantees.
    pub fn action(&self, node: BuildPlanNode) -> (r: BuildAction)
        requires
            is_backend_node(node),
            self.has_info(node),
        ensures
            r == self.action_of(node),
    {
        match node {
            BuildPlanNode::Check(t) => BuildAction::Check { target: t, info: self.target_info(t) },
            BuildPlanNode::EmitProof(t) => BuildAction::EmitProof { target: t, info: self.target_info(t) },
            BuildPlanNode::Prove(t) => BuildAction::Prove { target: t, info: self.target_info(t) },
            BuildPlanNode::BuildCore(t) => BuildAction::BuildCore { target: t, info: self.target_info(t) },
            BuildPlanNode::BuildCStub(p, index) => BuildAction::BuildCStub {
                package: p,
                index,
                info: self.stubs_info(p),
            },
            BuildPlanNode::ArchiveOrLinkCStubs(p) => BuildAction::ArchiveOrLinkCStubs {
                package: p,
                info: self.stubs_info(p),
            },
            BuildPlanNode::LinkCore(t) => {
                let info = match find_target(&self.link_core_info, t) {
                    Some(i) => {
                        proof {
                            lemma_key_pos(self.link_core_info@, t, i as int);
                        }
                        i
                    },
                    None => {
                        proof {
                            assert(false);
                        }
                        0
                    },
                };
                let make_executable_info = match find_target(&self.make_executable_info, t) {
                    Some(i) => {
                        proof {
                            lemma_key_pos(self.make_executable_info@, t, i as int);
                        }
                        Some(i)
                    },
                    None => None,
                };
                BuildAction::LinkCore { target: t, info, make_executable_info }
            },
            BuildPlanNode::MakeExecutable(t) => {
                let info = match find_target(&self.make_executable_info, t) {
                    Some(i) => {
                        proof {
                            lemma_key_pos(self.make_executable_info@, t, i as int);
                        }
                        i
                    },
                    None => {
                        proof {
                            assert(false);
                        }
                        0
                    },
                };
                BuildAction::MakeExecutable { target: t, info }
            },
            BuildPlanNode::GenerateDsym(t) => BuildAction::GenerateDsym { target: t },
            BuildPlanNode::GenerateTestInfo(t) => BuildAction::GenerateTestInfo {
                target: t,
                info: self.target_info(t),
            },
            BuildPlanNode::GenerateNodeTestPackageConfig(p) => BuildAction::GenerateNodeTestPackageConfig {
                package: p,
            },
            BuildPlanNode::GenerateMbti(t) => BuildAction::GenerateMbti { target: t },
            BuildPlanNode::BuildVirtual(p) => {
                let input = match find_package(&self.virtual_contract_inputs, p) {
                    Some(i) => {
                        proof {
                            lemma_key_pos(self.virtual_contract_inputs@, p, i as int);
                        }
                        i
                    },
                    None => {
                        proof {
                            assert(false);
                        }
                        0
                    },
                };
                BuildAction::BuildVirtual { package: p, input }
            },
            BuildPlanNode::Bundle(m) => {
                let targets = match find_module(&self.bundle_info, m) {
                    Some(i) => {
                        proof {
                            lemma_key_pos(self.bundle_info@, m, i as int);
                        }
                        i
                    },
                    None => {
                        proof {
                            assert(false);
                        }
                        0
                    },
                };
                BuildAction::Bundle { module: m, targets }
            },
            BuildPlanNode::BuildRuntimeObject(index) => BuildAction::BuildRuntimeObject { index },
            BuildPlanNode::BuildRuntimeLib => BuildAction::BuildRuntimeLib,
            BuildPlanNode::BuildDocs(m) => BuildAction::BuildDocs { module: m },
            _ => {
                proof {
                    assert(false);
                }
                BuildAction::BuildRuntimeLib
            },
        }
    }

    fn target_info(&self, t: BuildTarget) -> (r: usize)
        requires
            has_key(self.build_target_infos@, t),
        ensures
            r as int == key_pos(self.build_target_infos@, t),
    {
        match find_target(&self.build_target_infos, t) {
            Some(i) => {
                proof {
                    lemma_key_pos(self.build_target_infos@, t, i as int);
                }
                i
            },
            None => {
                proof {
                    assert(false);
                }
                0
            },
        }
    }

    fn stubs_info(&self, p: PackageId) -> (r: usize)
        requires
            has_key(self.c_stubs_info@, p),
        ensures
            r as int == key_pos(self.c_stubs_info@, p),
    {
        match find_package(&self.c_stubs_info, p) {
            Some(i) => {
                proof {
                    lemma_key_pos(self.c_stubs_info@, p, i as int);
                }
                i
            },
            None => {
                proof {
                    assert(false);
                }
                0
            },
        }
    }
}

/// The key of a planned action: a backend node, or a package prebuild.
#[derive(Clone, Debug)]
pub enum BuildPlanActionKey {
    Backend(BuildPlanNode),
    PackagePrebuild(PackagePrebuildKey),
}

/// A planned action, hydrated: a backend action, or the position of a
/// package prebuild action in the prebuild plan.
#[derive(Clone, Copy, Debug, PartialEq, Eq, Structural)]
pub enum PlannedAction {
    Backend(BuildAction),
    Prebuild { index: usize },
}

/// Whether the plans hold what the action of `key` is lowered from.
pub open spec fn key_planned<S, R>(backend: BackendPlan<S, R>, prebuilds: PackagePrebuildPlan, key: BuildPlanActionKey) -> bool {
    match key {
        BuildPlanActionKey::Backend(node) => is_backend_node(node) && backend.has_info(node),
        BuildPlanActionKey::PackagePrebuild(k) => prebuilds.action_map().contains_key(k@),
    }
}

/// The action of `key`: a backend node's action from the backend plan, a
/// package prebuild from the prebuild plan, at the entry whose key is `key`
/// (keys there are distinct).
pub fn planned_action<S, R>(backend: &BackendPlan<S, R>, prebuilds: &PackagePrebuildPlan, key: &BuildPlanActionKey) -> (r: PlannedAction)
    requires
        prebuilds.wf(),
        key_planned(*backend, *prebuilds, *key),
    ensures
        key matches BuildPlanActionKey::Backend(node) ==> r == PlannedAction::Backend(backend.action_of(*node)),
        key matches BuildPlanActionKey::PackagePrebuild(k) ==> (r matches PlannedAction::Prebuild { index }
            && index < prebuilds.actions@.len() && prebuilds.actions@[index as int].0@ == k@),
{
    match key {
        BuildPlanActionKey::Backend(node) => PlannedAction::Backend(backend.action(*node)),
        BuildPlanActionKey::PackagePrebuild(k) => match prebuilds.index_of(k) {
            Some(i) => PlannedAction::Prebuild { index: i },
            None => {
                proof {
                    assert(false);
                }
                PlannedAction::Prebuild { index: 0 }
            },
        },
    }
}

} // verus!
