//! Package-level file generation: custom prebuild commands and the built-in
//! lexer and parser generators.

use vstd::prelude::*;

use super::artifact::PathKey;
use crate::assoc::{assoc_map, lemma_assoc_lookup, lemma_assoc_push, unique_keys};
use crate::execution_plan::copy_strings;
use crate::model::PackageId;
use crate::path::{path_equal, path_key};

verus! {

/// Identity of one package-level file-generation action.
///
/// Custom commands have no declared name and may have no output, so their
/// position in the manifest is their identity. The built-in generators are
/// identified by their input path.
#[derive(Clone, Debug, PartialEq, Eq, Hash)]
pub enum PackagePrebuildKey {
    Custom { package: PackageId, declaration_index: u32 },
    MoonLex { package: PackageId, input: String },
    MoonYacc { package: PackageId, input: String },
}

/// The value of a [`PackagePrebuildKey`]: inputs are compared as paths.
pub enum PrebuildKeyView {
    Custom { package: PackageId, declaration_index: u32 },
    MoonLex { package: PackageId, input: PathKey },
    MoonYacc { package: PackageId, input: PathKey },
}

impl View for PackagePrebuildKey {
    type V = PrebuildKeyView;

    open spec fn view(&self) -> PrebuildKeyView {
        match self {
            PackagePrebuildKey::Custom { package, declaration_index } => PrebuildKeyView::Custom {
                package: *package,
                declaration_index: *declaration_index,
            },
            PackagePrebuildKey::MoonLex { package, input } => PrebuildKeyView::MoonLex {
                package: *package,
                input: path_key(input@),
            },
            PackagePrebuildKey::MoonYacc { package, input } => PrebuildKeyView::MoonYacc {
                package: *package,
                input: path_key(input@),
            },
        }
    }
}

/// The package of a key.
pub open spec fn key_package(k: PrebuildKeyView) -> PackageId {
    match k {
        PrebuildKeyView::Custom { package, .. } => package,
        PrebuildKeyView::MoonLex { package, .. } => package,
        PrebuildKeyView::MoonYacc { package, .. } => package,
    }
}

impl PackagePrebuildKey {
    /// The package that the action belongs to.
    pub fn package(&self) -> (r: PackageId)
        ensures
            r == key_package(self@),
    {
        match self {
            PackagePrebuildKey::Custom { package, .. } => *package,
            PackagePrebuildKey::MoonLex { package, .. } => *package,
            PackagePrebuildKey::MoonYacc { package, .. } => *package,
        }
    }

    /// Whether two keys name the same action.
    pub fn same_as(&self, other: &PackagePrebuildKey) -> (r: bool)
        ensures
            r == (self@ == other@),
    {
        match (self, other) {
            (
                PackagePrebuildKey::Custom { package: p1, declaration_index: i1 },
                PackagePrebuildKey::Custom { package: p2, declaration_index: i2 },
            ) => *p1 == *p2 && *i1 == *i2,
            (
                PackagePrebuildKey::MoonLex { package: p1, input: a },
                PackagePrebuildKey::MoonLex { package: p2, input: b },
            ) => *p1 == *p2 && path_equal(a.as_str(), b.as_str()),
            (
                PackagePrebuildKey::MoonYacc { package: p1, input: a },
                PackagePrebuildKey::MoonYacc { package: p2, input: b },
            ) => *p1 == *p2 && path_equal(a.as_str(), b.as_str()),
            _ => false,
        }
    }
}

/// Resolved information about a custom package prebuild command.
#[derive(Debug)]
pub struct PrebuildInfo {
    pub resolved_inputs: Vec<String>,
    pub resolved_outputs: Vec<String>,
    /// The command's working directory. Workspaces may hold packages of
    /// several modules, so the module root belongs to each resolved command.
    pub cwd: String,
    pub command: String,
}

/// One package-level file-generation action.
#[derive(Debug)]
pub enum PackagePrebuildAction {
    Custom { info: PrebuildInfo },
    MoonLex { input: String, output: String },
    MoonYacc { input: String, output: String },
}

/// The outputs of an action.
pub open spec fn action_outputs(a: PackagePrebuildAction) -> Seq<String> {
    match a {
        PackagePrebuildAction::Custom { info } => info.resolved_outputs@,
        PackagePrebuildAction::MoonLex { output, .. } => seq![output],
        PackagePrebuildAction::MoonYacc { output, .. } => seq![output],
    }
}

impl PackagePrebuildAction {
    /// The paths that the action writes.
    pub fn output_paths(&self) -> (r: Vec<String>)
        ensures
            r@ == action_outputs(*self),
    {
        match self {
            PackagePrebuildAction::Custom { info } => copy_strings(&info.resolved_outputs),
            PackagePrebuildAction::MoonLex { output, .. } => {
                let mut r: Vec<String> = Vec::new();
                r.push(output.clone());
                assert(r@ =~= seq![*output]);
                r
            },
            PackagePrebuildAction::MoonYacc { output, .. } => {
                let mut r: Vec<String> = Vec::new();
                r.push(output.clone());
                assert(r@ =~= seq![*output]);
                r
            },
        }
    }
}

/// The value of a key.
pub open spec fn prebuild_key_value() -> spec_fn(PackagePrebuildKey) -> PrebuildKeyView {
    |k: PackagePrebuildKey| k@
}

/// An action as itself.
pub open spec fn action_value() -> spec_fn(PackagePrebuildAction) -> PackagePrebuildAction {
    |a: PackagePrebuildAction| a
}

/// The outputs of the actions of `package` among `v`, in order.
pub open spec fn package_outputs(
    v: Seq<(PackagePrebuildKey, PackagePrebuildAction)>,
    package: PackageId,
    custom_only: bool,
) -> Seq<String>
    decreases v.len(),
{
    if v.len() == 0 {
        Seq::empty()
    } else {
        let rest = package_outputs(v.drop_last(), package, custom_only);
        let k = v.last().0@;
        if key_package(k) == package && (!custom_only || (k is Custom
            && v.last().1 is Custom)) {
            rest + action_outputs(v.last().1)
        } else {
            rest
        }
    }
}

/// The package-prebuild subplan of a build plan: one action per key, in
/// planning order. Command data and physical inputs and outputs stay with the
/// action; execution planning connects actions by matching paths.
#[derive(Debug)]
pub struct PackagePrebuildPlan {
    pub actions: Vec<(PackagePrebuildKey, PackagePrebuildAction)>,
}

impl PackagePrebuildPlan {
    /// The actions by key.
    pub open spec fn action_map(&self) -> Map<PrebuildKeyView, PackagePrebuildAction> {
        assoc_map(self.actions@, prebuild_key_value(), action_value())
    }

    /// Whether every key occurs once.
    pub open spec fn wf(&self) -> bool {
        unique_keys(self.actions@, prebuild_key_value())
    }

    /// An empty subplan.
    pub fn new() -> (r: PackagePrebuildPlan)
        ensures
            r.wf(),
            r.actions@.len() == 0,
    {
        PackagePrebuildPlan { actions: Vec::new() }
    }

    /// The number of actions.
    pub fn action_count(&self) -> (r: usize)
        ensures
            r == self.actions@.len(),
    {
        self.actions.len()
    }

    /// The actions with their keys, in planning order.
    pub fn actions(&self) -> (r: &Vec<(PackagePrebuildKey, PackagePrebuildAction)>)
        ensures
            r == &self.actions,
    {
        &self.actions
    }

    /// The position of the action with `key`, if planned.
    pub fn index_of(&self, key: &PackagePrebuildKey) -> (r: Option<usize>)
        requires
            self.wf(),
        ensures
            match r {
                Some(i) => i < self.actions@.len() && self.actions@[i as int].0@ == key@
                    && self.action_map().contains_key(key@) && self.action_map()[key@]
                    == self.actions@[i as int].1,
                None => !self.action_map().contains_key(key@),
            },
    {
        let mut i: usize = 0;
        while i < self.actions.len()
            invariant
                i <= self.actions.len(),
                self.wf(),
                forall|j: int| 0 <= j < i ==> (#[trigger] self.actions@[j]).0@ != key@,
            decreases self.actions.len() - i,
        {
            if self.actions[i].0.same_as(key) {
                proof {
                    lemma_assoc_lookup(self.actions@, prebuild_key_value(), action_value(), key@);
                    assert(prebuild_key_value()(self.actions@[i as int].0) == key@);
                }
                return Some(i);
            }
            i = i + 1;
        }
        proof {
            lemma_assoc_lookup(self.actions@, prebuild_key_value(), action_value(), key@);
            if self.action_map().contains_key(key@) {
                let j = choose|j: int|
                    0 <= j < self.actions@.len() && prebuild_key_value()(#[trigger] self.actions@[j].0)
                        == key@;
                assert(self.actions@[j].0@ != key@);
            }
        }
        None
    }

    /// Whether an action with `key` is planned.
    pub fn contains_key(&self, key: &PackagePrebuildKey) -> (r: bool)
        requires
            self.wf(),
        ensures
            r == self.action_map().contains_key(key@),
    {
        self.index_of(key).is_some()
    }

    /// The action with `key`, if planned.
    pub fn action(&self, key: &PackagePrebuildKey) -> (r: Option<&PackagePrebuildAction>)
        requires
            self.wf(),
        ensures
            match r {
                Some(a) => self.action_map().contains_key(key@) && self.action_map()[key@] == *a,
                None => !self.action_map().contains_key(key@),
            },
    {
        match self.index_of(key) {
            Some(i) => Some(&self.actions[i].1),
            None => None,
        }
    }

    fn append(&mut self, key: PackagePrebuildKey, action: PackagePrebuildAction)
        requires
            old(self).wf(),
            !old(self).action_map().contains_key(key@),
        ensures
            final(self).wf(),
            final(self).actions@ == old(self).actions@.push((key, action)),
            final(self).action_map() == old(self).action_map().insert(key@, action),
    {
        proof {
            lemma_assoc_push(self.actions@, prebuild_key_value(), action_value(), (key, action));
        }
        self.actions.push((key, action));
    }

    /// Plans the custom command `index` of `package`, which must not be
    /// planned yet.
    pub fn insert_custom(&mut self, package: PackageId, index: u32, info: PrebuildInfo)
        requires
            old(self).wf(),
            !old(self).action_map().contains_key(
                PrebuildKeyView::Custom { package, declaration_index: index },
            ),
        ensures
            final(self).wf(),
            final(self).actions@ == old(self).actions@.push(
                (
                    PackagePrebuildKey::Custom { package, declaration_index: index },
                    PackagePrebuildAction::Custom { info },
                ),
            ),
    {
        let key = PackagePrebuildKey::Custom { package, declaration_index: index };
        self.append(key, PackagePrebuildAction::Custom { info });
    }

    /// Plans the lexer generator for `input` of `package`, unless it is
    /// planned already.
    pub fn insert_moonlex(&mut self, package: PackageId, input: String, output: String)
        requires
            old(self).wf(),
        ensures
            final(self).wf(),
            old(self).action_map().contains_key(
                PrebuildKeyView::MoonLex { package, input: path_key(input@) },
            ) ==> final(self).actions@ == old(self).actions@,
            !old(self).action_map().contains_key(
                PrebuildKeyView::MoonLex { package, input: path_key(input@) },
            ) ==> final(self).actions@ == old(self).actions@.push(
                (
                    PackagePrebuildKey::MoonLex { package, input },
                    PackagePrebuildAction::MoonLex { input, output },
                ),
            ),
    {
        let key = PackagePrebuildKey::MoonLex { package, input: input.clone() };
        if self.contains_key(&key) {
            return;
        }
        self.append(key, PackagePrebuildAction::MoonLex { input, output });
    }

    /// Plans the parser generator for `input` of `package`, unless it is
    /// planned already.
    pub fn insert_moonyacc(&mut self, package: PackageId, input: String, output: String)
        requires
            old(self).wf(),
        ensures
            final(self).wf(),
            old(self).action_map().contains_key(
                PrebuildKeyView::MoonYacc { package, input: path_key(input@) },
            ) ==> final(self).actions@ == old(self).actions@,
            !old(self).action_map().contains_key(
                PrebuildKeyView::MoonYacc { package, input: path_key(input@) },
            ) ==> final(self).actions@ == old(self).actions@.push(
                (
                    PackagePrebuildKey::MoonYacc { package, input },
                    PackagePrebuildAction::MoonYacc { input, output },
                ),
            ),
    {
        let key = PackagePrebuildKey::MoonYacc { package, input: input.clone() };
        if self.contains_key(&key) {
            return;
        }
        self.append(key, PackagePrebuildAction::MoonYacc { input, output });
    }

    fn collect_outputs(&self, package: PackageId, custom_only: bool) -> (r: Vec<String>)
        ensures
            r@ == package_outputs(self.actions@, package, custom_only),
    {
        let mut r: Vec<String> = Vec::new();
        let mut i: usize = 0;
        while i < self.actions.len()
            invariant
                i <= self.actions.len(),
                r@ == package_outputs(self.actions@.take(i as int), package, custom_only),
            decreases self.actions.len() - i,
        {
            let (key, action) = (&self.actions[i].0, &self.actions[i].1);
            proof {
                assert(self.actions@.take(i + 1).drop_last() =~= self.actions@.take(i as int));
                assert(self.actions@.take(i + 1).last() == self.actions@[i as int]);
            }
            let wanted = key.package() == package && (!custom_only || (matches!(
                key,
                PackagePrebuildKey::Custom { .. }
            ) && matches!(action, PackagePrebuildAction::Custom { .. })));
            if wanted {
                let outs = action.output_paths();
                let mut j: usize = 0;
                let ghost base = r@;
                while j < outs.len()
                    invariant
                        j <= outs.len(),
                        r@ == base + outs@.take(j as int),
                    decreases outs.len() - j,
                {
                    r.push(outs[j].clone());
                    assert(outs@.take(j + 1) =~= outs@.take(j as int).push(outs@[j as int]));
                    assert(r@ =~= base + outs@.take(j + 1));
                    j = j + 1;
                }
                assert(outs@.take(outs@.len() as int) =~= outs@);
            }
            i = i + 1;
        }
        assert(self.actions@.take(self.actions@.len() as int) =~= self.actions@);
        r
    }

    /// The outputs of every action of `package`, in planning order.
    pub fn output_paths(&self, package: PackageId) -> (r: Vec<String>)
        ensures
            r@ == package_outputs(self.actions@, package, false),
    {
        self.collect_outputs(package, false)
    }

    /// The outputs of the custom commands of `package`, in planning order.
    pub fn custom_output_paths(&self, package: PackageId) -> (r: Vec<String>)
        ensures
            r@ == package_outputs(self.actions@, package, true),
    {
        self.collect_outputs(package, true)
    }
}

} // verus!
