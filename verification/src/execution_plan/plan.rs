//! The execution plan: concrete actions and their declared outputs.
//!
//! Build artifact requirements are realized as concrete input paths. Declared
//! outputs retain their producer and optional artifact annotation, so a
//! consumer can resolve an input path through
//! [`ExecutionPlan::declared_output`] instead of inferring meaning from its
//! file name.

use vstd::prelude::*;

use super::{
    copy_external_inputs, copy_strings, external_inputs_equal, external_inputs_view, path_keys,
    paths_equal, ActionId, ExternalInput, ExternalInputView, LoweredCommand,
    LoweredCommandView,
};
use crate::build_plan::artifact::{keys_view, ArtifactKey, ArtifactKeyView, PathKey};
use crate::path::{path_equal, path_key};
use crate::text::str_eq;

verus! {

/// One physical file or directory declared to execution adapters.
///
/// A declared output may realize a semantic build artifact; execution-only
/// outputs such as a dSYM bundle have no artifact.
#[derive(Clone, Debug)]
pub struct DeclaredOutput {
    pub producer: ActionId,
    pub path: String,
    pub artifact: Option<ArtifactKey>,
}

/// The value of a [`DeclaredOutput`].
pub struct DeclaredOutputView {
    pub producer: ActionId,
    pub path: PathKey,
    pub artifact: Option<ArtifactKeyView>,
}

/// The value of an optional artifact key.
pub open spec fn opt_key_view(k: Option<ArtifactKey>) -> Option<ArtifactKeyView> {
    match k {
        Some(a) => Some(a@),
        None => None,
    }
}

impl View for DeclaredOutput {
    type V = DeclaredOutputView;

    open spec fn view(&self) -> DeclaredOutputView {
        DeclaredOutputView {
            producer: self.producer,
            path: path_key(self.path@),
            artifact: opt_key_view(self.artifact),
        }
    }
}

impl DeclaredOutput {
    /// The action that produces this output.
    pub fn producer(&self) -> (r: ActionId)
        ensures
            r == self.producer,
    {
        self.producer
    }

    /// The declared path.
    pub fn path(&self) -> (r: &str)
        ensures
            r@ == self.path@,
    {
        self.path.as_str()
    }

    /// The artifact this output realizes, if any.
    pub fn artifact(&self) -> (r: Option<&ArtifactKey>)
        ensures
            match self.artifact {
                Some(a) => r == Some(&a),
                None => r is None,
            },
    {
        match &self.artifact {
            Some(a) => Some(a),
            None => None,
        }
    }
}

fn copy_opt_key(k: &Option<ArtifactKey>) -> (r: Option<ArtifactKey>)
    ensures
        opt_key_view(r) == opt_key_view(*k),
{
    match k {
        Some(a) => Some(a.duplicate()),
        None => None,
    }
}

fn opt_key_same(a: &Option<ArtifactKey>, b: &Option<ArtifactKey>) -> (r: bool)
    ensures
        r == (opt_key_view(*a) == opt_key_view(*b)),
{
    match (a, b) {
        (Some(x), Some(y)) => x.same_as(y),
        (None, None) => true,
        _ => false,
    }
}

/// One concrete action after command construction and path realization.
#[derive(Clone, Debug)]
pub struct ExecutionAction {
    pub inputs: Vec<String>,
    pub external_inputs: Vec<ExternalInput>,
    pub outputs: Vec<String>,
    pub command: LoweredCommand,
    pub cache_eligible: bool,
    pub fileloc: String,
    pub description: String,
    pub can_dirty_on_output: bool,
    /// The package reported when the action fails, if any.
    pub error_package: Option<String>,
}

/// The value of an [`ExecutionAction`]: two actions with equal values behave
/// the same.
pub struct ExecutionActionView {
    pub inputs: Seq<PathKey>,
    pub external_inputs: Seq<ExternalInputView>,
    pub outputs: Seq<PathKey>,
    pub command: LoweredCommandView,
    pub cache_eligible: bool,
    pub fileloc: Seq<char>,
    pub description: Seq<char>,
    pub can_dirty_on_output: bool,
    pub error_package: Option<Seq<char>>,
}

impl View for ExecutionAction {
    type V = ExecutionActionView;

    open spec fn view(&self) -> ExecutionActionView {
        ExecutionActionView {
            inputs: path_keys(self.inputs@),
            external_inputs: external_inputs_view(self.external_inputs@),
            outputs: path_keys(self.outputs@),
            command: self.command@,
            cache_eligible: self.cache_eligible,
            fileloc: self.fileloc@,
            description: self.description@,
            can_dirty_on_output: self.can_dirty_on_output,
            error_package: match self.error_package {
                Some(p) => Some(p@),
                None => None,
            },
        }
    }
}

impl ExecutionAction {
    /// A cache-eligible action without external inputs, output-dirtying or an
    /// error package.
    pub fn new(
        inputs: Vec<String>,
        outputs: Vec<String>,
        command: LoweredCommand,
        fileloc: String,
        description: String,
    ) -> (r: ExecutionAction)
        ensures
            r == (ExecutionAction {
                inputs,
                external_inputs: r.external_inputs,
                outputs,
                command,
                cache_eligible: true,
                fileloc,
                description,
                can_dirty_on_output: false,
                error_package: None,
            }),
            r.external_inputs@.len() == 0,
    {
        ExecutionAction {
            inputs,
            external_inputs: Vec::new(),
            outputs,
            command,
            cache_eligible: true,
            fileloc,
            description,
            can_dirty_on_output: false,
            error_package: None,
        }
    }

    pub fn with_external_inputs(self, external_inputs: Vec<ExternalInput>) -> (r: ExecutionAction)
        ensures
            r == (ExecutionAction { external_inputs, ..self }),
    {
        ExecutionAction { external_inputs, ..self }
    }

    pub fn with_cache_eligible(self, cache_eligible: bool) -> (r: ExecutionAction)
        ensures
            r == (ExecutionAction { cache_eligible, ..self }),
    {
        ExecutionAction { cache_eligible, ..self }
    }

    pub fn with_can_dirty_on_output(self, can_dirty_on_output: bool) -> (r: ExecutionAction)
        ensures
            r == (ExecutionAction { can_dirty_on_output, ..self }),
    {
        ExecutionAction { can_dirty_on_output, ..self }
    }

    pub fn with_error_package(self, error_package: Option<String>) -> (r: ExecutionAction)
        ensures
            r == (ExecutionAction { error_package, ..self }),
    {
        ExecutionAction { error_package, ..self }
    }

    pub fn inputs(&self) -> (r: &Vec<String>)
        ensures
            r == &self.inputs,
    {
        &self.inputs
    }

    pub fn external_inputs(&self) -> (r: &Vec<ExternalInput>)
        ensures
            r == &self.external_inputs,
    {
        &self.external_inputs
    }

    pub fn outputs(&self) -> (r: &Vec<String>)
        ensures
            r == &self.outputs,
    {
        &self.outputs
    }

    pub fn command(&self) -> (r: &LoweredCommand)
        ensures
            r == &self.command,
    {
        &self.command
    }

    /// Whether lowering has a complete enough execution model to permit reuse.
    pub fn is_cache_eligible(&self) -> (r: bool)
        ensures
            r == self.cache_eligible,
    {
        self.cache_eligible
    }

    pub fn can_dirty_on_output(&self) -> (r: bool)
        ensures
            r == self.can_dirty_on_output,
    {
        self.can_dirty_on_output
    }

    pub fn fileloc(&self) -> (r: &str)
        ensures
            r@ == self.fileloc@,
    {
        self.fileloc.as_str()
    }

    pub fn description(&self) -> (r: &str)
        ensures
            r@ == self.description@,
    {
        self.description.as_str()
    }

    pub fn error_package(&self) -> (r: &Option<String>)
        ensures
            r == &self.error_package,
    {
        &self.error_package
    }

    /// A copy of this action.
    pub fn duplicate(&self) -> (r: ExecutionAction)
        ensures
            r@ == self@,
            r.outputs@ == self.outputs@,
    {
        let r = ExecutionAction {
            inputs: copy_strings(&self.inputs),
            external_inputs: copy_external_inputs(&self.external_inputs),
            outputs: copy_strings(&self.outputs),
            command: self.command.duplicate(),
            cache_eligible: self.cache_eligible,
            fileloc: self.fileloc.clone(),
            description: self.description.clone(),
            can_dirty_on_output: self.can_dirty_on_output,
            error_package: match &self.error_package {
                Some(p) => Some(p.clone()),
                None => None,
            },
        };
        assert(r.command@ == self.command@) by {
            assert(r.command@.args =~= self.command@.args);
            assert(r.command@.env =~= self.command@.env);
        }
        r
    }

    /// Whether two actions behave the same in every respect.
    pub fn same_as(&self, other: &ExecutionAction) -> (r: bool)
        ensures
            r == (self@ == other@),
    {
        let pkg_same = match (&self.error_package, &other.error_package) {
            (Some(a), Some(b)) => str_eq(a.as_str(), b.as_str()),
            (None, None) => true,
            _ => false,
        };
        paths_equal(&self.inputs, &other.inputs) && external_inputs_equal(
            &self.external_inputs,
            &other.external_inputs,
        ) && paths_equal(&self.outputs, &other.outputs) && self.command.same_as(&other.command)
            && self.cache_eligible == other.cache_eligible && str_eq(
            self.fileloc.as_str(),
            other.fileloc.as_str(),
        ) && str_eq(self.description.as_str(), other.description.as_str())
            && self.can_dirty_on_output == other.can_dirty_on_output && pkg_same
    }
}

/// The declared outputs as a map from path identity to declaration.
pub open spec fn outputs_map(v: Seq<DeclaredOutput>) -> Map<PathKey, DeclaredOutputView>
    decreases v.len(),
{
    if v.len() == 0 {
        Map::empty()
    } else {
        outputs_map(v.drop_last()).insert(v.last()@.path, v.last()@)
    }
}

/// No two declared outputs share a path.
pub open spec fn unique_output_paths(v: Seq<DeclaredOutput>) -> bool {
    forall|i: int, j: int|
        0 <= i < j < v.len() ==> #[trigger] v[i]@.path != #[trigger] v[j]@.path
}

proof fn lemma_outputs_map_lookup(v: Seq<DeclaredOutput>, k: PathKey)
    requires
        unique_output_paths(v),
    ensures
        outputs_map(v).contains_key(k) <==> exists|i: int| 0 <= i < v.len() && #[trigger] v[i]@.path == k,
        forall|i: int| 0 <= i < v.len() && #[trigger] v[i]@.path == k ==> outputs_map(v)[k] == v[i]@,
    decreases v.len(),
{
    if v.len() > 0 {
        let init = v.drop_last();
        assert(unique_output_paths(init)) by {
            assert forall|i: int, j: int| 0 <= i < j < init.len() implies #[trigger] init[i]@.path
                != #[trigger] init[j]@.path by {
                assert(init[i] == v[i] && init[j] == v[j]);
            }
        }
        lemma_outputs_map_lookup(init, k);
        if outputs_map(init).contains_key(k) {
            let i = choose|i: int| 0 <= i < init.len() && #[trigger] init[i]@.path == k;
            assert(v[i] == init[i]);
        }
        assert forall|i: int| 0 <= i < v.len() && #[trigger] v[i]@.path == k implies outputs_map(v)[k]
            == v[i]@ by {
            if i < v.len() - 1 {
                assert(v[i] == init[i]);
                assert(v.last()@.path != k);
            }
        }
        if exists|i: int| 0 <= i < v.len() && #[trigger] v[i]@.path == k {
            let i = choose|i: int| 0 <= i < v.len() && #[trigger] v[i]@.path == k;
            if i < v.len() - 1 {
                assert(init[i] == v[i]);
            }
        }
    }
}

proof fn lemma_outputs_map_update(v: Seq<DeclaredOutput>, i: int, o: DeclaredOutput)
    requires
        unique_output_paths(v),
        0 <= i < v.len(),
        v[i]@.path == o@.path,
    ensures
        unique_output_paths(v.update(i, o)),
        outputs_map(v.update(i, o)) == outputs_map(v).insert(o@.path, o@),
{
    let w = v.update(i, o);
    assert(unique_output_paths(w)) by {
        assert forall|a: int, b: int| 0 <= a < b < w.len() implies #[trigger] w[a]@.path
            != #[trigger] w[b]@.path by {
            if a == i {
                assert(v[b]@.path != v[i]@.path);
            } else if b == i {
                assert(v[a]@.path != v[i]@.path);
            }
        }
    }
    let m = outputs_map(v).insert(o@.path, o@);
    assert forall|k: PathKey| #[trigger] outputs_map(w).contains_key(k) == m.contains_key(k) && (
    outputs_map(w).contains_key(k) ==> outputs_map(w)[k] == m[k]) by {
        lemma_outputs_map_lookup(v, k);
        lemma_outputs_map_lookup(w, k);
        if k == o@.path {
            assert(w[i]@.path == k);
        } else {
            if exists|j: int| 0 <= j < v.len() && #[trigger] v[j]@.path == k {
                let j = choose|j: int| 0 <= j < v.len() && #[trigger] v[j]@.path == k;
                assert(w[j] == v[j]);
            }
            if exists|j: int| 0 <= j < w.len() && #[trigger] w[j]@.path == k {
                let j = choose|j: int| 0 <= j < w.len() && #[trigger] w[j]@.path == k;
                assert(w[j] == v[j]);
            }
        }
    }
    assert(outputs_map(w) =~= outputs_map(v).insert(o@.path, o@));
}

proof fn lemma_outputs_map_push(v: Seq<DeclaredOutput>, o: DeclaredOutput)
    requires
        unique_output_paths(v),
        !outputs_map(v).contains_key(o@.path),
    ensures
        unique_output_paths(v.push(o)),
        outputs_map(v.push(o)) == outputs_map(v).insert(o@.path, o@),
{
    lemma_outputs_map_lookup(v, o@.path);
    let w = v.push(o);
    assert(w.drop_last() =~= v);
    assert forall|a: int, b: int| 0 <= a < b < w.len() implies #[trigger] w[a]@.path
        != #[trigger] w[b]@.path by {
        if b == v.len() {
            assert(w[a] == v[a]);
        } else {
            assert(w[a] == v[a] && w[b] == v[b]);
        }
    }
}

/// Finds the declaration of path `p` among `v`.
fn find_output(v: &Vec<DeclaredOutput>, p: &str) -> (r: Option<usize>)
    requires
        unique_output_paths(v@),
    ensures
        match r {
            Some(i) => i < v@.len() && v@[i as int]@.path == path_key(p@)
                && outputs_map(v@).contains_key(path_key(p@)) && outputs_map(v@)[path_key(p@)]
                == v@[i as int]@,
            None => !outputs_map(v@).contains_key(path_key(p@)),
        },
{
    let mut i: usize = 0;
    while i < v.len()
        invariant
            i <= v.len(),
            unique_output_paths(v@),
            forall|j: int| 0 <= j < i ==> #[trigger] v@[j]@.path != path_key(p@),
        decreases v.len() - i,
    {
        if path_equal(v[i].path.as_str(), p) {
            proof {
                lemma_outputs_map_lookup(v@, path_key(p@));
            }
            return Some(i);
        }
        i = i + 1;
    }
    proof {
        lemma_outputs_map_lookup(v@, path_key(p@));
    }
    None
}

/// The executor-neutral graph shared by n2, dry-run, and cache consumers.
#[derive(Clone, Debug)]
pub struct ExecutionPlan {
    pub actions: Vec<ExecutionAction>,
    pub outputs: Vec<DeclaredOutput>,
    pub requested_artifacts: Vec<(ArtifactKey, Vec<String>)>,
}

/// The value of an [`ExecutionPlan`].
pub struct ExecutionPlanView {
    pub actions: Seq<ExecutionActionView>,
    pub outputs: Map<PathKey, DeclaredOutputView>,
    pub requested: Seq<(ArtifactKeyView, Seq<PathKey>)>,
}

/// The values of a list of actions.
pub open spec fn actions_view(v: Seq<ExecutionAction>) -> Seq<ExecutionActionView> {
    Seq::new(v.len(), |i: int| v[i]@)
}

/// The values of the requested artifacts and their paths.
pub open spec fn requested_view(v: Seq<(ArtifactKey, Vec<String>)>) -> Seq<
    (ArtifactKeyView, Seq<PathKey>),
> {
    Seq::new(v.len(), |i: int| (v[i].0@, path_keys(v[i].1@)))
}

impl View for ExecutionPlan {
    type V = ExecutionPlanView;

    open spec fn view(&self) -> ExecutionPlanView {
        ExecutionPlanView {
            actions: actions_view(self.actions@),
            outputs: outputs_map(self.outputs@),
            requested: requested_view(self.requested_artifacts@),
        }
    }
}

/// A plan is well formed when its declared outputs have distinct paths, each
/// names an action of the plan as its producer, and every action output is
/// declared.
pub open spec fn plan_wf(p: ExecutionPlanView) -> bool {
    &&& forall|k: PathKey| #[trigger] p.outputs.contains_key(k) ==> p.outputs[k].producer.0
        < p.actions.len() && p.outputs[k].path == k
    &&& forall|a: int, j: int|
        0 <= a < p.actions.len() && 0 <= j < p.actions[a].outputs.len() ==> p.outputs.contains_key(
            #[trigger] p.actions[a].outputs[j],
        )
}

impl ExecutionPlan {
    /// Whether this plan is well formed.
    pub open spec fn wf(&self) -> bool {
        unique_output_paths(self.outputs@) && plan_wf(self@)
    }
}

/// The outcome of composing one incoming action into a plan.
pub enum MergeStep {
    /// The action was added or matched; the plan and the action's id in it.
    Merged(ExecutionPlanView, ActionId),
    /// An output of the action has an incompatible producer in the plan.
    Conflict(PathKey),
}

/// Whether any output of `a` is already declared in `p`.
pub open spec fn any_declared(p: ExecutionPlanView, a: ExecutionActionView) -> bool {
    exists|j: int| 0 <= j < a.outputs.len() && p.outputs.contains_key(#[trigger] a.outputs[j])
}

/// The index of the first output of `a` declared in `p`.
pub open spec fn first_declared(outs: Map<PathKey, DeclaredOutputView>, ks: Seq<PathKey>) -> int
    decreases ks.len(),
{
    if ks.len() == 0 || outs.contains_key(ks[0]) {
        0
    } else {
        1 + first_declared(outs, ks.drop_first())
    }
}

/// Whether `a` matches the action of `p` that already produces its outputs:
/// all of `a`'s outputs are declared by one action `e` with the artifacts that
/// `incoming` declares for them, `e` has as many outputs, and `e` behaves
/// exactly as `a`.
pub open spec fn matches_existing(
    p: ExecutionPlanView,
    a: ExecutionActionView,
    incoming: Map<PathKey, DeclaredOutputView>,
) -> bool {
    let e = p.outputs[a.outputs[0]].producer;
    &&& a.outputs.len() > 0
    &&& forall|j: int|
        0 <= j < a.outputs.len() ==> {
            let k = #[trigger] a.outputs[j];
            &&& p.outputs.contains_key(k)
            &&& p.outputs[k].producer == e
            &&& incoming.contains_key(k)
            &&& p.outputs[k].artifact == incoming[k].artifact
        }
    &&& e.0 < p.actions.len()
    &&& a.outputs.len() == p.actions[e.0 as int].outputs.len()
    &&& p.actions[e.0 as int] == a
}

/// The declarations made for a newly added action `id` with outputs `ks`.
pub open spec fn new_declarations(
    ks: Seq<PathKey>,
    id: ActionId,
    incoming: Map<PathKey, DeclaredOutputView>,
) -> Map<PathKey, DeclaredOutputView> {
    Map::new(
        |k: PathKey| ks.contains(k),
        |k: PathKey| DeclaredOutputView { producer: id, path: k, artifact: incoming[k].artifact },
    )
}

/// Composing one incoming action `a`, whose plan declares `incoming`, into `p`.
///
/// An action none of whose outputs is declared is appended, and its outputs are
/// declared as produced by it. An action that matches the producer of its
/// outputs is shared. Otherwise the first declared output conflicts.
pub open spec fn merge_step(
    p: ExecutionPlanView,
    a: ExecutionActionView,
    incoming: Map<PathKey, DeclaredOutputView>,
) -> MergeStep {
    if !any_declared(p, a) {
        let id = ActionId(p.actions.len() as usize);
        MergeStep::Merged(
            ExecutionPlanView {
                actions: p.actions.push(a),
                outputs: p.outputs.union_prefer_right(new_declarations(a.outputs, id, incoming)),
                requested: p.requested,
            },
            id,
        )
    } else if matches_existing(p, a, incoming) {
        MergeStep::Merged(p, p.outputs[a.outputs[0]].producer)
    } else {
        MergeStep::Conflict(a.outputs[first_declared(p.outputs, a.outputs)])
    }
}

/// The state after composing the first `n` actions.
pub struct MergeState {
    pub plan: ExecutionPlanView,
    pub ids: Seq<ActionId>,
    pub conflict: Option<PathKey>,
}

/// Composing the first `n` incoming actions in order, stopping at the first
/// conflict.
pub open spec fn merge_prefix(
    p: ExecutionPlanView,
    acts: Seq<ExecutionActionView>,
    incoming: Map<PathKey, DeclaredOutputView>,
    n: nat,
) -> MergeState
    decreases n,
{
    if n == 0 {
        MergeState { plan: p, ids: Seq::empty(), conflict: None }
    } else {
        let prev = merge_prefix(p, acts, incoming, (n - 1) as nat);
        if prev.conflict is Some {
            prev
        } else {
            match merge_step(prev.plan, acts[n - 1], incoming) {
                MergeStep::Merged(q, id) => MergeState {
                    plan: q,
                    ids: prev.ids.push(id),
                    conflict: None,
                },
                MergeStep::Conflict(k) => MergeState {
                    plan: prev.plan,
                    ids: prev.ids,
                    conflict: Some(k),
                },
            }
        }
    }
}

/// Why two execution plans cannot be composed.
#[derive(Debug)]
pub enum ExecutionPlanMergeError {
    /// Output `path` has incompatible producers.
    ConflictingOutput { path: String },
}

proof fn lemma_first_declared(outs: Map<PathKey, DeclaredOutputView>, ks: Seq<PathKey>, j: int)
    requires
        0 <= j < ks.len(),
        outs.contains_key(ks[j]),
        forall|q: int| 0 <= q < j ==> !outs.contains_key(#[trigger] ks[q]),
    ensures
        first_declared(outs, ks) == j,
    decreases j,
{
    if j > 0 {
        let rest = ks.drop_first();
        assert forall|q: int| 0 <= q < j - 1 implies !outs.contains_key(#[trigger] rest[q]) by {
            assert(rest[q] == ks[q + 1]);
        }
        assert(rest[j - 1] == ks[j]);
        assert(!outs.contains_key(ks[0]));
        lemma_first_declared(outs, rest, j - 1);
    }
}

proof fn lemma_merge_prefix_stops(
    p: ExecutionPlanView,
    acts: Seq<ExecutionActionView>,
    incoming: Map<PathKey, DeclaredOutputView>,
    n: nat,
    m: nat,
)
    requires
        n <= m,
        merge_prefix(p, acts, incoming, n).conflict is Some,
    ensures
        merge_prefix(p, acts, incoming, m) == merge_prefix(p, acts, incoming, n),
    decreases m - n,
{
    if n < m {
        lemma_merge_prefix_stops(p, acts, incoming, n, (m - 1) as nat);
    }
}

impl ExecutionPlan {
    /// The ids of this plan's actions, in order.
    pub fn action_ids(&self) -> (r: Vec<ActionId>)
        ensures
            r@.len() == self.actions@.len(),
            forall|i: int| 0 <= i < r@.len() ==> #[trigger] r@[i] == ActionId(i as usize),
    {
        let mut r: Vec<ActionId> = Vec::new();
        let mut i: usize = 0;
        while i < self.actions.len()
            invariant
                i <= self.actions.len(),
                r@.len() == i,
                forall|j: int| 0 <= j < i ==> #[trigger] r@[j] == ActionId(j as usize),
            decreases self.actions.len() - i,
        {
            r.push(ActionId(i));
            i = i + 1;
        }
        r
    }

    /// The action with the given id.
    pub fn action(&self, id: ActionId) -> (r: &ExecutionAction)
        requires
            id.0 < self.actions@.len(),
        ensures
            *r == self.actions@[id.0 as int],
    {
        &self.actions[id.0]
    }

    /// The declaration of output path `path`, if any.
    pub fn declared_output(&self, path: &str) -> (r: Option<&DeclaredOutput>)
        requires
            self.wf(),
        ensures
            match r {
                Some(o) => self@.outputs.contains_key(path_key(path@)) && self@.outputs[path_key(
                    path@,
                )] == o@,
                None => !self@.outputs.contains_key(path_key(path@)),
            },
    {
        match find_output(&self.outputs, path) {
            Some(i) => Some(&self.outputs[i]),
            None => None,
        }
    }

    /// The requested artifacts with the concrete paths that realize them.
    pub fn requested_artifact_paths(&self) -> (r: &Vec<(ArtifactKey, Vec<String>)>)
        ensures
            r == &self.requested_artifacts,
    {
        &self.requested_artifacts
    }

    /// Declares path `path` as `o`, replacing a declaration of the same path.
    fn declare(&mut self, o: DeclaredOutput)
        requires
            unique_output_paths(old(self).outputs@),
        ensures
            unique_output_paths(final(self).outputs@),
            outputs_map(final(self).outputs@) == outputs_map(old(self).outputs@).insert(o@.path, o@),
            final(self).actions == old(self).actions,
            final(self).requested_artifacts == old(self).requested_artifacts,
    {
        match find_output(&self.outputs, o.path.as_str()) {
            Some(i) => {
                proof {
                    lemma_outputs_map_update(self.outputs@, i as int, o);
                }
                self.outputs.set(i, o);
            },
            None => {
                proof {
                    lemma_outputs_map_push(self.outputs@, o);
                }
                self.outputs.push(o);
            },
        }
    }

    /// The index of the first output of `a` that this plan declares.
    fn first_declared_output(&self, a: &ExecutionAction) -> (r: Option<usize>)
        requires
            unique_output_paths(self.outputs@),
        ensures
            match r {
                Some(j) => any_declared(self@, a@) && j < a.outputs@.len() && j == first_declared(
                    self@.outputs,
                    a@.outputs,
                ),
                None => !any_declared(self@, a@),
            },
    {
        let mut j: usize = 0;
        while j < a.outputs.len()
            invariant
                j <= a.outputs.len(),
                unique_output_paths(self.outputs@),
                forall|q: int| 0 <= q < j ==> !self@.outputs.contains_key(#[trigger] a@.outputs[q]),
            decreases a.outputs.len() - j,
        {
            if find_output(&self.outputs, a.outputs[j].as_str()).is_some() {
                proof {
                    assert(a@.outputs[j as int] == path_key(a.outputs@[j as int]@));
                    lemma_first_declared(self@.outputs, a@.outputs, j as int);
                }
                return Some(j);
            }
            j = j + 1;
        }
        None
    }

    /// Whether `a`, from a plan declaring `incoming`, matches the producer of
    /// its outputs in this plan.
    fn matches_existing_exec(&self, a: &ExecutionAction, incoming: &ExecutionPlan) -> (r: bool)
        requires
            self.wf(),
            incoming.wf(),
        ensures
            r == matches_existing(self@, a@, incoming@.outputs),
    {
        if a.outputs.len() == 0 {
            return false;
        }
        let e = match find_output(&self.outputs, a.outputs[0].as_str()) {
            Some(i) => self.outputs[i].producer,
            None => {
                return false;
            },
        };
        let mut j: usize = 0;
        while j < a.outputs.len()
            invariant
                j <= a.outputs.len(),
                a.outputs.len() > 0,
                self.wf(),
                incoming.wf(),
                self@.outputs.contains_key(a@.outputs[0]),
                e == self@.outputs[a@.outputs[0]].producer,
                forall|q: int|
                    0 <= q < j ==> {
                        let k = #[trigger] a@.outputs[q];
                        &&& self@.outputs.contains_key(k)
                        &&& self@.outputs[k].producer == e
                        &&& incoming@.outputs.contains_key(k)
                        &&& self@.outputs[k].artifact == incoming@.outputs[k].artifact
                    },
            decreases a.outputs.len() - j,
        {
            let p = a.outputs[j].as_str();
            proof {
                assert(a@.outputs[j as int] == path_key(p@));
            }
            let ok = match find_output(&self.outputs, p) {
                Some(i) => {
                    if self.outputs[i].producer != e {
                        false
                    } else {
                        match find_output(&incoming.outputs, p) {
                            Some(t) => opt_key_same(
                                &self.outputs[i].artifact,
                                &incoming.outputs[t].artifact,
                            ),
                            None => false,
                        }
                    }
                },
                None => false,
            };
            if !ok {
                return false;
            }
            j = j + 1;
        }
        if e.0 >= self.actions.len() {
            return false;
        }
        let existing = &self.actions[e.0];
        assert(self@.actions[e.0 as int] == existing@);
        existing.outputs.len() == a.outputs.len() && existing.same_as(a)
    }

    /// Appends `a`, from a plan declaring `incoming`, declaring its outputs as
    /// produced by it.
    fn append_action(&mut self, a: &ExecutionAction, incoming: &ExecutionPlan) -> (r: ActionId)
        requires
            old(self).wf(),
            incoming.wf(),
            !any_declared(old(self)@, a@),
            forall|j: int|
                0 <= j < a@.outputs.len() ==> incoming@.outputs.contains_key(#[trigger] a@.outputs[j]),
        ensures
            final(self).wf(),
            merge_step(old(self)@, a@, incoming@.outputs) == MergeStep::Merged(final(self)@, r),
    {
        let id = ActionId(self.actions.len());
        let ghost before = self@;
        let ghost ks = a@.outputs;
        let ghost inc = incoming@.outputs;
        let mut j: usize = 0;
        while j < a.outputs.len()
            invariant
                j <= a.outputs.len(),
                ks == a@.outputs,
                inc == incoming@.outputs,
                incoming.wf(),
                forall|q: int| 0 <= q < ks.len() ==> inc.contains_key(#[trigger] ks[q]),
                id.0 == before.actions.len(),
                unique_output_paths(self.outputs@),
                self.actions == old(self).actions,
                self.requested_artifacts == old(self).requested_artifacts,
                outputs_map(self.outputs@) == before.outputs.union_prefer_right(
                    new_declarations(ks.take(j as int), id, inc),
                ),
            decreases a.outputs.len() - j,
        {
            let p = a.outputs[j].as_str();
            proof {
                assert(ks[j as int] == path_key(p@));
            }
            let artifact = match find_output(&incoming.outputs, p) {
                Some(t) => copy_opt_key(&incoming.outputs[t].artifact),
                None => {
                    proof {
                        assert(false);
                    }
                    None
                },
            };
            let o = DeclaredOutput { producer: id, path: a.outputs[j].clone(), artifact };
            let ghost prev = outputs_map(self.outputs@);
            self.declare(o);
            proof {
                let k = ks[j as int];
                assert(o@ == DeclaredOutputView { producer: id, path: k, artifact: inc[k].artifact });
                let t0 = ks.take(j as int);
                let t1 = ks.take(j + 1);
                assert(t1 =~= t0.push(k));
                assert forall|x: PathKey| #[trigger] t1.contains(x) <==> (t0.contains(x) || x == k) by {
                    if t1.contains(x) {
                        let w = choose|w: int| 0 <= w < t1.len() && t1[w] == x;
                        if w < t0.len() {
                            assert(t0[w] == x);
                        }
                    }
                    if t0.contains(x) {
                        let w = choose|w: int| 0 <= w < t0.len() && t0[w] == x;
                        assert(t1[w] == x);
                    }
                    if x == k {
                        assert(t1[j as int] == x);
                    }
                }
                assert(outputs_map(self.outputs@) =~= before.outputs.union_prefer_right(
                    new_declarations(ks.take(j + 1), id, inc),
                ));
            }
            j = j + 1;
        }
        let copy = a.duplicate();
        self.actions.push(copy);
        proof {
            assert(ks.take(ks.len() as int) =~= ks);
            assert(self@.actions =~= before.actions.push(a@));
            assert(self@.requested =~= before.requested);
            let after = self@;
            assert forall|k: PathKey| #[trigger] after.outputs.contains_key(k) implies after.outputs[k].producer.0
                < after.actions.len() && after.outputs[k].path == k by {
                if !ks.contains(k) {
                    assert(before.outputs.contains_key(k));
                }
            }
            assert forall|x: int, y: int|
                0 <= x < after.actions.len() && 0 <= y < after.actions[x].outputs.len() implies after.outputs.contains_key(
                #[trigger] after.actions[x].outputs[y],
            ) by {
                if x < before.actions.len() {
                    assert(after.actions[x] == before.actions[x]);
                    assert(before.outputs.contains_key(before.actions[x].outputs[y]));
                } else {
                    assert(after.actions[x] == a@);
                    assert(ks.contains(ks[y]));
                }
            }
        }
        id
    }

    /// Add an independently lowered plan and return its action ids in this plan.
    ///
    /// Concrete output paths form the composition boundary. Plans may share an
    /// action only when every part of its execution behavior and every output
    /// annotation agree. A partial overlap or a different producer is rejected.
    /// On rejection the actions before the conflicting one have been composed.
    pub fn merge(&mut self, other: &ExecutionPlan) -> (r: Result<Vec<ActionId>, ExecutionPlanMergeError>)
        requires
            old(self).wf(),
            other.wf(),
        ensures
            final(self).wf(),
            ({
                let st = merge_prefix(
                    old(self)@,
                    other@.actions,
                    other@.outputs,
                    other@.actions.len(),
                );
                match r {
                    Ok(ids) => st.conflict is None && ids@ == st.ids && final(self)@.actions
                        == st.plan.actions && final(self)@.outputs == st.plan.outputs
                        && final(self)@.requested == old(self)@.requested + other@.requested,
                    Err(ExecutionPlanMergeError::ConflictingOutput { path }) => st.conflict
                        == Some(path_key(path@)) && final(self)@ == st.plan,
                }
            }),
    {
        let ghost start = self@;
        let ghost acts = other@.actions;
        let ghost inc = other@.outputs;
        let mut ids: Vec<ActionId> = Vec::new();
        let mut i: usize = 0;
        while i < other.actions.len()
            invariant
                i <= other.actions.len(),
                self.wf(),
                other.wf(),
                acts == other@.actions,
                inc == other@.outputs,
                start == old(self)@,
                merge_prefix(start, acts, inc, i as nat).conflict is None,
                merge_prefix(start, acts, inc, i as nat).plan == self@,
                merge_prefix(start, acts, inc, i as nat).ids == ids@,
                self@.requested == start.requested,
            decreases other.actions.len() - i,
        {
            let a = &other.actions[i];
            proof {
                assert(acts[i as int] == a@);
            }
            match self.first_declared_output(a) {
                None => {
                    proof {
                        assert forall|j: int| 0 <= j < a@.outputs.len() implies inc.contains_key(
                            #[trigger] a@.outputs[j],
                        ) by {
                            assert(other@.actions[i as int].outputs[j] == a@.outputs[j]);
                        }
                    }
                    let id = self.append_action(a, other);
                    ids.push(id);
                },
                Some(j) => {
                    if self.matches_existing_exec(a, other) {
                        let e = match find_output(&self.outputs, a.outputs[0].as_str()) {
                            Some(t) => self.outputs[t].producer,
                            None => {
                                proof {
                                    assert(false);
                                }
                                ActionId(0)
                            },
                        };
                        proof {
                            assert(a@.outputs[0] == path_key(a.outputs@[0]@));
                        }
                        ids.push(e);
                    } else {
                        let path = a.outputs[j].clone();
                        proof {
                            assert(a@.outputs[j as int] == path_key(path@));
                            let prev = merge_prefix(start, acts, inc, i as nat);
                            assert(merge_step(prev.plan, acts[i as int], inc) == MergeStep::Conflict(
                                a@.outputs[j as int],
                            ));
                            assert(merge_prefix(start, acts, inc, (i + 1) as nat) == MergeState {
                                plan: prev.plan,
                                ids: prev.ids,
                                conflict: Some(a@.outputs[j as int]),
                            });
                            lemma_merge_prefix_stops(
                                start,
                                acts,
                                inc,
                                (i + 1) as nat,
                                acts.len(),
                            );
                            let st = merge_prefix(start, acts, inc, acts.len());
                            assert(st.conflict == Some(path_key(path@)));
                            assert(self@ == st.plan);
                        }
                        return Err(ExecutionPlanMergeError::ConflictingOutput { path });
                    }
                },
            }
            i = i + 1;
        }
        let mut j: usize = 0;
        let ghost base = self@.requested;
        let ghost plan_now = self@;
        proof {
            assert(other@.requested.take(0) =~= Seq::<(ArtifactKeyView, Seq<PathKey>)>::empty());
            assert(base + other@.requested.take(0) =~= base);
        }
        while j < other.requested_artifacts.len()
            invariant
                j <= other.requested_artifacts.len(),
                self.wf(),
                self@.actions == plan_now.actions,
                self@.outputs == plan_now.outputs,
                self@.requested == base + other@.requested.take(j as int),
            decreases other.requested_artifacts.len() - j,
        {
            let entry = (
                other.requested_artifacts[j].0.duplicate(),
                copy_strings(&other.requested_artifacts[j].1),
            );
            let ghost before = self@.requested;
            self.requested_artifacts.push(entry);
            proof {
                assert(self@.requested =~= before.push(other@.requested[j as int]));
                assert(other@.requested.take(j + 1) =~= other@.requested.take(j as int).push(
                    other@.requested[j as int],
                ));
                assert(self@.requested =~= base + other@.requested.take(j + 1));
                assert(self@.actions =~= plan_now.actions);
            }
            j = j + 1;
        }
        proof {
            assert(other@.requested.take(other@.requested.len() as int) =~= other@.requested);
        }
        Ok(ids)
    }
}

impl ExecutionPlan {
    /// An empty plan.
    pub fn empty() -> (r: ExecutionPlan)
        ensures
            r.wf(),
            r@.actions.len() == 0,
            r@.outputs == Map::<PathKey, DeclaredOutputView>::empty(),
            r@.requested.len() == 0,
            r.actions@.len() == 0,
            r.outputs@.len() == 0,
            r.requested_artifacts@.len() == 0,
    {
        let r = ExecutionPlan {
            actions: Vec::new(),
            outputs: Vec::new(),
            requested_artifacts: Vec::new(),
        };
        assert(r@.actions =~= Seq::<ExecutionActionView>::empty());
        assert(r@.requested =~= Seq::<(ArtifactKeyView, Seq<PathKey>)>::empty());
        r
    }
}

/// The artifact whose semantic paths include `k`, if any.
pub open spec fn artifact_for_path(
    sem: Seq<(ArtifactKeyView, Seq<PathKey>)>,
    k: PathKey,
) -> Option<ArtifactKeyView> {
    if exists|i: int| 0 <= i < sem.len() && #[trigger] sem[i].1.contains(k) {
        Some(sem[choose|i: int| 0 <= i < sem.len() && #[trigger] sem[i].1.contains(k)].0)
    } else {
        None
    }
}

/// The values of semantic outputs.
pub open spec fn semantic_view(v: Seq<(ArtifactKey, Vec<String>)>) -> Seq<
    (ArtifactKeyView, Seq<PathKey>),
> {
    requested_view(v)
}

/// No path occurs twice among the paths of `sem`, within one artifact or
/// across two.
pub open spec fn distinct_artifact_paths(sem: Seq<(ArtifactKeyView, Seq<PathKey>)>) -> bool {
    forall|i: int, p: int, j: int, q: int|
        0 <= i < sem.len() && 0 <= j < sem.len() && 0 <= p < sem[i].1.len() && 0 <= q < sem[j].1.len()
            && (i != j || p != q) ==> #[trigger] sem[i].1[p] != #[trigger] sem[j].1[q]
}

/// The conditions under which an action with semantic outputs `sem` can be
/// added: every artifact has a path, no path realizes two artifacts (or one
/// artifact twice), no artifact is provided twice, every artifact path is an
/// output of the action, and the action's outputs are distinct and not yet
/// declared.
pub open spec fn can_add_action(
    declared: Map<PathKey, DeclaredOutputView>,
    provided: Seq<(ArtifactKeyView, Seq<PathKey>)>,
    a: ExecutionActionView,
    sem: Seq<(ArtifactKeyView, Seq<PathKey>)>,
) -> bool {
    &&& forall|i: int| 0 <= i < sem.len() ==> (#[trigger] sem[i]).1.len() > 0
    &&& distinct_artifact_paths(sem)
    &&& forall|i: int, j: int| 0 <= i < j < sem.len() ==> #[trigger] sem[i].0 != #[trigger] sem[j].0
    &&& forall|i: int, j: int|
        0 <= i < sem.len() && 0 <= j < provided.len() ==> #[trigger] sem[i].0 != #[trigger] provided[j].0
    &&& forall|i: int, p: int|
        0 <= i < sem.len() && 0 <= p < sem[i].1.len() ==> a.outputs.contains(#[trigger] sem[i].1[p])
    &&& forall|i: int, j: int|
        0 <= i < j < a.outputs.len() ==> #[trigger] a.outputs[i] != #[trigger] a.outputs[j]
    &&& forall|i: int| 0 <= i < a.outputs.len() ==> !declared.contains_key(#[trigger] a.outputs[i])
}

/// Incrementally assembles an [`ExecutionPlan`] from lowered actions.
pub struct ExecutionPlanBuilder {
    pub actions: Vec<ExecutionAction>,
    pub outputs: Vec<DeclaredOutput>,
    /// The paths that realize each provided artifact.
    pub artifacts: Vec<(ArtifactKey, Vec<String>)>,
}

impl ExecutionPlanBuilder {
    /// The plan assembled so far, without requested artifacts.
    pub open spec fn plan_view(&self) -> ExecutionPlanView {
        ExecutionPlanView {
            actions: actions_view(self.actions@),
            outputs: outputs_map(self.outputs@),
            requested: Seq::empty(),
        }
    }

    /// Whether the builder's state is consistent.
    pub open spec fn wf(&self) -> bool {
        &&& unique_output_paths(self.outputs@)
        &&& plan_wf(self.plan_view())
        &&& forall|i: int, j: int|
            0 <= i < j < self.artifacts@.len() ==> #[trigger] self.artifacts@[i].0@
                != #[trigger] self.artifacts@[j].0@
    }

    /// An empty builder.
    pub fn new() -> (r: ExecutionPlanBuilder)
        ensures
            r.wf(),
            r.plan_view().actions.len() == 0,
            r.plan_view().outputs == Map::<PathKey, DeclaredOutputView>::empty(),
            r.artifacts@.len() == 0,
            r.actions@.len() == 0,
            r.outputs@.len() == 0,
    {
        let r = ExecutionPlanBuilder {
            actions: Vec::new(),
            outputs: Vec::new(),
            artifacts: Vec::new(),
        };
        assert(r.plan_view().actions =~= Seq::<ExecutionActionView>::empty());
        r
    }

    /// Adds an action whose outputs realize the artifacts `semantic_outputs`,
    /// and returns its id. Outputs that realize no artifact are declared
    /// without one.
    pub fn add_action(
        &mut self,
        action: ExecutionAction,
        semantic_outputs: Vec<(ArtifactKey, Vec<String>)>,
    ) -> (r: ActionId)
        requires
            old(self).wf(),
            can_add_action(
                old(self).plan_view().outputs,
                semantic_view(old(self).artifacts@),
                action@,
                semantic_view(semantic_outputs@),
            ),
        ensures
            final(self).wf(),
            r.0 == old(self).actions@.len(),
            final(self).plan_view().actions == old(self).plan_view().actions.push(action@),
            final(self).plan_view().outputs == old(self).plan_view().outputs.union_prefer_right(
                Map::new(
                    |k: PathKey| action@.outputs.contains(k),
                    |k: PathKey|
                        DeclaredOutputView {
                            producer: r,
                            path: k,
                            artifact: artifact_for_path(semantic_view(semantic_outputs@), k),
                        },
                ),
            ),
            semantic_view(final(self).artifacts@) == semantic_view(old(self).artifacts@)
                + semantic_view(semantic_outputs@),
    {
        let id = ActionId(self.actions.len());
        let ghost sem = semantic_view(semantic_outputs@);
        let ghost before = self.plan_view();
        let ghost ks = action@.outputs;
        let ghost newmap = Map::new(
            |k: PathKey| ks.contains(k),
            |k: PathKey|
                DeclaredOutputView { producer: id, path: k, artifact: artifact_for_path(sem, k) },
        );
        let mut j: usize = 0;
        while j < action.outputs.len()
            invariant
                j <= action.outputs.len(),
                ks == action@.outputs,
                sem == semantic_view(semantic_outputs@),
                can_add_action(before.outputs, semantic_view(old(self).artifacts@), action@, sem),
                id.0 == before.actions.len(),
                unique_output_paths(self.outputs@),
                self.actions == old(self).actions,
                self.artifacts == old(self).artifacts,
                outputs_map(self.outputs@) == before.outputs.union_prefer_right(
                    Map::new(
                        |k: PathKey| ks.take(j as int).contains(k),
                        |k: PathKey|
                            DeclaredOutputView {
                                producer: id,
                                path: k,
                                artifact: artifact_for_path(sem, k),
                            },
                    ),
                ),
            decreases action.outputs.len() - j,
        {
            let p = action.outputs[j].as_str();
            let ghost k = ks[j as int];
            proof {
                assert(k == path_key(p@));
            }
            let artifact = artifact_of_path(&semantic_outputs, p);
            let o = DeclaredOutput { producer: id, path: action.outputs[j].clone(), artifact };
            let ghost prev = outputs_map(self.outputs@);
            let found = find_output(&self.outputs, p);
            proof {
                if found is Some {
                    let t0 = ks.take(j as int);
                    let w = choose|w: int| 0 <= w < t0.len() && t0[w] == k;
                    assert(ks[w] == k);
                    assert(false);
                }
                lemma_outputs_map_push(self.outputs@, o);
            }
            self.outputs.push(o);
            proof {
                let t0 = ks.take(j as int);
                let t1 = ks.take(j + 1);
                assert(t1 =~= t0.push(k));
                assert forall|x: PathKey| #[trigger] t1.contains(x) <==> (t0.contains(x) || x == k) by {
                    if t1.contains(x) {
                        let w = choose|w: int| 0 <= w < t1.len() && t1[w] == x;
                        if w < t0.len() {
                            assert(t0[w] == x);
                        }
                    }
                    if t0.contains(x) {
                        let w = choose|w: int| 0 <= w < t0.len() && t0[w] == x;
                        assert(t1[w] == x);
                    }
                    if x == k {
                        assert(t1[j as int] == x);
                    }
                }
                assert(outputs_map(self.outputs@) =~= before.outputs.union_prefer_right(
                    Map::new(
                        |k: PathKey| t1.contains(k),
                        |k: PathKey|
                            DeclaredOutputView {
                                producer: id,
                                path: k,
                                artifact: artifact_for_path(sem, k),
                            },
                    ),
                ));
            }
            j = j + 1;
        }
        proof {
            assert(ks.take(ks.len() as int) =~= ks);
        }
        let ghost old_art = semantic_view(self.artifacts@);
        let mut semantic_outputs = semantic_outputs;
        self.artifacts.append(&mut semantic_outputs);
        proof {
            assert(semantic_view(self.artifacts@) =~= old_art + sem);
        }
        self.actions.push(action);
        proof {
            let after = self.plan_view();
            assert(after.actions =~= before.actions.push(action@));
            assert forall|k: PathKey| #[trigger] after.outputs.contains_key(k) implies after.outputs[k].producer.0
                < after.actions.len() && after.outputs[k].path == k by {
                if !ks.contains(k) {
                    assert(before.outputs.contains_key(k));
                }
            }
            assert forall|x: int, y: int|
                0 <= x < after.actions.len() && 0 <= y < after.actions[x].outputs.len() implies after.outputs.contains_key(
                #[trigger] after.actions[x].outputs[y],
            ) by {
                if x < before.actions.len() {
                    assert(after.actions[x] == before.actions[x]);
                    assert(before.outputs.contains_key(before.actions[x].outputs[y]));
                } else {
                    assert(ks.contains(ks[y]));
                }
            }
            let arts = semantic_view(self.artifacts@);
            assert forall|i: int, j: int| 0 <= i < j < self.artifacts@.len() implies #[trigger] self.artifacts@[i].0@
                != #[trigger] self.artifacts@[j].0@ by {
                assert(arts[i].0 == self.artifacts@[i].0@);
                assert(arts[j].0 == self.artifacts@[j].0@);
                let n0 = old_art.len();
                if j >= n0 && i < n0 {
                    assert(arts[j] == sem[j - n0]);
                    assert(arts[i] == old_art[i]);
                } else if i >= n0 {
                    assert(arts[j] == sem[j - n0]);
                    assert(arts[i] == sem[i - n0]);
                } else {
                    assert(old(self).artifacts@[i] == self.artifacts@[i]);
                    assert(old(self).artifacts@[j] == self.artifacts@[j]);
                }
            }
        }
        id
    }
}

/// The keys of `s` in order, each at its first occurrence only.
pub open spec fn first_occurrences(s: Seq<ArtifactKeyView>) -> Seq<ArtifactKeyView>
    decreases s.len(),
{
    if s.len() == 0 {
        Seq::empty()
    } else {
        let d = first_occurrences(s.drop_last());
        if d.contains(s.last()) {
            d
        } else {
            d.push(s.last())
        }
    }
}

/// Whether some entry of `arts` provides artifact `k`.
pub open spec fn provides(arts: Seq<(ArtifactKeyView, Seq<PathKey>)>, k: ArtifactKeyView) -> bool {
    exists|i: int| 0 <= i < arts.len() && #[trigger] arts[i].0 == k
}

/// The paths that realize artifact `k` among `arts`.
pub open spec fn provided_paths(arts: Seq<(ArtifactKeyView, Seq<PathKey>)>, k: ArtifactKeyView) -> Seq<
    PathKey,
> {
    arts[choose|i: int| 0 <= i < arts.len() && #[trigger] arts[i].0 == k].1
}

/// Each requested artifact, at its first request, with the paths that realize
/// it.
pub open spec fn requested_realizations(
    arts: Seq<(ArtifactKeyView, Seq<PathKey>)>,
    requested: Seq<ArtifactKeyView>,
) -> Seq<(ArtifactKeyView, Seq<PathKey>)> {
    first_occurrences(requested).map_values(|k: ArtifactKeyView| (k, provided_paths(arts, k)))
}

impl ExecutionPlanBuilder {
    /// The finished plan, which requests `requested_artifacts` (each once, in
    /// the order of its first request) together with the paths that realize
    /// them.
    pub fn finish(self, requested_artifacts: Vec<ArtifactKey>) -> (r: ExecutionPlan)
        requires
            self.wf(),
            forall|i: int|
                0 <= i < requested_artifacts@.len() ==> provides(
                    semantic_view(self.artifacts@),
                    #[trigger] requested_artifacts@[i]@,
                ),
        ensures
            r.wf(),
            r@.actions == self.plan_view().actions,
            r@.outputs == self.plan_view().outputs,
            r@.requested == requested_realizations(
                semantic_view(self.artifacts@),
                keys_view(requested_artifacts@),
            ),
    {
        let ghost arts = semantic_view(self.artifacts@);
        let ghost req = keys_view(requested_artifacts@);
        let mut requested: Vec<(ArtifactKey, Vec<String>)> = Vec::new();
        let mut i: usize = 0;
        while i < requested_artifacts.len()
            invariant
                i <= requested_artifacts.len(),
                self.wf(),
                arts == semantic_view(self.artifacts@),
                req == keys_view(requested_artifacts@),
                forall|q: int|
                    0 <= q < requested_artifacts@.len() ==> provides(
                        arts,
                        #[trigger] requested_artifacts@[q]@,
                    ),
                requested_view(requested@) == requested_realizations(arts, req.take(i as int)),
            decreases requested_artifacts.len() - i,
        {
            let key = &requested_artifacts[i];
            let ghost prev = requested_realizations(arts, req.take(i as int));
            let ghost d = first_occurrences(req.take(i as int));
            proof {
                assert(req.take(i + 1).drop_last() =~= req.take(i as int));
                assert(req.take(i + 1).last() == key@);
                assert(prev.len() == d.len());
            }
            let mut seen = false;
            let mut j: usize = 0;
            while j < requested.len()
                invariant
                    j <= requested.len(),
                    requested_view(requested@) == prev,
                    prev.len() == d.len(),
                    prev == d.map_values(|k: ArtifactKeyView| (k, provided_paths(arts, k))),
                    seen == (exists|q: int| 0 <= q < j && #[trigger] d[q] == key@),
                decreases requested.len() - j,
            {
                proof {
                    assert(prev[j as int].0 == d[j as int]);
                    assert(requested_view(requested@)[j as int].0 == requested@[j as int].0@);
                }
                if requested[j].0.same_as(key) {
                    seen = true;
                }
                j = j + 1;
            }
            proof {
                if d.contains(key@) {
                    let q = choose|q: int| 0 <= q < d.len() && d[q] == key@;
                    assert(seen);
                }
            }
            if !seen {
                let mut t: usize = 0;
                let mut found: Option<usize> = None;
                while t < self.artifacts.len()
                    invariant
                        t <= self.artifacts.len(),
                        arts == semantic_view(self.artifacts@),
                        match found {
                            Some(x) => x < self.artifacts@.len() && arts[x as int].0 == key@,
                            None => forall|w: int| 0 <= w < t ==> #[trigger] arts[w].0 != key@,
                        },
                    decreases self.artifacts.len() - t,
                {
                    if found.is_none() && self.artifacts[t].0.same_as(key) {
                        found = Some(t);
                    }
                    t = t + 1;
                }
                let x = match found {
                    Some(x) => x,
                    None => {
                        proof {
                            assert(provides(arts, requested_artifacts@[i as int]@));
                            let w = choose|w: int| 0 <= w < arts.len() && #[trigger] arts[w].0 == key@;
                            assert(arts[w].0 != key@);
                        }
                        0
                    },
                };
                proof {
                    let c = choose|c: int| 0 <= c < arts.len() && #[trigger] arts[c].0 == key@;
                    if c != x {
                        assert(arts[c].0 == self.artifacts@[c].0@);
                        assert(arts[x as int].0 == self.artifacts@[x as int].0@);
                        if c < x {
                            assert(self.artifacts@[c].0@ != self.artifacts@[x as int].0@);
                        } else {
                            assert(self.artifacts@[x as int].0@ != self.artifacts@[c].0@);
                        }
                    }
                    assert(provided_paths(arts, key@) == arts[x as int].1);
                }
                let entry = (key.duplicate(), copy_strings(&self.artifacts[x].1));
                let ghost before_push = requested@;
                requested.push(entry);
                proof {
                    assert(requested@ == before_push.push(entry));
                    assert(arts[x as int].1 == path_keys(self.artifacts@[x as int].1@));
                    assert(requested_view(requested@) =~= prev.push(
                        (key@, provided_paths(arts, key@)),
                    ));
                    assert(first_occurrences(req.take(i + 1)) == d.push(key@));
                    assert(d.push(key@).map_values(
                        |k: ArtifactKeyView| (k, provided_paths(arts, k)),
                    ) =~= prev.push((key@, provided_paths(arts, key@))));
                }
            }
            proof {
                let nxt = requested_realizations(arts, req.take(i + 1));
                if seen {
                    assert(d.contains(key@));
                    assert(requested_view(requested@) =~= nxt);
                } else {
                    assert(!d.contains(key@));
                    assert(requested_view(requested@) =~= nxt);
                }
            }
            i = i + 1;
        }
        proof {
            assert(req.take(requested_artifacts@.len() as int) =~= req);
        }
        let r = ExecutionPlan {
            actions: self.actions,
            outputs: self.outputs,
            requested_artifacts: requested,
        };
        r
    }
}

/// The artifact whose semantic paths include `p`, if any.
fn artifact_of_path(sem: &Vec<(ArtifactKey, Vec<String>)>, p: &str) -> (r: Option<ArtifactKey>)
    requires
        distinct_artifact_paths(semantic_view(sem@)),
    ensures
        opt_key_view(r) == artifact_for_path(semantic_view(sem@), path_key(p@)),
{
    let ghost sv = semantic_view(sem@);
    let ghost k = path_key(p@);
    let mut i: usize = 0;
    while i < sem.len()
        invariant
            i <= sem.len(),
            sv == semantic_view(sem@),
            k == path_key(p@),
            distinct_artifact_paths(sv),
            forall|q: int| 0 <= q < i ==> !(#[trigger] sv[q]).1.contains(k),
        decreases sem.len() - i,
    {
        let paths = &sem[i].1;
        let mut j: usize = 0;
        while j < paths.len()
            invariant
                j <= paths.len(),
                i < sem.len(),
                *paths == sem@[i as int].1,
                sv == semantic_view(sem@),
                k == path_key(p@),
                distinct_artifact_paths(sv),
                forall|q: int| 0 <= q < i ==> !(#[trigger] sv[q]).1.contains(k),
                forall|b: int| 0 <= b < j ==> sv[i as int].1[b] != k,
            decreases paths.len() - j,
        {
            if path_equal(paths[j].as_str(), p) {
                proof {
                    assert(sv[i as int].1[j as int] == k);
                    assert(sv[i as int].1.contains(k));
                    let c = choose|c: int| 0 <= c < sv.len() && #[trigger] sv[c].1.contains(k);
                    if c != i {
                        let w = choose|w: int| 0 <= w < sv[c].1.len() && sv[c].1[w] == k;
                        assert(sv[c].1[w] != sv[i as int].1[j as int]);
                        assert(false);
                    }
                }
                return Some(sem[i].0.duplicate());
            }
            j = j + 1;
        }
        proof {
            if sv[i as int].1.contains(k) {
                let w = choose|w: int| 0 <= w < sv[i as int].1.len() && sv[i as int].1[w] == k;
                assert(false);
            }
        }
        i = i + 1;
    }
    None
}

} // verus!
