//! The build edges that an execution plan hands to the n2 executor, and the
//! structured argv recorded for each generated output.

use vstd::prelude::*;

use super::plan::{ExecutionAction, ExecutionPlan};
use super::{copy_pairs, copy_strings, strings_view, ActionId, ExternalInput, LoweredCommand,
    LoweredCommandExecution, LoweredResponseFile};
use crate::assoc::{assoc_map, lemma_assoc_lookup, lemma_assoc_push, lemma_assoc_update, unique_keys};
use crate::build_plan::artifact::PathKey;
use crate::path::{path_equal, path_key};
use crate::path_set::{path_sort_stable, sort_paths_stable};

verus! {

/// One build edge as the executor registers it.
#[derive(Debug)]
pub struct N2Build {
    /// Input files, in path order.
    pub ins: Vec<String>,
    /// Output files, in the action's order.
    pub outs: Vec<String>,
    /// The command line that runs the edge.
    pub cmdline: String,
    /// The response file the command line refers to, if any.
    pub rspfile: Option<LoweredResponseFile>,
    pub cwd: Option<String>,
    pub env: Vec<(String, String)>,
    pub desc: String,
    /// The name reported as the edge's location.
    pub fileloc: String,
    pub can_dirty_on_output: bool,
}

/// The value of an [`N2Build`].
pub struct N2BuildView {
    pub ins: Seq<String>,
    pub outs: Seq<String>,
    pub cmdline: String,
    pub rspfile: Option<LoweredResponseFile>,
    pub cwd: Option<String>,
    pub env: Seq<(String, String)>,
    pub desc: String,
    pub fileloc: String,
    pub can_dirty_on_output: bool,
}

impl View for N2Build {
    type V = N2BuildView;

    open spec fn view(&self) -> N2BuildView {
        N2BuildView {
            ins: self.ins@,
            outs: self.outs@,
            cmdline: self.cmdline,
            rspfile: self.rspfile,
            cwd: self.cwd,
            env: self.env@,
            desc: self.desc,
            fileloc: self.fileloc,
            can_dirty_on_output: self.can_dirty_on_output,
        }
    }
}

/// The edge for a command with the given inputs and outputs: inputs sorted by
/// path (equal paths keep their order), the command line and response file
/// taken from the command's transport.
pub open spec fn build_edge(
    ins: Seq<String>,
    outs: Seq<String>,
    command: LoweredCommand,
    fileloc: String,
    description: String,
    can_dirty_on_output: bool,
) -> N2BuildView {
    N2BuildView {
        ins: path_sort_stable(ins),
        outs,
        cmdline: match command.execution {
            LoweredCommandExecution::Inline(c) => c,
            LoweredCommandExecution::ResponseFile { command, .. } => command,
        },
        rspfile: match command.execution {
            LoweredCommandExecution::Inline(_) => None,
            LoweredCommandExecution::ResponseFile { file, .. } => Some(file),
        },
        cwd: command.cwd,
        env: command.env@,
        desc: description,
        fileloc,
        can_dirty_on_output,
    }
}

/// The regular files among external inputs, in order; the standard-library
/// interface tree is not tracked as a file.
pub open spec fn external_file_paths(v: Seq<ExternalInput>) -> Seq<String>
    decreases v.len(),
{
    if v.len() == 0 {
        Seq::empty()
    } else {
        let r = external_file_paths(v.drop_last());
        match v.last() {
            ExternalInput::File(p) => r.push(p),
            ExternalInput::StandardLibraryInterfaces(_) => r,
        }
    }
}

/// The edge of one execution action: its realized inputs followed by its
/// external regular files.
pub open spec fn execution_edge(a: ExecutionAction) -> N2BuildView {
    build_edge(
        a.inputs@ + external_file_paths(a.external_inputs@),
        a.outputs@,
        a.command,
        a.fileloc,
        a.description,
        a.can_dirty_on_output,
    )
}

/// Builds the edge of a command.
pub fn build_edge_of(
    ins: Vec<String>,
    outs: Vec<String>,
    command: &LoweredCommand,
    fileloc: &String,
    description: &String,
    can_dirty_on_output: bool,
) -> (r: N2Build)
    ensures
        r@ == build_edge(ins@, outs@, *command, *fileloc, *description, can_dirty_on_output),
{
    let (cmdline, rspfile) = match &command.execution {
        LoweredCommandExecution::Inline(c) => (c.clone(), None),
        LoweredCommandExecution::ResponseFile { command, file } => (
            command.clone(),
            Some(LoweredResponseFile { path: file.path.clone(), content: file.content.clone() }),
        ),
    };
    let cwd = match &command.cwd {
        Some(c) => Some(c.clone()),
        None => None,
    };
    N2Build {
        ins: sort_paths_stable(ins),
        outs,
        cmdline,
        rspfile,
        cwd,
        env: copy_pairs(&command.env),
        desc: description.clone(),
        fileloc: fileloc.clone(),
        can_dirty_on_output,
    }
}

/// Appends the regular-file external inputs to `paths`.
fn push_external_files(paths: &mut Vec<String>, inputs: &Vec<ExternalInput>)
    ensures
        final(paths)@ == old(paths)@ + external_file_paths(inputs@),
{
    let mut i: usize = 0;
    while i < inputs.len()
        invariant
            i <= inputs.len(),
            paths@ == old(paths)@ + external_file_paths(inputs@.take(i as int)),
        decreases inputs.len() - i,
    {
        assert(inputs@.take(i + 1).drop_last() =~= inputs@.take(i as int));
        match &inputs[i] {
            ExternalInput::File(p) => {
                paths.push(p.clone());
            },
            ExternalInput::StandardLibraryInterfaces(_) => {},
        }
        proof {
            assert(paths@ =~= old(paths)@ + external_file_paths(inputs@.take(i + 1)));
        }
        i = i + 1;
    }
    assert(inputs@.take(inputs.len() as int) =~= inputs@);
}

/// The edge of one execution action.
pub fn execution_edge_of(action: &ExecutionAction) -> (r: N2Build)
    ensures
        r@ == execution_edge(*action),
{
    let mut ins = copy_strings(&action.inputs);
    push_external_files(&mut ins, &action.external_inputs);
    build_edge_of(
        ins,
        copy_strings(&action.outputs),
        &action.command,
        &action.fileloc,
        &action.description,
        action.can_dirty_on_output,
    )
}

/// Structured argv keyed by each generated output path; an output recorded
/// twice keeps the later argv.
#[derive(Debug)]
pub struct CommandArgMap {
    pub entries: Vec<(String, Vec<String>)>,
}

/// The identity of a recorded output path.
pub open spec fn arg_key() -> spec_fn(String) -> PathKey {
    |p: String| path_key(p@)
}

/// The characters of a recorded argv.
pub open spec fn arg_value() -> spec_fn(Vec<String>) -> Seq<Seq<char>> {
    |v: Vec<String>| strings_view(v@)
}

impl View for CommandArgMap {
    type V = Map<PathKey, Seq<Seq<char>>>;

    open spec fn view(&self) -> Map<PathKey, Seq<Seq<char>>> {
        assoc_map(self.entries@, arg_key(), arg_value())
    }
}

/// `m` after recording `args` for every path of `outs`.
pub open spec fn record_outputs(
    m: Map<PathKey, Seq<Seq<char>>>,
    outs: Seq<String>,
    args: Seq<Seq<char>>,
) -> Map<PathKey, Seq<Seq<char>>>
    decreases outs.len(),
{
    if outs.len() == 0 {
        m
    } else {
        record_outputs(m, outs.drop_last(), args).insert(path_key(outs.last()@), args)
    }
}

impl CommandArgMap {
    /// No path is recorded twice.
    pub open spec fn wf(&self) -> bool {
        unique_keys(self.entries@, arg_key())
    }

    /// An empty map.
    pub fn new() -> (r: CommandArgMap)
        ensures
            r.wf(),
            r@ == Map::<PathKey, Seq<Seq<char>>>::empty(),
    {
        CommandArgMap { entries: Vec::new() }
    }

    /// Records `args` for `path`, replacing what an equal path had.
    pub fn insert(&mut self, path: String, args: Vec<String>)
        requires
            old(self).wf(),
        ensures
            final(self).wf(),
            final(self)@ == old(self)@.insert(path_key(path@), strings_view(args@)),
    {
        let mut i: usize = 0;
        while i < self.entries.len()
            invariant
                i <= self.entries.len(),
                *self == *old(self),
                self.wf(),
                forall|j: int| 0 <= j < i ==> path_key(#[trigger] self.entries@[j].0@) != path_key(path@),
            decreases self.entries.len() - i,
        {
            if path_equal(self.entries[i].0.as_str(), path.as_str()) {
                let key = self.entries[i].0.clone();
                proof {
                    lemma_assoc_update(self.entries@, arg_key(), arg_value(), i as int, (key, args));
                }
                self.entries.set(i, (key, args));
                return;
            }
            i = i + 1;
        }
        proof {
            lemma_assoc_lookup(self.entries@, arg_key(), arg_value(), path_key(path@));
            lemma_assoc_push(self.entries@, arg_key(), arg_value(), (path, args));
        }
        self.entries.push((path, args));
    }

    /// The argv recorded for `path`.
    pub fn get(&self, path: &str) -> (r: Option<&Vec<String>>)
        requires
            self.wf(),
        ensures
            match r {
                Some(v) => self@.contains_key(path_key(path@)) && self@[path_key(path@)]
                    == strings_view(v@),
                None => !self@.contains_key(path_key(path@)),
            },
    {
        proof {
            lemma_assoc_lookup(self.entries@, arg_key(), arg_value(), path_key(path@));
        }
        let mut i: usize = 0;
        while i < self.entries.len()
            invariant
                i <= self.entries.len(),
                self.wf(),
                forall|j: int| 0 <= j < i ==> path_key(#[trigger] self.entries@[j].0@) != path_key(path@),
            decreases self.entries.len() - i,
        {
            if path_equal(self.entries[i].0.as_str(), path) {
                proof {
                    lemma_assoc_lookup(self.entries@, arg_key(), arg_value(), path_key(path@));
                }
                return Some(&self.entries[i].1);
            }
            i = i + 1;
        }
        None
    }

    /// Records `args` for every path of `outs`, in order.
    pub fn record(&mut self, outs: &Vec<String>, args: &Vec<String>)
        requires
            old(self).wf(),
        ensures
            final(self).wf(),
            final(self)@ == record_outputs(old(self)@, outs@, strings_view(args@)),
    {
        let mut i: usize = 0;
        while i < outs.len()
            invariant
                i <= outs.len(),
                self.wf(),
                self@ == record_outputs(old(self)@, outs@.take(i as int), strings_view(args@)),
            decreases outs.len() - i,
        {
            assert(outs@.take(i + 1).drop_last() =~= outs@.take(i as int));
            self.insert(outs[i].clone(), copy_strings(args));
            i = i + 1;
        }
        assert(outs@.take(outs.len() as int) =~= outs@);
    }
}

/// The argv map after adapting the actions `ids` of `actions` in order.
pub open spec fn execution_args(actions: Seq<ExecutionAction>, ids: Seq<ActionId>) -> Map<
    PathKey,
    Seq<Seq<char>>,
>
    decreases ids.len(),
{
    if ids.len() == 0 {
        Map::empty()
    } else {
        let a = actions[ids.last().0 as int];
        record_outputs(execution_args(actions, ids.drop_last()), a.outputs@, strings_view(a.command.args@))
    }
}

/// Adapts the actions `ids` of `plan`, in order, to executor edges, and
/// records the structured argv of every output.
pub fn to_n2_graph(plan: &ExecutionPlan, ids: &Vec<ActionId>) -> (r: (Vec<N2Build>, CommandArgMap))
    requires
        forall|i: int| 0 <= i < ids.len() ==> (#[trigger] ids@[i]).0 < plan.actions.len(),
    ensures
        r.0.len() == ids.len(),
        forall|i: int| 0 <= i < ids.len() ==> (#[trigger] r.0@[i])@ == execution_edge(plan.actions@[ids@[i].0 as int]),
        r.1.wf(),
        r.1@ == execution_args(plan.actions@, ids@),
{
    let mut builds: Vec<N2Build> = Vec::new();
    let mut args = CommandArgMap::new();
    let mut i: usize = 0;
    while i < ids.len()
        invariant
            i <= ids.len(),
            forall|j: int| 0 <= j < ids.len() ==> (#[trigger] ids@[j]).0 < plan.actions.len(),
            builds.len() == i,
            forall|j: int| 0 <= j < i ==> (#[trigger] builds@[j])@ == execution_edge(plan.actions@[ids@[j].0 as int]),
            args.wf(),
            args@ == execution_args(plan.actions@, ids@.take(i as int)),
        decreases ids.len() - i,
    {
        let action = &plan.actions[ids[i].0];
        assert(ids@.take(i + 1).drop_last() =~= ids@.take(i as int));
        args.record(&action.outputs, &action.command.args);
        builds.push(execution_edge_of(action));
        i = i + 1;
    }
    assert(ids@.take(ids.len() as int) =~= ids@);
    (builds, args)
}

/// The executor edges of selected actions, with the action each edge came
/// from: edge `i` was adapted from `actions[i]`.
#[derive(Debug)]
pub struct N2Projection {
    pub builds: Vec<N2Build>,
    pub command_args_by_output: CommandArgMap,
    pub actions: Vec<ActionId>,
}

impl N2Projection {
    /// The action that edge `build` was adapted from.
    pub fn action_for_build(&self, build: usize) -> (r: Option<ActionId>)
        ensures
            r == (if build < self.actions.len() {
                Some(self.actions@[build as int])
            } else {
                None
            }),
    {
        if build < self.actions.len() {
            Some(self.actions[build])
        } else {
            None
        }
    }

    /// The edges and the argv map.
    pub fn into_parts(self) -> (r: (Vec<N2Build>, CommandArgMap))
        ensures
            r.0 == self.builds,
            r.1 == self.command_args_by_output,
    {
        (self.builds, self.command_args_by_output)
    }
}

impl ExecutionPlan {
    /// Adapts the actions `ids`, in order, keeping which action each edge
    /// came from.
    pub fn adapt_to_n2(&self, ids: &Vec<ActionId>) -> (r: N2Projection)
        requires
            forall|i: int| 0 <= i < ids.len() ==> (#[trigger] ids@[i]).0 < self.actions.len(),
        ensures
            r.actions@ == ids@,
            r.builds.len() == ids.len(),
            forall|i: int| 0 <= i < ids.len() ==> (#[trigger] r.builds@[i])@ == execution_edge(self.actions@[ids@[i].0 as int]),
            r.command_args_by_output.wf(),
            r.command_args_by_output@ == execution_args(self.actions@, ids@),
    {
        let (builds, command_args_by_output) = to_n2_graph(self, ids);
        let mut actions: Vec<ActionId> = Vec::new();
        let mut i: usize = 0;
        while i < ids.len()
            invariant
                i <= ids.len(),
                actions@ == ids@.take(i as int),
            decreases ids.len() - i,
        {
            actions.push(ids[i]);
            assert(ids@.take(i + 1) =~= ids@.take(i as int).push(ids@[i as int]));
            i = i + 1;
        }
        assert(ids@.take(ids.len() as int) =~= ids@);
        N2Projection { builds, command_args_by_output, actions }
    }

    /// Adapts the actions `ids`, in order, to edges and the argv map.
    pub fn to_n2_graph(&self, ids: &Vec<ActionId>) -> (r: (Vec<N2Build>, CommandArgMap))
        requires
            forall|i: int| 0 <= i < ids.len() ==> (#[trigger] ids@[i]).0 < self.actions.len(),
        ensures
            r.0.len() == ids.len(),
            forall|i: int| 0 <= i < ids.len() ==> (#[trigger] r.0@[i])@ == execution_edge(self.actions@[ids@[i].0 as int]),
            r.1.wf(),
            r.1@ == execution_args(self.actions@, ids@),
    {
        self.adapt_to_n2(ids).into_parts()
    }

    /// Adapts every action of the plan, in order.
    pub fn all_to_n2_graph(&self) -> (r: (Vec<N2Build>, CommandArgMap))
        ensures
            r.0.len() == self.actions.len(),
            forall|i: int| 0 <= i < self.actions.len() ==> (#[trigger] r.0@[i])@ == execution_edge(self.actions@[i]),
            r.1.wf(),
            r.1@ == execution_args(self.actions@, Seq::new(self.actions.len() as nat, |i: int| ActionId(i as usize))),
    {
        let mut ids: Vec<ActionId> = Vec::new();
        let mut i: usize = 0;
        while i < self.actions.len()
            invariant
                i <= self.actions.len(),
                ids@ == Seq::new(i as nat, |j: int| ActionId(j as usize)),
            decreases self.actions.len() - i,
        {
            ids.push(ActionId(i));
            assert(ids@ =~= Seq::new((i + 1) as nat, |j: int| ActionId(j as usize)));
            i = i + 1;
        }
        self.to_n2_graph(&ids)
    }
}

} // verus!
