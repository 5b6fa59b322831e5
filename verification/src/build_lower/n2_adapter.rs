//! The executor edges of lowered actions.

use vstd::prelude::*;

use super::lowered_action::{LoweredAction, LoweredArtifact, LoweredExternalInput};
use crate::build_plan::artifact::PathKey;
use crate::execution_plan::n2_adapter::{
    build_edge, build_edge_of, record_outputs, CommandArgMap, N2Build, N2BuildView,
};
use crate::execution_plan::strings_view;

verus! {

/// The paths of a list of artifacts, artifact after artifact.
pub open spec fn artifact_paths(v: Seq<LoweredArtifact>) -> Seq<String>
    decreases v.len(),
{
    if v.len() == 0 {
        Seq::empty()
    } else {
        artifact_paths(v.drop_last()) + v.last().paths@
    }
}

/// The regular files among lowered external inputs, in order.
pub open spec fn lowered_file_paths(v: Seq<LoweredExternalInput>) -> Seq<String>
    decreases v.len(),
{
    if v.len() == 0 {
        Seq::empty()
    } else {
        let r = lowered_file_paths(v.drop_last());
        match v.last() {
            LoweredExternalInput::File(p) => r.push(p),
            LoweredExternalInput::StandardLibraryInterfaces(_) => r,
        }
    }
}

/// The edge of a lowered action: the paths of its dependencies followed by
/// its external regular files as inputs, the paths of its outputs as outputs.
pub open spec fn lowered_edge(a: LoweredAction) -> N2BuildView {
    build_edge(
        artifact_paths(a.dependencies@) + lowered_file_paths(a.external_inputs@),
        artifact_paths(a.outputs@),
        a.command,
        a.fileloc,
        a.description,
        a.can_dirty_on_output,
    )
}

/// Appends the paths of every artifact of `v` to `paths`.
fn push_artifact_paths(paths: &mut Vec<String>, v: &Vec<LoweredArtifact>)
    ensures
        final(paths)@ == old(paths)@ + artifact_paths(v@),
{
    let mut i: usize = 0;
    while i < v.len()
        invariant
            i <= v.len(),
            paths@ == old(paths)@ + artifact_paths(v@.take(i as int)),
        decreases v.len() - i,
    {
        assert(v@.take(i + 1).drop_last() =~= v@.take(i as int));
        let ps = &v[i].paths;
        let mut j: usize = 0;
        while j < ps.len()
            invariant
                j <= ps.len(),
                paths@ == old(paths)@ + artifact_paths(v@.take(i as int)) + ps@.take(j as int),
            decreases ps.len() - j,
        {
            paths.push(ps[j].clone());
            assert(ps@.take(j + 1) =~= ps@.take(j as int).push(ps@[j as int]));
            j = j + 1;
        }
        assert(ps@.take(ps.len() as int) =~= ps@);
        assert(paths@ =~= old(paths)@ + artifact_paths(v@.take(i + 1)));
        i = i + 1;
    }
    assert(v@.take(v.len() as int) =~= v@);
}

/// Appends the regular-file external inputs to `paths`.
fn push_lowered_files(paths: &mut Vec<String>, inputs: &Vec<LoweredExternalInput>)
    ensures
        final(paths)@ == old(paths)@ + lowered_file_paths(inputs@),
{
    let mut i: usize = 0;
    while i < inputs.len()
        invariant
            i <= inputs.len(),
            paths@ == old(paths)@ + lowered_file_paths(inputs@.take(i as int)),
        decreases inputs.len() - i,
    {
        assert(inputs@.take(i + 1).drop_last() =~= inputs@.take(i as int));
        match &inputs[i] {
            LoweredExternalInput::File(p) => {
                paths.push(p.clone());
            },
            LoweredExternalInput::StandardLibraryInterfaces(_) => {},
        }
        proof {
            assert(paths@ =~= old(paths)@ + lowered_file_paths(inputs@.take(i + 1)));
        }
        i = i + 1;
    }
    assert(inputs@.take(inputs.len() as int) =~= inputs@);
}

/// The edge of one lowered action.
pub fn lowered_edge_of(action: &LoweredAction) -> (r: N2Build)
    ensures
        r@ == lowered_edge(*action),
{
    let mut ins: Vec<String> = Vec::new();
    push_artifact_paths(&mut ins, &action.dependencies);
    push_lowered_files(&mut ins, &action.external_inputs);
    let mut outs: Vec<String> = Vec::new();
    push_artifact_paths(&mut outs, &action.outputs);
    assert(ins@ =~= artifact_paths(action.dependencies@) + lowered_file_paths(action.external_inputs@));
    assert(outs@ =~= artifact_paths(action.outputs@));
    build_edge_of(
        ins,
        outs,
        &action.command,
        &action.fileloc,
        &action.description,
        action.can_dirty_on_output,
    )
}

/// The argv map after adapting `actions` in order: each output path records
/// the argv of the last action that produced it.
pub open spec fn lowered_args(actions: Seq<LoweredAction>) -> Map<PathKey, Seq<Seq<char>>>
    decreases actions.len(),
{
    if actions.len() == 0 {
        Map::empty()
    } else {
        let a = actions.last();
        record_outputs(
            lowered_args(actions.drop_last()),
            artifact_paths(a.outputs@),
            strings_view(a.command.args@),
        )
    }
}

/// Accumulates the executor edges of lowered actions and the structured argv
/// of their outputs.
#[derive(Debug)]
pub struct N2GraphBuilder {
    pub graph: Vec<N2Build>,
    pub command_args_by_output: CommandArgMap,
}

impl N2GraphBuilder {
    /// A builder with no edges.
    pub fn new() -> (r: N2GraphBuilder)
        ensures
            r.graph@.len() == 0,
            r.command_args_by_output.wf(),
            r.command_args_by_output@ == Map::<PathKey, Seq<Seq<char>>>::empty(),
    {
        N2GraphBuilder { graph: Vec::new(), command_args_by_output: CommandArgMap::new() }
    }

    /// Adds the edge of `action` and records its argv for each of its
    /// outputs.
    pub fn add_action(&mut self, action: &LoweredAction)
        requires
            old(self).command_args_by_output.wf(),
        ensures
            final(self).command_args_by_output.wf(),
            final(self).graph@.len() == old(self).graph@.len() + 1,
            forall|i: int| 0 <= i < old(self).graph@.len() ==> final(self).graph@[i] == old(self).graph@[i],
            final(self).graph@.last()@ == lowered_edge(*action),
            final(self).command_args_by_output@ == record_outputs(
                old(self).command_args_by_output@,
                artifact_paths(action.outputs@),
                strings_view(action.command.args@),
            ),
    {
        let mut outs: Vec<String> = Vec::new();
        push_artifact_paths(&mut outs, &action.outputs);
        assert(outs@ =~= artifact_paths(action.outputs@));
        self.command_args_by_output.record(&outs, &action.command.args);
        self.graph.push(lowered_edge_of(action));
    }
}

/// Adapts lowered actions, in order, to executor edges, and records the
/// structured argv of every output.
pub fn lowered_actions_to_n2_graph(actions: &Vec<LoweredAction>) -> (r: (Vec<N2Build>, CommandArgMap))
    ensures
        r.0.len() == actions.len(),
        forall|i: int| 0 <= i < actions.len() ==> (#[trigger] r.0@[i])@ == lowered_edge(actions@[i]),
        r.1.wf(),
        r.1@ == lowered_args(actions@),
{
    let mut n2 = N2GraphBuilder::new();
    let mut i: usize = 0;
    while i < actions.len()
        invariant
            i <= actions.len(),
            n2.graph.len() == i,
            forall|j: int| 0 <= j < i ==> (#[trigger] n2.graph@[j])@ == lowered_edge(actions@[j]),
            n2.command_args_by_output.wf(),
            n2.command_args_by_output@ == lowered_args(actions@.take(i as int)),
        decreases actions.len() - i,
    {
        assert(actions@.take(i + 1).drop_last() =~= actions@.take(i as int));
        n2.add_action(&actions[i]);
        i = i + 1;
    }
    assert(actions@.take(actions.len() as int) =~= actions@);
    (n2.graph, n2.command_args_by_output)
}

} // verus!
