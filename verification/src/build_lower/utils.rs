//! Which toolchain programs a structured command observes.

use vstd::prelude::*;

use crate::path::{
    component_count, contains_path, is_absolute, path_components, path_equal, path_is_absolute,
    path_key,
};
use crate::path_set::{add_kept, kept_set, kept_set_of_prefix, lemma_kept_skip};

verus! {

/// Whether a tool path can be tracked as a file: it is absolute or has more
/// than one component. Bare program names are resolved through `PATH` and
/// cannot be tracked.
pub open spec fn trackable(s: Seq<char>) -> bool {
    is_absolute(s) || path_components(s).len() > 1
}

/// Whether `s` names one of the MoonBit toolchain programs `tools`, and can be
/// tracked.
pub open spec fn tracked_tool(s: Seq<char>, tools: Seq<String>) -> bool {
    contains_path(tools, s) && trackable(s)
}

/// The tool programs that a structured command observes: the toolchain
/// programs `tools` that can be tracked.
pub open spec fn tool_keep(tools: Seq<String>) -> spec_fn(Seq<char>) -> bool {
    |s: Seq<char>| tracked_tool(s, tools)
}

/// The tool inputs derived from the candidate programs `cands`: the set of
/// tracked tools among them, in path order, each represented by its first
/// occurrence.
pub open spec fn is_tool_input_set(r: Seq<String>, cands: Seq<String>, tools: Seq<String>) -> bool {
    kept_set(r, cands, tool_keep(tools))
}

/// Whether `p` is one of the toolchain programs `tools` (by path equality).
fn is_moon_tool(p: &str, tools: &Vec<String>) -> (r: bool)
    ensures
        r == contains_path(tools@, p@),
{
    let mut i: usize = 0;
    while i < tools.len()
        invariant
            i <= tools.len(),
            forall|j: int| 0 <= j < i ==> path_key(#[trigger] tools@[j]@) != path_key(p@),
        decreases tools.len() - i,
    {
        if path_equal(tools[i].as_str(), p) {
            return true;
        }
        i = i + 1;
    }
    false
}

/// Adds candidate `cands[i]`, a toolchain program, to the sorted set
/// `inputs` when it can be tracked. An explicit override may still be a bare
/// name, which cannot be tracked as a file.
fn insert_trackable_tool_input(
    inputs: &mut Vec<String>,
    cands: &Vec<String>,
    i: usize,
    moon_tools: &Vec<String>,
)
    requires
        i < cands.len(),
        contains_path(moon_tools@, cands@[i as int]@),
        kept_set_of_prefix(old(inputs)@, cands@, tool_keep(moon_tools@), i as int),
    ensures
        kept_set_of_prefix(final(inputs)@, cands@, tool_keep(moon_tools@), i + 1),
{
    let path = cands[i].as_str();
    if path_is_absolute(path) || component_count(path) > 1 {
        add_kept(inputs, cands, i, Ghost(tool_keep(moon_tools@)));
    } else {
        proof {
            lemma_kept_skip(inputs@, cands@, tool_keep(moon_tools@), i as int);
        }
    }
}

/// The trackable MoonBit toolchain programs named by a structured command:
/// the arguments that are toolchain programs, in path order, without repeats.
///
/// `moon_tools` are the installed toolchain programs (`moonc`, `moonrun`, ...).
pub fn command_tool_inputs(args: &Vec<String>, moon_tools: &Vec<String>) -> (r: Vec<String>)
    ensures
        is_tool_input_set(r@, args@, moon_tools@),
{
    let none: Vec<String> = Vec::new();
    let r = command_tool_inputs_with_extra(args, &none, moon_tools);
    assert(args@ + none@ =~= args@);
    r
}

/// Like [`command_tool_inputs`], also counting the programs `extra_tools` that
/// a wrapper command runs.
pub fn command_tool_inputs_with_extra(
    args: &Vec<String>,
    extra_tools: &Vec<String>,
    moon_tools: &Vec<String>,
) -> (r: Vec<String>)
    ensures
        is_tool_input_set(r@, args@ + extra_tools@, moon_tools@),
{
    let mut cands: Vec<String> = Vec::new();
    let mut i: usize = 0;
    while i < args.len()
        invariant
            i <= args.len(),
            cands@ == args@.take(i as int),
        decreases args.len() - i,
    {
        cands.push(args[i].clone());
        assert(args@.take(i + 1) =~= args@.take(i as int).push(args@[i as int]));
        i = i + 1;
    }
    let mut i: usize = 0;
    while i < extra_tools.len()
        invariant
            i <= extra_tools.len(),
            args.len() <= cands.len(),
            cands@ == args@ + extra_tools@.take(i as int),
        decreases extra_tools.len() - i,
    {
        cands.push(extra_tools[i].clone());
        assert(extra_tools@.take(i + 1) =~= extra_tools@.take(i as int).push(extra_tools@[i as int]));
        i = i + 1;
    }
    assert(args@.take(args.len() as int) =~= args@);
    assert(extra_tools@.take(extra_tools.len() as int) =~= extra_tools@);
    let mut inputs: Vec<String> = Vec::new();
    let mut i: usize = 0;
    while i < cands.len()
        invariant
            i <= cands.len(),
            cands@ == args@ + extra_tools@,
            kept_set_of_prefix(inputs@, cands@, tool_keep(moon_tools@), i as int),
        decreases cands.len() - i,
    {
        if is_moon_tool(cands[i].as_str(), moon_tools) {
            insert_trackable_tool_input(&mut inputs, &cands, i, moon_tools);
        } else {
            proof {
                lemma_kept_skip(inputs@, cands@, tool_keep(moon_tools@), i as int);
            }
        }
        i = i + 1;
    }
    inputs
}

} // verus!
