//! Command data produced by action-specific lowering, before execution
//! metadata and declared outputs are attached.

use vstd::prelude::*;

use crate::execution_plan::{ExternalInput, LoweredCommand};
use crate::path::{contains_path, path_equal, path_key};
use crate::path_set::{add_kept, kept_set, kept_set_of_prefix, lemma_kept_skip, sort_dedup_paths, sorted_dedup};

verus! {

/// Keeps the paths other than `p`.
pub open spec fn other_than(p: Seq<char>) -> spec_fn(Seq<char>) -> bool {
    |s: Seq<char>| path_key(s) != path_key(p)
}

/// `r` is the input set of a command with arguments `args` and extra inputs
/// `extra`, sorted by path and without repeats.
///
/// The executable (`args[0]`) is observed as an input, unless another input
/// source (`provided`) already declares it, in which case it is dropped from
/// the extra inputs too.
pub open spec fn lowered_input_paths(
    r: Seq<String>,
    extra: Seq<String>,
    args: Seq<String>,
    provided: bool,
) -> bool {
    if args.len() == 0 {
        sorted_dedup(r, extra)
    } else if provided {
        kept_set(r, extra, other_than(args[0]@))
    } else {
        sorted_dedup(r, extra.push(args[0]))
    }
}

/// Whether `paths` holds a path equal to `p`.
pub fn has_path(paths: &Vec<String>, p: &str) -> (r: bool)
    ensures
        r == contains_path(paths@, p@),
{
    let mut i: usize = 0;
    while i < paths.len()
        invariant
            i <= paths.len(),
            forall|j: int| 0 <= j < i ==> path_key(#[trigger] paths@[j]@) != path_key(p@),
        decreases paths.len() - i,
    {
        if path_equal(paths[i].as_str(), p) {
            return true;
        }
        i = i + 1;
    }
    false
}

/// The input set of a command with arguments `args` and extra inputs
/// `extra`; `provided` tells whether another input source declares the
/// executable.
pub(crate) fn lowered_input_set(extra: Vec<String>, args: &Vec<String>, provided: bool) -> (r: Vec<
    String,
>)
    ensures
        lowered_input_paths(r@, extra@, args@, provided),
{
    if args.len() == 0 {
        return sort_dedup_paths(&extra);
    }
    let exe = args[0].as_str();
    if provided {
        let ghost keep = other_than(exe@);
        let mut r: Vec<String> = Vec::new();
        let mut i: usize = 0;
        while i < extra.len()
            invariant
                i <= extra.len(),
                keep == other_than(args@[0]@),
                exe@ == args@[0]@,
                kept_set_of_prefix(r@, extra@, keep, i as int),
            decreases extra.len() - i,
        {
            if path_equal(extra[i].as_str(), exe) {
                proof {
                    lemma_kept_skip(r@, extra@, keep, i as int);
                }
            } else {
                add_kept(&mut r, &extra, i, Ghost(keep));
            }
            i = i + 1;
        }
        r
    } else {
        let mut cands = extra;
        cands.push(args[0].clone());
        sort_dedup_paths(&cands)
    }
}

/// The extra inputs `extra` have no two equal paths, but for copies of the
/// executable that another input source declares (and which are dropped).
pub open spec fn inputs_declared_once(extra: Seq<String>, args: Seq<String>, provided: bool) -> bool {
    forall|i: int, j: int|
        0 <= i < j < extra.len() && path_key(#[trigger] extra[i]@) == path_key(#[trigger] extra[j]@)
            ==> args.len() > 0 && provided && path_key(extra[i]@) == path_key(args[0]@)
}

/// The paths of a list of input observations.
pub open spec fn observation_paths(v: Seq<ExternalInput>) -> Seq<String> {
    Seq::new(
        v.len(),
        |i: int|
            match v[i] {
                ExternalInput::File(p) => p,
                ExternalInput::StandardLibraryInterfaces(p) => p,
            },
    )
}

/// Command data produced by action-specific lowering before common execution
/// metadata and declared outputs are attached.
pub struct BuildCommand {
    /// Input files in addition to artifacts produced by dependency actions.
    pub extra_inputs: Vec<String>,
    pub commandline: LoweredCommand,
}

impl BuildCommand {
    /// Finishes the common action-lowering boundary.
    ///
    /// A structured command carries its executable as `argv[0]`; that tool
    /// file is observed alongside the other inputs, so that execution adapters
    /// invalidate the action when the executable changes in place. When one of
    /// `dependency_paths` already provides it, it is not declared a second
    /// time. The inputs come out as files, sorted by path.
    pub fn into_lowered_parts(self, dependency_paths: &Vec<String>) -> (r: (
        LoweredCommand,
        Vec<ExternalInput>,
    ))
        requires
            inputs_declared_once(
                self.extra_inputs@,
                self.commandline.args@,
                self.commandline.args@.len() > 0 && contains_path(
                    dependency_paths@,
                    self.commandline.args@[0]@,
                ),
            ),
        ensures
            r.0 == self.commandline,
            forall|i: int| 0 <= i < r.1@.len() ==> (#[trigger] r.1@[i]) is File,
            lowered_input_paths(
                observation_paths(r.1@),
                self.extra_inputs@,
                self.commandline.args@,
                self.commandline.args@.len() > 0 && contains_path(
                    dependency_paths@,
                    self.commandline.args@[0]@,
                ),
            ),
    {
        let BuildCommand { extra_inputs, commandline } = self;
        let provided = commandline.args.len() > 0 && has_path(
            dependency_paths,
            commandline.args[0].as_str(),
        );
        let paths = lowered_input_set(extra_inputs, &commandline.args, provided);
        let mut inputs: Vec<ExternalInput> = Vec::new();
        let mut i: usize = 0;
        while i < paths.len()
            invariant
                i <= paths.len(),
                inputs@.len() == i,
                forall|j: int| 0 <= j < i ==> (#[trigger] inputs@[j]) == ExternalInput::File(paths@[j]),
            decreases paths.len() - i,
        {
            inputs.push(ExternalInput::File(paths[i].clone()));
            i = i + 1;
        }
        proof {
            assert(observation_paths(inputs@) =~= paths@);
        }
        (commandline, inputs)
    }

    /// This command, run in `cwd`.
    pub fn with_cwd(self, cwd: String) -> (r: BuildCommand)
        ensures
            r.extra_inputs == self.extra_inputs,
            r.commandline == (LoweredCommand { cwd: Some(cwd), ..self.commandline }),
    {
        BuildCommand { extra_inputs: self.extra_inputs, commandline: self.commandline.with_cwd(cwd) }
    }

    /// This command with `env` added to its environment.
    pub fn with_env(self, env: Vec<(String, String)>) -> (r: BuildCommand)
        ensures
            r.extra_inputs == self.extra_inputs,
            r.commandline.args == self.commandline.args,
            r.commandline.execution == self.commandline.execution,
            r.commandline.cwd == self.commandline.cwd,
            r.commandline.env@ == self.commandline.env@ + env@,
    {
        BuildCommand { extra_inputs: self.extra_inputs, commandline: self.commandline.with_env(env) }
    }
}

} // verus!
