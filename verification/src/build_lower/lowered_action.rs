//! Concrete action data produced before the executor registers its files.

use vstd::prelude::*;

use super::command::{has_path, lowered_input_paths, lowered_input_set};
use crate::build_action_plan::BuildActionId;
use crate::build_plan::artifact::ArtifactKey;
use crate::execution_plan::LoweredCommand;
use crate::path::path_key;

verus! {

/// A concrete file observation attached outside the logical artifact set.
///
/// A path may also occur in a dependency artifact; the artifact dependency
/// remains the authoritative producer edge.
#[derive(Debug, Clone, PartialEq, Eq, Hash, PartialOrd, Ord)]
pub enum LoweredExternalInput {
    /// One regular file observed by the action.
    File(String),
    /// The recursive `.mi` tree observed through `moonc -std-path`.
    StandardLibraryInterfaces(String),
}

/// The path observed by `e`.
pub open spec fn lowered_input_path(e: LoweredExternalInput) -> String {
    match e {
        LoweredExternalInput::File(p) => p,
        LoweredExternalInput::StandardLibraryInterfaces(p) => p,
    }
}

impl LoweredExternalInput {
    /// The observed path.
    pub fn path(&self) -> (r: &str)
        ensures
            r@ == lowered_input_path(*self)@,
    {
        match self {
            LoweredExternalInput::File(p) => p.as_str(),
            LoweredExternalInput::StandardLibraryInterfaces(p) => p.as_str(),
        }
    }

    /// The path the executor tracks as a file: regular files only.
    pub fn n2_path(&self) -> (r: Option<&str>)
        ensures
            match self {
                LoweredExternalInput::File(p) => r matches Some(s) && s@ == p@,
                LoweredExternalInput::StandardLibraryInterfaces(_) => r is None,
            },
    {
        match self {
            LoweredExternalInput::File(p) => Some(p.as_str()),
            LoweredExternalInput::StandardLibraryInterfaces(_) => None,
        }
    }
}

/// One logical artifact after its concrete paths have been selected.
#[derive(Debug)]
pub struct LoweredArtifact {
    pub producer: BuildActionId,
    pub artifact: ArtifactKey,
    pub paths: Vec<String>,
}

impl LoweredArtifact {
    pub fn producer(&self) -> (r: BuildActionId)
        ensures
            r == self.producer,
    {
        self.producer
    }

    pub fn artifact(&self) -> (r: &ArtifactKey)
        ensures
            r == &self.artifact,
    {
        &self.artifact
    }

    pub fn paths(&self) -> (r: &Vec<String>)
        ensures
            r == &self.paths,
    {
        &self.paths
    }
}

/// One concrete action after artifact paths and command construction have been
/// resolved, before its paths are registered with the executor.
///
/// Dependency artifacts keep their producer action and logical identity, so a
/// preparation policy can identify a dependency without reconstructing it from
/// file edges.
#[derive(Debug)]
pub struct LoweredAction {
    pub id: BuildActionId,
    pub dependencies: Vec<LoweredArtifact>,
    pub external_inputs: Vec<LoweredExternalInput>,
    pub outputs: Vec<LoweredArtifact>,
    pub command: LoweredCommand,
    pub cache_eligible: bool,
    pub fileloc: String,
    pub description: String,
    pub can_dirty_on_output: bool,
    /// The package reported when the action fails, if any.
    pub error_package: Option<String>,
}

impl LoweredAction {
    pub fn id(&self) -> (r: BuildActionId)
        ensures
            r == self.id,
    {
        self.id
    }

    pub fn dependencies(&self) -> (r: &Vec<LoweredArtifact>)
        ensures
            r == &self.dependencies,
    {
        &self.dependencies
    }

    pub fn external_inputs(&self) -> (r: &Vec<LoweredExternalInput>)
        ensures
            r == &self.external_inputs,
    {
        &self.external_inputs
    }

    pub fn outputs(&self) -> (r: &Vec<LoweredArtifact>)
        ensures
            r == &self.outputs,
    {
        &self.outputs
    }

    pub fn command(&self) -> (r: &LoweredCommand)
        ensures
            r == &self.command,
    {
        &self.command
    }

    /// Whether lowering has a complete enough execution model to permit reuse.
    ///
    /// This excludes arbitrary shell payloads whose observed inputs cannot be
    /// represented by the lowered action.
    pub fn is_cache_eligible(&self) -> (r: bool)
        ensures
            r == self.cache_eligible,
    {
        self.cache_eligible
    }

    pub fn can_dirty_on_output(&self) -> (r: bool)
        ensures
            r == self.can_dirty_on_output,
    {
        self.can_dirty_on_output
    }
}

/// Whether some artifact of `deps` has a path equal to `p`.
pub open spec fn artifacts_provide(deps: Seq<LoweredArtifact>, p: Seq<char>) -> bool {
    exists|i: int, j: int|
        0 <= i < deps.len() && 0 <= j < deps[i].paths@.len() && path_key(
            #[trigger] deps[i].paths@[j]@,
        ) == path_key(p)
}

fn artifacts_have_path(deps: &Vec<LoweredArtifact>, p: &str) -> (r: bool)
    ensures
        r == artifacts_provide(deps@, p@),
{
    let mut i: usize = 0;
    while i < deps.len()
        invariant
            i <= deps.len(),
            forall|a: int, j: int|
                0 <= a < i && 0 <= j < deps@[a].paths@.len() ==> path_key(
                    #[trigger] deps@[a].paths@[j]@,
                ) != path_key(p@),
        decreases deps.len() - i,
    {
        if has_path(&deps[i].paths, p) {
            return true;
        }
        i = i + 1;
    }
    false
}

/// The paths of a list of lowered inputs.
pub open spec fn lowered_input_paths_of(v: Seq<LoweredExternalInput>) -> Seq<String> {
    Seq::new(v.len(), |i: int| lowered_input_path(v[i]))
}

/// Command data produced by action-specific lowering before the common action
/// metadata and artifacts are attached.
pub struct BuildCommand {
    /// Input files in addition to artifacts produced by dependency actions.
    pub extra_inputs: Vec<String>,
    pub commandline: LoweredCommand,
}

impl BuildCommand {
    /// Finishes the common action-lowering boundary.
    ///
    /// A structured command carries its executable as `argv[0]`; that tool
    /// file is kept with the other external inputs, so that the action is
    /// invalidated when the executable changes in place. When a dependency
    /// artifact already provides that path, the external copy is dropped. The
    /// inputs come out as files, sorted by path and without repeats.
    pub fn into_lowered_parts(self, dependencies: &Vec<LoweredArtifact>) -> (r: (
        LoweredCommand,
        Vec<LoweredExternalInput>,
    ))
        ensures
            r.0 == self.commandline,
            forall|i: int| 0 <= i < r.1@.len() ==> (#[trigger] r.1@[i]) is File,
            lowered_input_paths(
                lowered_input_paths_of(r.1@),
                self.extra_inputs@,
                self.commandline.args@,
                self.commandline.args@.len() > 0 && artifacts_provide(
                    dependencies@,
                    self.commandline.args@[0]@,
                ),
            ),
    {
        let BuildCommand { extra_inputs, commandline } = self;
        let provided = commandline.args.len() > 0 && artifacts_have_path(
            dependencies,
            commandline.args[0].as_str(),
        );
        let paths = lowered_input_set(extra_inputs, &commandline.args, provided);
        let mut inputs: Vec<LoweredExternalInput> = Vec::new();
        let mut i: usize = 0;
        while i < paths.len()
            invariant
                i <= paths.len(),
                inputs@.len() == i,
                forall|j: int|
                    0 <= j < i ==> (#[trigger] inputs@[j]) == LoweredExternalInput::File(paths@[j]),
            decreases paths.len() - i,
        {
            inputs.push(LoweredExternalInput::File(paths[i].clone()));
            i = i + 1;
        }
        proof {
            assert(lowered_input_paths_of(inputs@) =~= paths@);
        }
        (commandline, inputs)
    }

    /// This command, run in `cwd`.
    pub fn with_cwd(self, cwd: String) -> (r: BuildCommand)
        ensures
            r.extra_inputs == self.extra_inputs,
            r.commandline == (LoweredCommand { cwd: Some(cwd), ..self.commandline }),
    {
        BuildCommand { extra_inputs: self.extra_inputs, commandline: self.commandline.with_cwd(cwd) }
    }

    /// This command with `env` added to its environment.
    pub fn with_env(self, env: Vec<(String, String)>) -> (r: BuildCommand)
        ensures
            r.extra_inputs == self.extra_inputs,
            r.commandline.args == self.commandline.args,
            r.commandline.execution == self.commandline.execution,
            r.commandline.cwd == self.commandline.cwd,
            r.commandline.env@ == self.commandline.env@ + env@,
    {
        BuildCommand { extra_inputs: self.extra_inputs, commandline: self.commandline.with_env(env) }
    }
}

} // verus!
