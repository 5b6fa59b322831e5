//! Resolving a package's custom prebuild command: its declared inputs and
//! outputs placed in the package folder, the names the command uses for
//! them, and the command text with its placeholders filled in.

use vstd::prelude::*;

use super::package_prebuild::PrebuildInfo;
use super::prebuild::{
    ac_builds, ac_replace_all, command_path, normalized_relative, opt_rules, placeholder_values, placeholders,
    prebuild_command_paths, relative_normalized, resolve_prebuild_command, resolve_prebuild_rule_command,
    resolved_command, rule_command, shell_first_word, unknown_rule_message, BuildPlanConstructError, PrebuildRule,
};
use crate::build_lower::compiler::PackageFQN;
use crate::discover::package_files::{placed_under, place_under};
use crate::path::{file_name, is_absolute, path_components, path_file_name, path_is_absolute, component_count};
use crate::text::{append_str, ends_with, owned, str_ends_with, str_eq};
use super::prebuild::normalize_relative;

verus! {

/// A prebuild command of a package manifest: a command given directly, or
/// a rule named by the package or its module, with the files it reads and
/// writes, relative to the package folder unless absolute.
#[derive(Clone, Debug)]
pub enum PrebuildCommand {
    Direct { command: String, input: Vec<String>, output: Vec<String> },
    Rule { rule: String, input: Vec<String>, output: Vec<String> },
}

impl PrebuildCommand {
    /// The declared inputs.
    pub open spec fn inputs(&self) -> Seq<String> {
        match self {
            PrebuildCommand::Direct { input, .. } => input@,
            PrebuildCommand::Rule { input, .. } => input@,
        }
    }

    /// The declared outputs.
    pub open spec fn outputs(&self) -> Seq<String> {
        match self {
            PrebuildCommand::Direct { output, .. } => output@,
            PrebuildCommand::Rule { output, .. } => output@,
        }
    }

    /// The declared inputs.
    pub fn input(&self) -> (r: &Vec<String>)
        ensures
            r@ == self.inputs(),
    {
        match self {
            PrebuildCommand::Direct { input, .. } => input,
            PrebuildCommand::Rule { input, .. } => input,
        }
    }

    /// The declared outputs.
    pub fn output(&self) -> (r: &Vec<String>)
        ensures
            r@ == self.outputs(),
    {
        match self {
            PrebuildCommand::Direct { output, .. } => output,
            PrebuildCommand::Rule { output, .. } => output,
        }
    }
}

/// Where a declared path lies: an absolute path as it is, a relative one
/// normalized and placed under the package folder `root`.
pub open spec fn declared_path(root: Seq<char>, p: Seq<char>) -> Seq<char> {
    if is_absolute(p) {
        p
    } else {
        placed_under(root, relative_normalized(p))
    }
}

/// The declared paths `paths` placed for the package folder `root`.
pub fn resolve_declared_paths(root: &str, paths: &Vec<String>) -> (r: Vec<String>)
    ensures
        r@.len() == paths@.len(),
        forall|i: int| 0 <= i < r@.len() ==> (#[trigger] r@[i])@ == declared_path(root@, paths@[i]@),
{
    let mut r: Vec<String> = Vec::new();
    let mut i: usize = 0;
    while i < paths.len()
        invariant
            i <= paths.len(),
            r@.len() == i,
            forall|j: int| 0 <= j < i ==> (#[trigger] r@[j])@ == declared_path(root@, paths@[j]@),
        decreases paths.len() - i,
    {
        let p = paths[i].as_str();
        if path_is_absolute(p) {
            r.push(owned(p));
        } else {
            let n = normalize_relative(p);
            r.push(place_under(root, n.as_str()));
        }
        i = i + 1;
    }
    r
}

/// The command text of `cmd`: the direct command, or the command of the
/// named rule, the package's rules shadowing the module's.
pub open spec fn command_text(cmd: PrebuildCommand, local: Seq<PrebuildRule>, module: Seq<PrebuildRule>) -> Option<
    Seq<char>,
> {
    match cmd {
        PrebuildCommand::Direct { command, .. } => Some(command@),
        PrebuildCommand::Rule { rule, .. } => match rule_command(local, rule@) {
            Some(c) => Some(c),
            None => rule_command(module, rule@),
        },
    }
}

/// The names a command running in `cwd` uses for the paths `resolved`.
pub open spec fn command_names(cwd: Seq<char>, resolved: Seq<Seq<char>>) -> Seq<Seq<char>> {
    Seq::new(resolved.len(), |i: int| command_path(normalized_relative(cwd, resolved[i]), resolved[i]))
}

/// The declared paths placed for the package folder `root`.
pub open spec fn declared_paths(root: Seq<char>, paths: Seq<String>) -> Seq<Seq<char>> {
    Seq::new(paths.len(), |i: int| declared_path(root, paths[i]@))
}

/// Resolves the custom prebuild command `cmd` of a package (full name
/// `package`, folder `root_path`) of the module in `module_dir`, where the
/// command runs: its inputs and outputs placed in the package folder, and
/// its text (a rule's command for a rule, the package's rules shadowing the
/// module's) with the placeholders filled in and a relative program
/// resolved against the module folder. An unknown rule is refused;
/// `Ok(None)` exactly when the placeholder automaton cannot be built.
pub fn resolve_custom_prebuild(
    cmd: &PrebuildCommand,
    root_path: &str,
    module_dir: &str,
    mooncake_bin_dir: &str,
    package: PackageFQN,
    local_rules: Option<&Vec<PrebuildRule>>,
    module_rules: &Option<Vec<PrebuildRule>>,
) -> (r: Result<Option<PrebuildInfo>, BuildPlanConstructError>)
    ensures
        ({
            let local = match local_rules {
                Some(v) => v@,
                None => Seq::empty(),
            };
            let text = command_text(*cmd, local, opt_rules(*module_rules));
            &&& r is Err <==> text is None
            &&& r matches Ok(o) ==> (o is Some <==> ac_builds(placeholders()))
            &&& r matches Err(e) ==> cmd matches PrebuildCommand::Rule { rule, .. } && (e matches BuildPlanConstructError::InvalidPrebuildRule { package: p, message }
                && p == package && message@ == unknown_rule_message(rule@))
            &&& r matches Ok(Some(info)) ==> {
                let ins = declared_paths(root_path@, cmd.inputs());
                let outs = declared_paths(root_path@, cmd.outputs());
                let substituted = ac_replace_all(
                    placeholders(),
                    text->0,
                    placeholder_values(
                        mooncake_bin_dir@,
                        module_dir@,
                        root_path@,
                        command_names(module_dir@, ins),
                        command_names(module_dir@, outs),
                    ),
                );
                &&& info.resolved_inputs.deep_view() == ins
                &&& info.resolved_outputs.deep_view() == outs
                &&& info.cwd@ == module_dir@
                &&& info.command@ == resolved_command(substituted, shell_first_word(substituted), module_dir@)
            }
        }),
{
    let input_paths = resolve_declared_paths(root_path, cmd.input());
    let output_paths = resolve_declared_paths(root_path, cmd.output());
    let command_inputs = prebuild_command_paths(module_dir, &input_paths);
    let command_outputs = prebuild_command_paths(module_dir, &output_paths);
    let text = match cmd {
        PrebuildCommand::Direct { command, .. } => command.clone(),
        PrebuildCommand::Rule { rule, .. } => {
            match resolve_prebuild_rule_command(local_rules, module_rules, rule.as_str(), package) {
                Ok(c) => c,
                Err(e) => {
                    return Err(e);
                },
            }
        },
    };
    proof {
        assert(input_paths.deep_view() =~= declared_paths(root_path@, cmd.inputs()));
        assert(output_paths.deep_view() =~= declared_paths(root_path@, cmd.outputs()));
        assert(command_inputs.deep_view() =~= command_names(module_dir@, input_paths.deep_view()));
        assert(command_outputs.deep_view() =~= command_names(module_dir@, output_paths.deep_view()));
    }
    match resolve_prebuild_command(
        text.as_str(),
        module_dir,
        mooncake_bin_dir,
        root_path,
        &command_inputs,
        &command_outputs,
    ) {
        Some(command) => Ok(
            Some(
                PrebuildInfo {
                    resolved_inputs: input_paths,
                    resolved_outputs: output_paths,
                    cwd: owned(module_dir),
                    command,
                },
            ),
        ),
        None => Ok(None),
    }
}

/// The names of the module and package manifests.
pub open spec fn is_manifest_name(name: Seq<char>) -> bool {
    name == "moon.mod"@ || name == "moon.mod.json"@ || name == "moon.pkg"@ || name == "moon.pkg.json"@
}

/// A declared output that is a MoonBit source outside the package folder:
/// its name ends with `.mbt` or `.mbt.md` and it is more than a file name.
pub open spec fn misplaced_source_output(o: Seq<char>) -> bool {
    file_name(o) matches Some(n) && (ends_with(n, ".mbt"@) || ends_with(n, ".mbt.md"@)) && path_components(o).len() != 1
}

/// The warnings about the declared outputs of a prebuild command of package
/// `fqn`, output by output: a MoonBit source outside the package folder is
/// not compiled, and an output named like a manifest may overwrite one.
pub open spec fn output_warnings(outputs: Seq<String>, fqn: Seq<char>) -> Seq<Seq<char>>
    decreases outputs.len(),
{
    if outputs.len() == 0 {
        Seq::empty()
    } else {
        let o = outputs.last()@;
        let first = if misplaced_source_output(o) {
            seq![
                "Prebuild output '"@ + o + "' is not in the package directory of package "@ + fqn
                    + ". Such behavior is not supported. The build system will not add it to the list of MoonBit files to compile. If you really intend to generate files for another package, please move the prebuild command to that package instead."@,
            ]
        } else {
            Seq::empty()
        };
        let second = if file_name(o) matches Some(n) && is_manifest_name(n) {
            seq![
                "Prebuild output '"@ + o + "' of package "@ + fqn
                    + " looks like a package manifest file. Overwriting package manifests is not supported and may lead to unexpected behavior."@,
            ]
        } else {
            Seq::empty()
        };
        output_warnings(outputs.drop_last(), fqn) + first + second
    }
}

/// The warnings about the declared outputs of a prebuild command of package
/// `fqn`.
pub fn prebuild_output_warnings(outputs: &Vec<String>, fqn: &str) -> (r: Vec<String>)
    ensures
        r.deep_view() == output_warnings(outputs@, fqn@),
{
    let mut r: Vec<String> = Vec::new();
    let mut i: usize = 0;
    while i < outputs.len()
        invariant
            i <= outputs.len(),
            r.deep_view() == output_warnings(outputs@.take(i as int), fqn@),
        decreases outputs.len() - i,
    {
        proof {
            assert(outputs@.take(i + 1).drop_last() =~= outputs@.take(i as int));
            assert(outputs@.take(i + 1).last() == outputs@[i as int]);
        }
        let o = outputs[i].as_str();
        let ghost before = r.deep_view();
        match path_file_name(o) {
            Some(n) => {
                let source = str_ends_with(n.as_str(), ".mbt") || str_ends_with(n.as_str(), ".mbt.md");
                if source && component_count(o) != 1 {
                    let mut w = owned("Prebuild output '");
                    append_str(&mut w, o);
                    append_str(&mut w, "' is not in the package directory of package ");
                    append_str(&mut w, fqn);
                    append_str(
                        &mut w,
                        ". Such behavior is not supported. The build system will not add it to the list of MoonBit files to compile. If you really intend to generate files for another package, please move the prebuild command to that package instead.",
                    );
                    r.push(w);
                }
                let ghost middle = r.deep_view();
                if str_eq(n.as_str(), "moon.mod") || str_eq(n.as_str(), "moon.mod.json") || str_eq(
                    n.as_str(),
                    "moon.pkg",
                ) || str_eq(n.as_str(), "moon.pkg.json") {
                    let mut w = owned("Prebuild output '");
                    append_str(&mut w, o);
                    append_str(&mut w, "' of package ");
                    append_str(&mut w, fqn);
                    append_str(
                        &mut w,
                        " looks like a package manifest file. Overwriting package manifests is not supported and may lead to unexpected behavior.",
                    );
                    r.push(w);
                }
                proof {
                    let first = if misplaced_source_output(o@) {
                        seq![
                            "Prebuild output '"@ + o@ + "' is not in the package directory of package "@ + fqn@
                                + ". Such behavior is not supported. The build system will not add it to the list of MoonBit files to compile. If you really intend to generate files for another package, please move the prebuild command to that package instead."@,
                        ]
                    } else {
                        Seq::empty()
                    };
                    assert(middle =~= before + first);
                    assert(r.deep_view() =~= output_warnings(outputs@.take(i + 1), fqn@));
                }
            },
            None => {
                proof {
                    assert(r.deep_view() =~= output_warnings(outputs@.take(i + 1), fqn@));
                }
            },
        }
        i = i + 1;
    }
    assert(outputs@.take(outputs@.len() as int) =~= outputs@);
    r
}

} // verus!
