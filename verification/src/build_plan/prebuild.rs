//! Resolving custom prebuild commands: their rules, placeholders and paths.

use vstd::prelude::*;

use relative_path::PathExt;

use crate::build_lower::compiler::args::opt_view;
use crate::build_lower::compiler::PackageFQN;
use crate::model::{OperatingSystem, TargetBackend};
use crate::path::{is_absolute, path_is_absolute};
use crate::text::{append_str, concat2, join_sep, join_with, owned, str_contains_char, str_eq};

verus! {

/// The path of `path` relative to `root`, as `relative_path`'s
/// `PathExt::relative_to` computes it, if it can.
pub uninterp spec fn path_relative_to(path: Seq<char>, root: Seq<char>) -> Option<Seq<char>>;

/// The relative path `p` with `.` and `..` resolved, as `relative_path`'s
/// `RelativePath::normalize` computes it.
pub uninterp spec fn relative_normalized(p: Seq<char>) -> Seq<char>;

/// The path of `path` relative to `root`.
///
/// Trusted: calls `relative_path::PathExt::relative_to` on `std::path::Path`.
/// The result is a function of the two paths (a logical operation that does
/// not touch the file system, for the platform the library is built for); it
/// is named, not restated. Failure is `None`.
#[verifier::external_body]
fn relative_to(path: &str, root: &str) -> (r: Option<String>)
    ensures
        opt_view(r) == path_relative_to(path@, root@),
{
    std::path::Path::new(path).relative_to(root).ok().map(|p| p.into_string())
}

/// The relative path `p`, normalized.
///
/// Trusted: calls `relative_path::RelativePath::normalize`, whose result is a
/// function of `p` alone; it is named, not restated.
#[verifier::external_body]
pub(crate) fn normalize_relative(p: &str) -> (r: String)
    ensures
        r@ == relative_normalized(p@),
{
    relative_path::RelativePath::new(p).normalize().into_string()
}

/// How a prebuild command names a path, given its normalized path relative
/// to the command's directory: `.` for that directory itself, `./` and the
/// relative path otherwise, and the path as it is when it has no relative
/// form.
pub open spec fn command_path(normalized: Option<Seq<char>>, path: Seq<char>) -> Seq<char> {
    match normalized {
        Some(n) => if n.len() == 0 {
            "."@
        } else {
            "./"@ + n
        },
        None => path,
    }
}

/// How a prebuild command names `path`, given its normalized path relative
/// to the command's directory, if it has one.
pub fn command_path_from(normalized: Option<String>, path: &str) -> (r: String)
    ensures
        r@ == command_path(opt_view(normalized), path@),
{
    match normalized {
        Some(n) => {
            if n.as_str().unicode_len() == 0 {
                owned(".")
            } else {
                concat2("./", n.as_str())
            }
        },
        None => owned(path),
    }
}

/// The normalized path of `path` relative to `cwd`, if it has one.
pub open spec fn normalized_relative(cwd: Seq<char>, path: Seq<char>) -> Option<Seq<char>> {
    match path_relative_to(path, cwd) {
        Some(rel) => Some(relative_normalized(rel)),
        None => None,
    }
}

/// How a prebuild command running in `cwd` names `path`.
pub fn prebuild_command_path(cwd: &str, path: &str) -> (r: String)
    ensures
        r@ == command_path(normalized_relative(cwd@, path@), path@),
{
    let normalized = match relative_to(path, cwd) {
        Some(rel) => Some(normalize_relative(rel.as_str())),
        None => None,
    };
    command_path_from(normalized, path)
}

/// How a prebuild command running in `cwd` names each of `paths`.
pub fn prebuild_command_paths(cwd: &str, paths: &Vec<String>) -> (r: Vec<String>)
    ensures
        r@.len() == paths@.len(),
        forall|i: int|
            0 <= i < r@.len() ==> (#[trigger] r@[i])@ == command_path(
                normalized_relative(cwd@, paths@[i]@),
                paths@[i]@,
            ),
{
    let mut r: Vec<String> = Vec::new();
    let mut i: usize = 0;
    while i < paths.len()
        invariant
            i <= paths.len(),
            r@.len() == i,
            forall|j: int|
                0 <= j < i ==> (#[trigger] r@[j])@ == command_path(
                    normalized_relative(cwd@, paths@[j]@),
                    paths@[j]@,
                ),
        decreases paths.len() - i,
    {
        r.push(prebuild_command_path(cwd, paths[i].as_str()));
        i = i + 1;
    }
    r
}

/// Concatenates two optional strings.
pub fn cat_opt(x: Option<String>, y: Option<&str>) -> (r: Option<String>)
    ensures
        opt_view(r) == match (opt_view(x), y) {
            (Some(a), Some(b)) => Some(a + b@),
            (Some(a), None) => Some(a),
            (None, Some(b)) => Some(b@),
            (None, None) => None,
        },
{
    match (x, y) {
        (Some(a), Some(b)) => {
            let mut a = a;
            append_str(&mut a, b);
            Some(a)
        },
        (Some(a), None) => Some(a),
        (None, Some(b)) => Some(owned(b)),
        (None, None) => None,
    }
}

/// Whether an LLVM build emits a debug-symbol bundle: with debug symbols, on
/// macOS.
pub fn should_generate_llvm_dsym(debug_symbols: bool, os: OperatingSystem) -> (r: bool)
    ensures
        r == (debug_symbols && os == OperatingSystem::MacOS),
{
    debug_symbols && os == OperatingSystem::MacOS
}

/// A named prebuild command, declared by a module or a package.
#[derive(Clone, Debug)]
pub struct PrebuildRule {
    pub name: String,
    pub command: String,
}

/// The command of the first rule of `rules` named `name`, if any.
pub open spec fn rule_command(rules: Seq<PrebuildRule>, name: Seq<char>) -> Option<Seq<char>>
    decreases rules.len(),
{
    if rules.len() == 0 {
        None
    } else if rules[0].name@ == name {
        Some(rules[0].command@)
    } else {
        rule_command(rules.drop_first(), name)
    }
}

/// The rules of an optional rule list.
pub open spec fn opt_rules(rules: Option<Vec<PrebuildRule>>) -> Seq<PrebuildRule> {
    match rules {
        Some(v) => v@,
        None => Seq::empty(),
    }
}

fn find_rule(rules: &Vec<PrebuildRule>, name: &str) -> (r: Option<String>)
    ensures
        opt_view(r) == rule_command(rules@, name@),
{
    let mut i: usize = 0;
    assert(rules@.subrange(0, rules@.len() as int) =~= rules@);
    while i < rules.len()
        invariant
            i <= rules.len(),
            rule_command(rules@, name@) == rule_command(rules@.subrange(i as int, rules@.len() as int), name@),
        decreases rules.len() - i,
    {
        proof {
            let rest = rules@.subrange(i as int, rules@.len() as int);
            assert(rest[0] == rules@[i as int]);
            assert(rest.drop_first() =~= rules@.subrange(i + 1, rules@.len() as int));
        }
        if str_eq(rules[i].name.as_str(), name) {
            return Some(rules[i].command.clone());
        }
        i = i + 1;
    }
    assert(rules@.subrange(rules@.len() as int, rules@.len() as int) =~= Seq::<PrebuildRule>::empty());
    None
}

/// Why a build plan cannot be constructed.
#[derive(Debug)]
pub enum BuildPlanConstructError {
    /// A prebuild command names a rule that is not declared.
    InvalidPrebuildRule { package: PackageFQN, message: String },
    /// Linking `package` needs the virtual package `dep`, which has no
    /// implementation.
    NoImplementationForVirtualPackage { package: PackageFQN, dep: PackageFQN },
    /// The selected `backend` cannot build `dependency`, which `importer`
    /// imports; `supported_backends` lists the backends that can, and `path`
    /// is the import edge.
    BackendIncompatibleDependency {
        backend: TargetBackend,
        importer: String,
        dependency: String,
        supported_backends: String,
        path: String,
    },
    /// The C compiler flags of `package`'s native link settings do not split
    /// into shell words.
    MalformedCCFlags { package: PackageFQN },
    /// The C link flags of `package`'s native link settings do not split
    /// into shell words.
    MalformedCCLinkFlags { package: PackageFQN },
    /// The C stub compiler flags of `package` do not split into shell words.
    MalformedStubCCFlags { package: PackageFQN },
    /// The C stub link flags of `package` do not split into shell words.
    MalformedStubCCLinkFlags { package: PackageFQN },
}

/// The message for an undeclared rule `name`.
pub open spec fn unknown_rule_message(name: Seq<char>) -> Seq<char> {
    "Unknown dev_build rule `"@ + name + "` in moon.pkg."@
}

/// The command of prebuild rule `rule_name`: a rule of the package shadows a
/// rule of its module.
pub fn resolve_prebuild_rule_command(
    local_rules: Option<&Vec<PrebuildRule>>,
    module_rules: &Option<Vec<PrebuildRule>>,
    rule_name: &str,
    package: PackageFQN,
) -> (r: Result<String, BuildPlanConstructError>)
    ensures
        ({
            let local = match local_rules {
                Some(v) => v@,
                None => Seq::empty(),
            };
            match rule_command(local, rule_name@) {
                Some(c) => r matches Ok(s) && s@ == c,
                None => match rule_command(opt_rules(*module_rules), rule_name@) {
                    Some(c) => r matches Ok(s) && s@ == c,
                    None => r matches Err(BuildPlanConstructError::InvalidPrebuildRule { package: p, message })
                        && p == package && message@ == unknown_rule_message(rule_name@),
                },
            }
        }),
{
    if let Some(rules) = local_rules {
        if let Some(c) = find_rule(rules, rule_name) {
            return Ok(c);
        }
    }
    if let Some(rules) = module_rules {
        if let Some(c) = find_rule(rules, rule_name) {
            return Ok(c);
        }
    }
    let mut message = concat2("Unknown dev_build rule `", rule_name);
    append_str(&mut message, "` in moon.pkg.");
    Err(BuildPlanConstructError::InvalidPrebuildRule { package, message })
}

/// The result of `aho_corasick`'s `replace_all` on `haystack`, with an
/// automaton for `patterns` built by `AhoCorasick::new` and the replacement of
/// each pattern at the same index.
pub uninterp spec fn ac_replace_all(
    patterns: Seq<Seq<char>>,
    haystack: Seq<char>,
    replacements: Seq<Seq<char>>,
) -> Seq<char>;

/// Whether `AhoCorasick::new` builds an automaton for `patterns`: it fails
/// only when an internal limit on states, patterns or pattern length is
/// exceeded, which depends on the patterns alone.
pub uninterp spec fn ac_builds(patterns: Seq<Seq<char>>) -> bool;

/// Whether `pat` occurs in `s`.
pub open spec fn occurs_in(s: Seq<char>, pat: Seq<char>) -> bool {
    exists|i: int| 0 <= i && i + pat.len() <= s.len() && #[trigger] s.subrange(i, i + pat.len()) == pat
}

/// Whether none of `patterns` occurs in `s`.
pub open spec fn none_occurs(s: Seq<char>, patterns: Seq<Seq<char>>) -> bool {
    forall|j: int| 0 <= j < patterns.len() ==> !occurs_in(s, #[trigger] patterns[j])
}

/// Replaces every match of `patterns` in `haystack` by the replacement at the
/// pattern's index.
///
/// Trusted: calls `aho_corasick::AhoCorasick::new` and then
/// `AhoCorasick::replace_all`. The result is `Some` exactly when the automaton
/// builds, which is named and not restated; a haystack in which no pattern
/// occurs has no match and comes back unchanged. A built automaton supports the unanchored
/// search that `replace_all` runs, so it panics only on a replacement count
/// other than the pattern count, which `requires` rules out. The replaced
/// string is a function of the three arguments; it is named, not restated.
#[verifier::external_body]
fn replace_all_patterns(patterns: &Vec<String>, haystack: &str, replacements: &Vec<String>) -> (r:
    Option<String>)
    requires
        replacements@.len() == patterns@.len(),
    ensures
        r is Some <==> ac_builds(patterns.deep_view()),
        r matches Some(s) ==> s@ == ac_replace_all(
            patterns.deep_view(),
            haystack@,
            replacements.deep_view(),
        ),
        none_occurs(haystack@, patterns.deep_view()) ==> (r matches Some(s) ==> s@ == haystack@),
{
    aho_corasick::AhoCorasick::new(patterns).ok().map(|ac| ac.replace_all(haystack, replacements))
}

/// The first word of `s` under POSIX shell splitting, as `shlex::Shlex`
/// yields it, if any.
pub uninterp spec fn shell_first_word(s: Seq<char>) -> Option<Seq<char>>;

/// The first word of `s` under POSIX shell splitting.
///
/// Trusted: calls `shlex::Shlex::new` and the iterator's first `next`. The
/// word is a function of `s`; it is named, not restated.
#[verifier::external_body]
fn first_shell_word(s: &str) -> (r: Option<String>)
    ensures
        opt_view(r) == shell_first_word(s@),
{
    shlex::Shlex::new(s).next()
}

/// The placeholders of prebuild commands, in the order of their
/// replacements.
pub open spec fn placeholders() -> Seq<Seq<char>> {
    seq!["$mooncake_bin"@, "$mod_dir"@, "$pkg_dir"@, "$input"@, "$output"@]
}

/// What replaces each placeholder: the binary dependency directory, the
/// module and package source directories, and the inputs and outputs
/// separated by spaces.
pub open spec fn placeholder_values(
    mooncake_bin_dir: Seq<char>,
    mod_source: Seq<char>,
    pkg_source: Seq<char>,
    inputs: Seq<Seq<char>>,
    outputs: Seq<Seq<char>>,
) -> Seq<Seq<char>> {
    seq![mooncake_bin_dir, mod_source, pkg_source, join_sep(inputs, ' '), join_sep(outputs, ' ')]
}

/// Whether a command's first word is a path relative to where the command
/// runs: it holds a separator and is not absolute.
pub open spec fn relative_argv0(argv0: Option<Seq<char>>) -> bool {
    match argv0 {
        Some(a) => a.contains('/') && !is_absolute(a),
        None => false,
    }
}

/// A substituted command whose first word is `argv0`, with a relative first
/// word resolved against the module's source directory by prefixing it.
pub open spec fn resolved_command(substituted: Seq<char>, argv0: Option<Seq<char>>, mod_source: Seq<
    char,
>) -> Seq<char> {
    if relative_argv0(argv0) {
        mod_source + "/"@ + substituted
    } else {
        substituted
    }
}

/// Resolves a relative first word of a substituted command against the
/// module's source directory, given that first word.
pub fn finish_prebuild_command(substituted: String, argv0: Option<String>, mod_source: &str) -> (r:
    String)
    ensures
        r@ == resolved_command(substituted@, opt_view(argv0), mod_source@),
{
    let relative = match &argv0 {
        Some(a) => str_contains_char(a.as_str(), '/') && !path_is_absolute(a.as_str()),
        None => false,
    };
    if relative {
        let mut r = concat2(mod_source, "/");
        append_str(&mut r, substituted.as_str());
        r
    } else {
        substituted
    }
}

/// Substitutes the placeholders of a prebuild command; `None` exactly when
/// the placeholder automaton cannot be built.
pub fn substitute_prebuild_placeholders(
    command: &str,
    mod_source: &str,
    mooncake_bin_dir: &str,
    pkg_source: &str,
    input_files: &Vec<String>,
    output_files: &Vec<String>,
) -> (r: Option<String>)
    ensures
        r is Some <==> ac_builds(placeholders()),
        none_occurs(command@, placeholders()) ==> (r matches Some(s) ==> s@ == command@),
        r matches Some(s) ==> s@ == ac_replace_all(
            placeholders(),
            command@,
            placeholder_values(
                mooncake_bin_dir@,
                mod_source@,
                pkg_source@,
                input_files.deep_view(),
                output_files.deep_view(),
            ),
        ),
{
    let mut patterns: Vec<String> = Vec::new();
    patterns.push(owned("$mooncake_bin"));
    patterns.push(owned("$mod_dir"));
    patterns.push(owned("$pkg_dir"));
    patterns.push(owned("$input"));
    patterns.push(owned("$output"));
    let ins = input_files.as_slice();
    let outs = output_files.as_slice();
    proof {
        assert(ins.deep_view() =~= input_files.deep_view());
        assert(outs.deep_view() =~= output_files.deep_view());
    }
    let mut values: Vec<String> = Vec::new();
    values.push(owned(mooncake_bin_dir));
    values.push(owned(mod_source));
    values.push(owned(pkg_source));
    values.push(join_with(ins, ' '));
    values.push(join_with(outs, ' '));
    proof {
        assert(patterns.deep_view() =~= placeholders());
        assert(values.deep_view() =~= placeholder_values(
            mooncake_bin_dir@,
            mod_source@,
            pkg_source@,
            input_files.deep_view(),
            output_files.deep_view(),
        ));
    }
    replace_all_patterns(&patterns, command, &values)
}

/// Substitutes the placeholders of a prebuild command and resolves a relative
/// first word against the module's source directory.
///
/// `None` exactly when the placeholder automaton cannot be built.
pub fn resolve_prebuild_command(
    command: &str,
    mod_source: &str,
    mooncake_bin_dir: &str,
    pkg_source: &str,
    input_files: &Vec<String>,
    output_files: &Vec<String>,
) -> (r: Option<String>)
    ensures
        r is Some <==> ac_builds(placeholders()),
        none_occurs(command@, placeholders()) ==> (r matches Some(s) ==> s@ == resolved_command(
            command@,
            shell_first_word(command@),
            mod_source@,
        )),
        r matches Some(s) ==> {
            let substituted = ac_replace_all(
                placeholders(),
                command@,
                placeholder_values(
                    mooncake_bin_dir@,
                    mod_source@,
                    pkg_source@,
                    input_files.deep_view(),
                    output_files.deep_view(),
                ),
            );
            s@ == resolved_command(substituted, shell_first_word(substituted), mod_source@)
        },
{
    match substitute_prebuild_placeholders(
        command,
        mod_source,
        mooncake_bin_dir,
        pkg_source,
        input_files,
        output_files,
    ) {
        Some(substituted) => {
            let argv0 = first_shell_word(substituted.as_str());
            Some(finish_prebuild_command(substituted, argv0, mod_source))
        },
        None => None,
    }
}

} // verus!
