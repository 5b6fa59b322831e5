//! How package prebuild actions are named: the stable identity of each
//! action and the description shown while it runs.

use vstd::prelude::*;

use crate::build_plan::artifact::package_file_key;
use crate::build_plan::backend_compat::join_comma;
use crate::build_plan::package_prebuild::{PackagePrebuildAction, PackagePrebuildKey};
use crate::discover::model::{package_name, valid_id, DiscoverResult};
use crate::path::{file_name, path_file_name, render_components, strip_prefix_components};
use crate::text::{append_str, decimal, decimal_digits, owned};

verus! {

/// How a path is shown in a description: its file name, or the whole path
/// when it has none.
pub open spec fn shown_name(p: Seq<char>) -> Seq<char> {
    match file_name(p) {
        Some(n) => n,
        None => p,
    }
}

/// How a path is shown in a description.
pub fn shown_name_of(p: &str) -> (r: String)
    ensures
        r@ == shown_name(p@),
{
    match path_file_name(p) {
        Some(n) => n,
        None => owned(p),
    }
}

/// The outputs of a custom command as a description lists them.
pub open spec fn shown_outputs(outputs: Seq<String>) -> Seq<char> {
    if outputs.len() == 0 {
        "(no outputs)"@
    } else {
        join_comma(Seq::new(outputs.len(), |i: int| shown_name(outputs[i]@)))
    }
}

/// A path as a package's file key shows it: relative to the package folder
/// when it lies under it.
pub open spec fn file_key(root: Seq<char>, path: Seq<char>) -> Seq<char> {
    match strip_prefix_components(path, root) {
        Some(rest) => render_components(rest),
        None => path,
    }
}

/// The stable identity of a package prebuild action of the packages `pkgs`:
/// the package's name, `@`, then `RunPrebuild_` and the command's position
/// for a custom command, or `RunMoonLexPrebuild_` / `RunMoonYaccPrebuild_`
/// and the input's file key for a generator.
pub open spec fn prebuild_id(key: PackagePrebuildKey, pkgs: DiscoverResult) -> Seq<char> {
    match key {
        PackagePrebuildKey::Custom { package, declaration_index } => package_name(pkgs@.packages[package.0 as int])
            + "@RunPrebuild_"@ + decimal_digits(declaration_index as nat),
        PackagePrebuildKey::MoonLex { package, input } => package_name(pkgs@.packages[package.0 as int])
            + "@RunMoonLexPrebuild_"@ + file_key(pkgs@.packages[package.0 as int].root_path@, input@),
        PackagePrebuildKey::MoonYacc { package, input } => package_name(pkgs@.packages[package.0 as int])
            + "@RunMoonYaccPrebuild_"@ + file_key(pkgs@.packages[package.0 as int].root_path@, input@),
    }
}

/// The package of a key.
pub open spec fn key_package_of(key: PackagePrebuildKey) -> crate::model::PackageId {
    match key {
        PackagePrebuildKey::Custom { package, .. } => package,
        PackagePrebuildKey::MoonLex { package, .. } => package,
        PackagePrebuildKey::MoonYacc { package, .. } => package,
    }
}

/// The stable identity of a package prebuild action.
pub fn prebuild_string_id(key: &PackagePrebuildKey, pkgs: &DiscoverResult) -> (r: String)
    requires
        valid_id(pkgs@, key_package_of(*key)),
    ensures
        r@ == prebuild_id(*key, *pkgs),
{
    match key {
        PackagePrebuildKey::Custom { package, declaration_index } => {
            let mut r = pkgs.fqn(*package).name;
            append_str(&mut r, "@RunPrebuild_");
            let n = decimal(*declaration_index as u64);
            append_str(&mut r, n.as_str());
            r
        },
        PackagePrebuildKey::MoonLex { package, input } => {
            let pkg = pkgs.get_package(*package);
            let mut r = pkgs.fqn(*package).name;
            append_str(&mut r, "@RunMoonLexPrebuild_");
            let k = package_file_key(pkg.root_path.as_str(), input.as_str());
            append_str(&mut r, k.as_str());
            r
        },
        PackagePrebuildKey::MoonYacc { package, input } => {
            let pkg = pkgs.get_package(*package);
            let mut r = pkgs.fqn(*package).name;
            append_str(&mut r, "@RunMoonYaccPrebuild_");
            let k = package_file_key(pkg.root_path.as_str(), input.as_str());
            append_str(&mut r, k.as_str());
            r
        },
    }
}

/// Whether an action is of the kind its key names.
pub open spec fn action_agrees(key: PackagePrebuildKey, action: PackagePrebuildAction) -> bool {
    match (key, action) {
        (PackagePrebuildKey::Custom { .. }, PackagePrebuildAction::Custom { .. }) => true,
        (PackagePrebuildKey::MoonLex { .. }, PackagePrebuildAction::MoonLex { .. }) => true,
        (PackagePrebuildKey::MoonYacc { .. }, PackagePrebuildAction::MoonYacc { .. }) => true,
        _ => false,
    }
}

/// The description shown while a package prebuild action runs: `run
/// script`, the package's name and its outputs for a custom command, or
/// `run moonlex` / `run moonyacc`, the package's name and its input for a
/// generator, followed by ` (prebuild)`.
pub open spec fn prebuild_desc(key: PackagePrebuildKey, action: PackagePrebuildAction, pkgs: DiscoverResult) -> Seq<
    char,
> {
    let name = package_name(pkgs@.packages[key_package_of(key).0 as int]);
    let body = match action {
        PackagePrebuildAction::Custom { info } => "run script "@ + name + " "@ + shown_outputs(
            info.resolved_outputs@,
        ),
        PackagePrebuildAction::MoonLex { input, .. } => "run moonlex "@ + name + " "@ + shown_name(input@),
        PackagePrebuildAction::MoonYacc { input, .. } => "run moonyacc "@ + name + " "@ + shown_name(input@),
    };
    body + " (prebuild)"@
}

/// The outputs of a custom command as a description lists them.
fn outputs_text(outputs: &Vec<String>) -> (r: String)
    ensures
        r@ == shown_outputs(outputs@),
{
    if outputs.len() == 0 {
        return owned("(no outputs)");
    }
    let ghost names = Seq::new(outputs@.len(), |i: int| shown_name(outputs@[i]@));
    let mut r = shown_name_of(outputs[0].as_str());
    let mut i: usize = 1;
    proof {
        assert(names.take(1) =~= seq![names[0]]);
    }
    while i < outputs.len()
        invariant
            1 <= i <= outputs.len(),
            names == Seq::new(outputs@.len(), |i: int| shown_name(outputs@[i]@)),
            r@ == join_comma(names.take(i as int)),
        decreases outputs.len() - i,
    {
        append_str(&mut r, ", ");
        let n = shown_name_of(outputs[i].as_str());
        append_str(&mut r, n.as_str());
        proof {
            assert(names.take(i + 1).drop_last() =~= names.take(i as int));
            assert(names.take(i + 1).last() == names[i as int]);
        }
        i = i + 1;
    }
    assert(names.take(outputs@.len() as int) =~= names);
    r
}

/// The description shown while a package prebuild action runs.
pub fn prebuild_human_desc(key: &PackagePrebuildKey, action: &PackagePrebuildAction, pkgs: &DiscoverResult) -> (r:
    String)
    requires
        valid_id(pkgs@, key_package_of(*key)),
        action_agrees(*key, *action),
    ensures
        r@ == prebuild_desc(*key, *action, *pkgs),
{
    let package = match key {
        PackagePrebuildKey::Custom { package, .. } => *package,
        PackagePrebuildKey::MoonLex { package, .. } => *package,
        PackagePrebuildKey::MoonYacc { package, .. } => *package,
    };
    let name = pkgs.fqn(package).name;
    let mut r = match action {
        PackagePrebuildAction::Custom { info } => {
            let mut r = owned("run script ");
            append_str(&mut r, name.as_str());
            append_str(&mut r, " ");
            let outs = outputs_text(&info.resolved_outputs);
            append_str(&mut r, outs.as_str());
            r
        },
        PackagePrebuildAction::MoonLex { input, .. } => {
            let mut r = owned("run moonlex ");
            append_str(&mut r, name.as_str());
            append_str(&mut r, " ");
            let n = shown_name_of(input.as_str());
            append_str(&mut r, n.as_str());
            r
        },
        PackagePrebuildAction::MoonYacc { input, .. } => {
            let mut r = owned("run moonyacc ");
            append_str(&mut r, name.as_str());
            append_str(&mut r, " ");
            let n = shown_name_of(input.as_str());
            append_str(&mut r, n.as_str());
            r
        },
    };
    append_str(&mut r, " (prebuild)");
    r
}

} // verus!
