use moonbuild_rupes_recta::build_lower::compiler::PackageFQN;
use moonbuild_rupes_recta::build_plan::custom_prebuild::{
    prebuild_output_warnings, resolve_custom_prebuild, resolve_declared_paths, PrebuildCommand,
};
use moonbuild_rupes_recta::build_plan::prebuild::{BuildPlanConstructError, PrebuildRule};

fn strings(v: &[&str]) -> Vec<String> {
    v.iter().map(|s| s.to_string()).collect()
}

fn fqn() -> PackageFQN {
    PackageFQN { name: "user/mod/pkg".to_string() }
}

#[test]
fn declared_paths_are_placed_in_the_package_folder() {
    let placed = resolve_declared_paths("/m/src/pkg", &strings(&["a.txt", "./out/../b.mbt", "/abs/c", "."]));
    assert_eq!(placed, strings(&["/m/src/pkg/a.txt", "/m/src/pkg/b.mbt", "/abs/c", "/m/src/pkg"]));
}

#[test]
fn direct_prebuild_command_names_files_relative_to_the_module() {
    let cmd = PrebuildCommand::Direct {
        command: "gen $input -o $output".to_string(),
        input: strings(&["a.txt"]),
        output: strings(&["out/b.mbt"]),
    };
    let info = resolve_custom_prebuild(&cmd, "/m/src/pkg", "/m", "/m/_build/bin", fqn(), None, &None)
        .expect("a direct command needs no rule")
        .expect("the placeholders can be substituted");
    assert_eq!(info.resolved_inputs, strings(&["/m/src/pkg/a.txt"]));
    assert_eq!(info.resolved_outputs, strings(&["/m/src/pkg/out/b.mbt"]));
    assert_eq!(info.cwd, "/m");
    assert_eq!(info.command, "gen ./src/pkg/a.txt -o ./src/pkg/out/b.mbt");
}

#[test]
fn rule_prebuild_command_uses_the_package_rule_first() {
    let local = vec![PrebuildRule { name: "gen".to_string(), command: "./tools/gen $pkg_dir".to_string() }];
    let module = Some(vec![PrebuildRule { name: "gen".to_string(), command: "other".to_string() }]);
    let cmd = PrebuildCommand::Rule { rule: "gen".to_string(), input: Vec::new(), output: Vec::new() };
    let info = resolve_custom_prebuild(&cmd, "/m/src/pkg", "/m", "/bin", fqn(), Some(&local), &module)
        .unwrap()
        .unwrap();
    assert_eq!(info.command, "/m/./tools/gen /m/src/pkg");
}

#[test]
fn unknown_prebuild_rule_is_refused() {
    let cmd = PrebuildCommand::Rule { rule: "missing".to_string(), input: Vec::new(), output: Vec::new() };
    let err = resolve_custom_prebuild(&cmd, "/m/src/pkg", "/m", "/bin", fqn(), None, &None).unwrap_err();
    let BuildPlanConstructError::InvalidPrebuildRule { package, message } = err else {
        panic!("an unknown rule should be reported as such");
    };
    assert_eq!(package.name, "user/mod/pkg");
    assert_eq!(message, "Unknown dev_build rule `missing` in moon.pkg.");
}

#[test]
fn suspicious_prebuild_outputs_are_warned_about() {
    let warnings = prebuild_output_warnings(
        &strings(&["gen.mbt", "sub/x.mbt", "moon.pkg.json", "./y.mbt.md", "data.txt"]),
        "user/mod/pkg",
    );
    assert_eq!(
        warnings,
        vec![
            "Prebuild output 'sub/x.mbt' is not in the package directory of package user/mod/pkg. Such behavior is not supported. The build system will not add it to the list of MoonBit files to compile. If you really intend to generate files for another package, please move the prebuild command to that package instead.".to_string(),
            "Prebuild output 'moon.pkg.json' of package user/mod/pkg looks like a package manifest file. Overwriting package manifests is not supported and may lead to unexpected behavior.".to_string(),
            "Prebuild output './y.mbt.md' is not in the package directory of package user/mod/pkg. Such behavior is not supported. The build system will not add it to the list of MoonBit files to compile. If you really intend to generate files for another package, please move the prebuild command to that package instead.".to_string(),
        ]
    );
}
