use moonbuild_rupes_recta::build_lower::compiler::PackageFQN;
use moonbuild_rupes_recta::build_plan::prebuild::{
    cat_opt, command_path_from, finish_prebuild_command, prebuild_command_path,
    prebuild_command_paths, resolve_prebuild_command, resolve_prebuild_rule_command,
    should_generate_llvm_dsym, substitute_prebuild_placeholders, BuildPlanConstructError,
    PrebuildRule,
};
use moonbuild_rupes_recta::model::OperatingSystem;

fn rule(name: &str, command: &str) -> PrebuildRule {
    PrebuildRule {
        name: name.to_string(),
        command: command.to_string(),
    }
}

fn test_package() -> PackageFQN {
    PackageFQN {
        name: "test".to_string(),
    }
}

#[test]
fn prebuild_command_path_is_relative_to_command_cwd() {
    assert_eq!(
        prebuild_command_path("module", "module/src/lib/input.txt"),
        "./src/lib/input.txt"
    );
}

#[test]
fn prebuild_command_path_can_include_module_from_workspace_cwd() {
    assert_eq!(
        prebuild_command_path("workspace", "workspace/member/src/lib/input.txt"),
        "./member/src/lib/input.txt"
    );
}

#[test]
fn prebuild_command_path_normalizes_dot_segments() {
    assert_eq!(
        prebuild_command_path("module", "module/src/lib/../assets/./input.txt"),
        "./src/assets/input.txt"
    );
}

#[test]
fn prebuild_command_path_handles_absolute_paths() {
    assert_eq!(
        prebuild_command_path("/module", "/module/src/lib/../assets/input.txt"),
        "./src/assets/input.txt"
    );
}

#[test]
fn prebuild_command_path_of_the_directory_itself_is_dot() {
    assert_eq!(prebuild_command_path("module", "module"), ".");
}

#[test]
fn prebuild_command_path_keeps_paths_without_a_relative_form() {
    assert_eq!(prebuild_command_path("module", "/abs/input.txt"), "/abs/input.txt");
}

#[test]
fn command_path_from_renders_each_case() {
    assert_eq!(command_path_from(Some(String::new()), "p"), ".");
    assert_eq!(command_path_from(Some("a/b".to_string()), "p"), "./a/b");
    assert_eq!(command_path_from(None, "/x/p"), "/x/p");
}

#[test]
fn resolve_prebuild_command_uses_relative_input_and_output_placeholders() {
    let command = resolve_prebuild_command(
        "generate --inputs $input --outputs $output",
        "module",
        "module/_build/__moonbin__",
        "module/src/lib",
        &prebuild_command_paths(
            "module",
            &vec![
                "module/src/lib/input.txt".to_string(),
                "module/src/lib/../assets/second.txt".to_string(),
            ],
        ),
        &prebuild_command_paths(
            "module",
            &vec![
                "module/src/lib/generated.mbt".to_string(),
                "module/src/lib/./generated_2.mbt".to_string(),
            ],
        ),
    )
    .expect("the placeholder automaton builds");

    assert_eq!(
        command,
        "generate --inputs ./src/lib/input.txt ./src/assets/second.txt --outputs ./src/lib/generated.mbt ./src/lib/generated_2.mbt"
    );
}

#[test]
fn placeholders_name_directories() {
    let s = substitute_prebuild_placeholders(
        "$mooncake_bin/tool $mod_dir $pkg_dir",
        "m",
        "bin",
        "m/p",
        &vec![],
        &vec![],
    )
    .unwrap();
    assert_eq!(s, "bin/tool m m/p");
}

#[test]
fn relative_first_word_is_resolved_against_the_module() {
    let cmd = resolve_prebuild_command("./gen.sh $input", "mod", "bin", "mod/p", &vec!["a".to_string()], &vec![])
        .unwrap();
    assert_eq!(cmd, "mod/./gen.sh a");
    let cmd = resolve_prebuild_command("/usr/bin/gen $input", "mod", "bin", "mod/p", &vec!["a".to_string()], &vec![])
        .unwrap();
    assert_eq!(cmd, "/usr/bin/gen a");
    assert_eq!(
        finish_prebuild_command("tool x".to_string(), Some("tool".to_string()), "mod"),
        "tool x"
    );
    assert_eq!(
        finish_prebuild_command("bin/tool x".to_string(), Some("bin/tool".to_string()), "mod"),
        "mod/bin/tool x"
    );
    assert_eq!(finish_prebuild_command(String::new(), None, "mod"), "");
}

#[test]
fn resolve_prebuild_rule_command_uses_module_rule() {
    let module_rules = Some(vec![rule("rule1", "exe1"), rule("rule2", "exe2")]);

    assert_eq!(
        resolve_prebuild_rule_command(None, &module_rules, "rule2", test_package())
            .expect("rule2 should resolve"),
        "exe2"
    );
}

#[test]
fn resolve_prebuild_rule_command_uses_package_local_rule() {
    let module_rules = Some(vec![rule("module_rule", "module_exe")]);
    let local_rules = vec![rule("local_rule", "local_exe")];

    assert_eq!(
        resolve_prebuild_rule_command(Some(&local_rules), &module_rules, "local_rule", test_package())
            .expect("local rule should resolve"),
        "local_exe"
    );
}

#[test]
fn resolve_prebuild_rule_command_prefers_package_local_rule() {
    let module_rules = Some(vec![rule("rule1", "module_exe")]);
    let local_rules = vec![rule("rule1", "local_exe")];

    assert_eq!(
        resolve_prebuild_rule_command(Some(&local_rules), &module_rules, "rule1", test_package())
            .expect("local rule should shadow module rule"),
        "local_exe"
    );
}

#[test]
fn resolve_prebuild_rule_command_rejects_unknown_rule() {
    let module_rules = Some(vec![rule("rule1", "exe1")]);

    let err = resolve_prebuild_rule_command(None, &module_rules, "missing", test_package())
        .expect_err("missing rule should fail");
    let BuildPlanConstructError::InvalidPrebuildRule { package, message } = err else {
        panic!("an unknown rule should be reported as an invalid prebuild rule");
    };
    assert!(message.contains("Unknown dev_build rule"));
    assert_eq!(message, "Unknown dev_build rule `missing` in moon.pkg.");
    assert_eq!(package, test_package());
}

#[test]
fn cat_opt_concatenates_what_is_present() {
    assert_eq!(cat_opt(Some("a".to_string()), Some("b")), Some("ab".to_string()));
    assert_eq!(cat_opt(Some("a".to_string()), None), Some("a".to_string()));
    assert_eq!(cat_opt(None, Some("b")), Some("b".to_string()));
    assert_eq!(cat_opt(None, None), None);
}

#[test]
fn llvm_dsym_is_generated_for_debug_builds_on_macos() {
    assert!(should_generate_llvm_dsym(true, OperatingSystem::MacOS));
    assert!(!should_generate_llvm_dsym(true, OperatingSystem::Linux));
    assert!(!should_generate_llvm_dsym(false, OperatingSystem::MacOS));
}

#[test]
fn a_command_without_placeholders_passes_through() {
    let s = substitute_prebuild_placeholders("gen --flag out.txt", "mod", "bin", "mod/p", &vec![], &vec![]);
    assert_eq!(s, Some("gen --flag out.txt".to_string()));
}
