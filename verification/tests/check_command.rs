use moonbuild_rupes_recta::build_lower::compiler::build_common::BuildCommonArgs;
use moonbuild_rupes_recta::build_lower::compiler::check::MooncCheck;
use moonbuild_rupes_recta::build_lower::compiler::{
    CmdlineAbstraction, ErrorFormat, MiDependency, PackageFQN, WarnAlertConfig,
};
use moonbuild_rupes_recta::model::TargetBackend;

fn strs(v: &[&str]) -> Vec<String> {
    v.iter().map(|s| s.to_string()).collect()
}

fn check(no_mi: bool) -> MooncCheck {
    let mut common = BuildCommonArgs::new(
        strs(&["a.mbt"]),
        vec![MiDependency::no_alias("d.mi".to_string())],
        PackageFQN { name: "u/m/p".to_string() },
        "/src/p".to_string(),
        TargetBackend::WasmGC,
    );
    common.error_format = ErrorFormat::Json;
    common.warn_config = WarnAlertConfig::DenyAll;
    common.alert_config = WarnAlertConfig::List("+x".to_string());
    common.is_main = true;
    common.stdlib_core_file = Some("/core".to_string());
    MooncCheck {
        common,
        patch_file_args: vec![],
        no_mi,
        doctest_only_args: vec![],
        include_doctests_args: vec![],
        mi_out: "p.mi".to_string(),
        single_file: true,
        test_kind_args: vec![],
        workspace_root_args: vec![],
        all_pkgs_args: vec![],
        extra_flags: strs(&["-extra"]),
    }
}

#[test]
fn check_command_lays_out_its_arguments_in_order() {
    assert_eq!(
        check(false).build_command("moonc"),
        strs(&[
            "moonc", "check", "-error-format", "json", "-w", "@a", "-alert", "@all-raise-throw-unsafe+deprecated",
            "a.mbt", "-alert", "+x", "-o", "p.mi", "-pkg", "u/m/p", "-is-main", "-single-file", "-std-path",
            "/core", "-i", "d.mi:d.mi", "-pkg-sources", "u/m/p:/src/p", "-target", "wasm-gc", "-extra",
        ])
    );
}

#[test]
fn check_without_mi_output_omits_the_output() {
    let mut args = Vec::new();
    check(true).to_args(&mut args);
    assert_eq!(&args[..2], &strs(&["check", "-no-mi"])[..]);
    assert!(!args.contains(&"-o".to_string()));
}
