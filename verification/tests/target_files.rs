use moonbuild_rupes_recta::build_plan::target_files::{
    collect_package_file_set, main_package_blackbox_warning, mi_check_target, resolve_mbt_files_for_node,
    InputDirective, PackageFileSet,
};
use moonbuild_rupes_recta::discover::model::{DiscoveredPackage, PackageConfig};
use moonbuild_rupes_recta::discover::package_files::PackageSourceFileKind;
use moonbuild_rupes_recta::model::{BuildTarget, ModuleId, PackageId, RunMode, TargetBackend, TargetKind};

fn strings(v: &[&str]) -> Vec<String> {
    v.iter().map(|s| s.to_string()).collect()
}

fn config(is_main: bool, virtual_pkg: Option<bool>, warn_list: Option<&str>, proof_enabled: bool) -> PackageConfig {
    PackageConfig {
        virtual_pkg,
        implement: None,
        is_main,
        imports: Vec::new(),
        test_imports: Vec::new(),
        wbtest_imports: Vec::new(),
        wasm_exports: None,
        wasm_gc_exports: None,
        js_exports: None,
        native_exports: None,
        native_stub: None,
        warn_list: warn_list.map(|s| s.to_string()),
        proof_enabled,
    }
}

fn package(raw: PackageConfig) -> DiscoveredPackage {
    DiscoveredPackage {
        root_path: "/p".to_string(),
        module: ModuleId(0),
        module_name: "user/mod".to_string(),
        package_path: "lib".to_string(),
        is_single_file: false,
        raw,
        source_files: strings(&["/p/a.mbt", "/p/a_test.mbt", "/p/a_wbtest.mbt", "/p/b.js.mbt"]),
        mbt_lex_files: Vec::new(),
        mbt_yacc_files: Vec::new(),
        mbt_md_files: strings(&["/p/README.mbt.md"]),
        mbtp_files: strings(&["/p/x.mbtp"]),
        c_stub_files: Vec::new(),
        c_stub_header_files: Vec::new(),
        virtual_mbti_files: Vec::new(),
        is_stdlib: false,
    }
}

fn outputs() -> Vec<(String, Option<PackageSourceFileKind>)> {
    vec![
        ("/p/gen.mbt".to_string(), Some(PackageSourceFileKind::Mbt)),
        ("/p/gen.mbt.md".to_string(), Some(PackageSourceFileKind::MbtMd)),
        ("/p/other.txt".to_string(), None),
        ("/p/g.mbtp".to_string(), Some(PackageSourceFileKind::Mbtp)),
        ("/p/a.mbt".to_string(), Some(PackageSourceFileKind::Mbt)),
    ]
}

fn file_set() -> PackageFileSet {
    collect_package_file_set(&package(config(false, None, None, false)), false, &outputs(), &Vec::new(), TargetBackend::WasmGC)
}

#[test]
fn package_file_set_splits_sources_by_test_kind_and_backend() {
    let set = file_set();
    assert_eq!(set.no_test_files, strings(&["/p/a.mbt", "/p/gen.mbt"]));
    assert_eq!(set.whitebox_files, strings(&["/p/a_wbtest.mbt"]));
    assert_eq!(set.blackbox_files, strings(&["/p/README.mbt.md", "/p/a_test.mbt", "/p/gen.mbt.md"]));
    assert_eq!(set.mbtp_files, strings(&["/p/g.mbtp", "/p/x.mbtp"]));
}

#[test]
fn stated_conditions_decide_over_file_names() {
    let conditions = vec![("a.mbt".to_string(), false), ("b.js.mbt".to_string(), true)];
    let set = collect_package_file_set(
        &package(config(false, None, None, false)),
        false,
        &Vec::new(),
        &conditions,
        TargetBackend::WasmGC,
    );
    assert_eq!(set.no_test_files, strings(&["/p/b.js.mbt"]));
}

#[test]
fn standalone_script_sources_are_all_regular_inputs() {
    let set = collect_package_file_set(
        &package(config(false, None, None, false)),
        true,
        &Vec::new(),
        &Vec::new(),
        TargetBackend::Js,
    );
    assert_eq!(
        set.no_test_files,
        strings(&["/p/a.mbt", "/p/a_test.mbt", "/p/a_wbtest.mbt", "/p/b.js.mbt"])
    );
    assert!(set.whitebox_files.is_empty());
    assert_eq!(set.blackbox_files, strings(&["/p/README.mbt.md"]));
}

fn directive() -> InputDirective {
    InputDirective {
        specify_no_mi_for: Some(PackageId(0)),
        specify_patch_file: Some((BuildTarget { package: PackageId(0), kind: TargetKind::Source }, "/p.patch".to_string())),
        prove_why3_config: None,
        proof_prelude: Some("prelude".to_string()),
        value_tracing: Some(PackageId(1)),
    }
}

#[test]
fn target_inputs_follow_the_target_kind() {
    let set = file_set();
    let pkg = package(config(false, None, None, false));
    let source = BuildTarget { package: PackageId(0), kind: TargetKind::Source };
    let info = resolve_mbt_files_for_node(source, RunMode::Check, &set, &pkg, None, &None, &None, &directive());
    assert_eq!(info.regular_files, set.no_test_files);
    assert_eq!(info.mbtp_files, set.mbtp_files);
    assert!(info.whitebox_files.is_empty() && info.doctest_files.is_empty());
    assert!(info.specified_no_mi);
    assert_eq!(info.patch_file, Some("/p.patch".to_string()));
    assert_eq!(info.proof_prelude, Some("prelude".to_string()));
    assert!(!info.value_tracing);
    assert_eq!(info.check_mi_against, None);

    let info = resolve_mbt_files_for_node(source, RunMode::Build, &set, &pkg, None, &None, &None, &directive());
    assert!(info.mbtp_files.is_empty());

    let wb = BuildTarget { package: PackageId(0), kind: TargetKind::WhiteboxTest };
    let info = resolve_mbt_files_for_node(wb, RunMode::Test, &set, &pkg, None, &None, &None, &directive());
    assert_eq!(info.regular_files, set.no_test_files);
    assert_eq!(info.whitebox_files, set.whitebox_files);
    assert_eq!(info.patch_file, None);

    let bb = BuildTarget { package: PackageId(0), kind: TargetKind::BlackboxTest };
    let info = resolve_mbt_files_for_node(bb, RunMode::Check, &set, &pkg, None, &None, &None, &directive());
    assert_eq!(info.regular_files, set.blackbox_files);
    assert!(info.mbtp_files.is_empty());
    assert_eq!(info.doctest_files, set.no_test_files);
}

#[test]
fn warn_list_joins_module_package_proof_and_command_line_settings() {
    let set = file_set();
    let pkg = package(config(false, None, Some("-b"), true));
    let source = BuildTarget { package: PackageId(0), kind: TargetKind::Source };
    let module = Some("+a".to_string());
    let cli = Some("@c".to_string());
    let info = resolve_mbt_files_for_node(source, RunMode::Build, &set, &pkg, None, &module, &cli, &directive());
    assert_eq!(info.warn_list, Some("+a-b-1-2-3-29@c".to_string()));
    let info = resolve_mbt_files_for_node(source, RunMode::Prove, &set, &pkg, None, &module, &cli, &directive());
    assert_eq!(info.warn_list, Some("+a-b@c".to_string()));
    let info = resolve_mbt_files_for_node(source, RunMode::Check, &set, &package(config(false, None, None, false)), None, &None, &None, &directive());
    assert_eq!(info.warn_list, None);
}

#[test]
fn interfaces_are_checked_against_the_virtual_declaration() {
    let source = BuildTarget { package: PackageId(3), kind: TargetKind::Source };
    let virtual_with_default = package(config(false, Some(true), None, false));
    assert_eq!(mi_check_target(source, &virtual_with_default, None), Some(source));
    let implementation = package(config(false, None, None, false));
    assert_eq!(
        mi_check_target(source, &implementation, Some(PackageId(7))),
        Some(BuildTarget { package: PackageId(7), kind: TargetKind::Source })
    );
    assert_eq!(mi_check_target(source, &implementation, None), None);
    let test = BuildTarget { package: PackageId(3), kind: TargetKind::WhiteboxTest };
    assert_eq!(mi_check_target(test, &implementation, Some(PackageId(7))), None);
}

#[test]
fn main_package_with_blackbox_inputs_is_warned_about() {
    let files = vec![
        ("/p/main.mbt".to_string(), Some(PackageSourceFileKind::Mbt)),
        ("/p/main_test.mbt".to_string(), Some(PackageSourceFileKind::Mbt)),
        ("/p/README.mbt.md".to_string(), Some(PackageSourceFileKind::MbtMd)),
    ];
    let main = package(config(true, None, None, false));
    assert_eq!(
        main_package_blackbox_warning(&main, &files),
        Some(
            "Main package `user/mod/lib` uses blackbox-only test inputs (`_test.mbt` files, `.mbt.md` files) in package directory \"/p\". Main packages will stop generating blackbox tests in a future release. Move public behavior into a non-main package and keep the main package as an entrypoint."
                .to_string()
        )
    );
    assert_eq!(main_package_blackbox_warning(&main, &files[..1].to_vec()), None);
    assert_eq!(main_package_blackbox_warning(&package(config(false, None, None, false)), &files), None);
    let docs_only = main_package_blackbox_warning(&main, &files[2..].to_vec()).unwrap();
    assert!(docs_only.contains("(`.mbt.md` files)"));
}
