use moonbuild_rupes_recta::discover::model::{
    DiscoverError, DiscoverResult, DiscoveredPackage, Import, PackageConfig,
};
use moonbuild_rupes_recta::discover::special_case::{
    inject_core_coverage_into_builtin, inject_std_abort,
};
use moonbuild_rupes_recta::model::{ModuleId, PackageId, TargetBackend};

fn config() -> PackageConfig {
    PackageConfig {
        virtual_pkg: None,
        implement: None,
        is_main: false,
        imports: vec![Import { path: "a/b".to_string(), alias: None }],
        test_imports: vec![Import { path: "a/c".to_string(), alias: Some("c".to_string()) }],
        wbtest_imports: Vec::new(),
        wasm_exports: None,
        wasm_gc_exports: Some(vec!["run".to_string()]),
        js_exports: None,
        native_exports: Some(vec!["main".to_string(), "init".to_string()]),
        native_stub: None,
        warn_list: None,
        proof_enabled: false,
    }
}

fn package(module: u64, module_name: &str, path: &str, files: &[&str], stdlib: bool) -> DiscoveredPackage {
    DiscoveredPackage {
        root_path: format!("/src/{module_name}/{path}"),
        module: ModuleId(module),
        module_name: module_name.to_string(),
        package_path: path.to_string(),
        is_single_file: false,
        raw: config(),
        source_files: files.iter().map(|f| f.to_string()).collect(),
        mbt_lex_files: Vec::new(),
        mbt_yacc_files: Vec::new(),
        mbt_md_files: Vec::new(),
        mbtp_files: Vec::new(),
        c_stub_files: Vec::new(),
        c_stub_header_files: Vec::new(),
        virtual_mbti_files: Vec::new(),
        is_stdlib: stdlib,
    }
}

#[test]
fn packages_are_indexed_by_module_path_and_name() {
    let mut res = DiscoverResult::new();
    let a = res
        .add_package(ModuleId(0), "main".to_string(), package(0, "user/app", "main", &[], false))
        .expect("first package should be added");
    let b = res
        .add_package(ModuleId(0), "".to_string(), package(0, "user/app", "", &[], false))
        .expect("root package should be added");
    let c = res
        .add_package(ModuleId(1), "abort".to_string(), package(1, "moonbitlang/core", "abort", &[], true))
        .expect("stdlib package should be added");

    assert_eq!((a, b, c), (PackageId(0), PackageId(1), PackageId(2)));
    assert_eq!(res.package_count(), 3);
    assert_eq!(res.get_package_id(ModuleId(0), "main"), Some(a));
    assert_eq!(res.get_package_id(ModuleId(0), ""), Some(b));
    assert_eq!(res.get_package_id(ModuleId(1), "main"), None);
    assert_eq!(res.get_package_id_by_name("user/app/main"), Some(a));
    assert_eq!(res.get_package_id_by_name("user/app"), Some(b));
    assert_eq!(res.get_package_id_by_name("moonbitlang/core/abort"), Some(c));
    assert_eq!(res.fqn(c).name, "moonbitlang/core/abort");
    assert_eq!(res.all_packages(false), vec![a, b, c]);
    assert_eq!(res.all_packages(true), vec![a, b]);
    assert!(res.is_stdlib_package(c));
    assert_eq!(res.resolve_pkg_src("user/app/main"), "/src/user/app/main");
    let module0 = res.packages_for_module(ModuleId(0)).expect("module 0 has packages");
    assert_eq!(module0.len(), 2);
    assert!(res.packages_for_module(ModuleId(7)).is_none());
    assert_eq!(res.abort_pkg(), None);
    res.set_abort_pkg(c);
    assert_eq!(res.abort_pkg(), Some(c));
}

#[test]
fn duplicated_package_names_are_reported_with_both_names() {
    let mut res = DiscoverResult::new();
    res.add_package(ModuleId(0), "x".to_string(), package(0, "a/b", "x", &[], false))
        .expect("first package should be added");
    let err = res
        .add_package(ModuleId(1), "b/x".to_string(), package(1, "a", "b/x", &[], false))
        .expect_err("same fully qualified name should conflict");
    match err {
        DiscoverError::ConflictingPackageNameString { first, second } => {
            assert_eq!(first, "a/b/x");
            assert_eq!(second, "a/b/x");
        }
        other => panic!("unexpected error {other:?}"),
    }
    // The second package stays registered and now owns the name.
    assert_eq!(res.package_count(), 2);
    assert_eq!(res.get_package_id_by_name("a/b/x"), Some(PackageId(1)));
}

#[test]
fn package_manifest_queries() {
    let mut pkg = package(0, "user/app", "main", &[], false);
    assert!(!pkg.is_virtual());
    assert!(pkg.has_implementation());
    assert_eq!(pkg.exported_functions(TargetBackend::Wasm), None);
    assert_eq!(
        pkg.exported_functions(TargetBackend::LLVM),
        Some(&vec!["main".to_string(), "init".to_string()])
    );
    assert_eq!(pkg.config_path(true), "/src/user/app/main/moon.pkg");
    assert_eq!(pkg.config_path(false), "/src/user/app/main/moon.pkg.json");
    pkg.raw.virtual_pkg = Some(false);
    assert!(pkg.is_virtual());
    assert!(!pkg.has_implementation());
    pkg.raw.virtual_pkg = Some(true);
    assert!(pkg.has_implementation());
    assert!(!pkg.is_virtual_impl());
    pkg.raw.implement = Some("user/app/iface".to_string());
    assert!(pkg.is_virtual_impl());
}

#[test]
fn coverage_sources_are_merged_into_builtin_in_path_order() {
    let mut res = DiscoverResult::new();
    let builtin = res
        .add_package(
            ModuleId(3),
            "builtin".to_string(),
            package(3, "moonbitlang/core", "builtin", &["b/z.mbt", "b/a.mbt"], true),
        )
        .unwrap();
    res.add_package(
        ModuleId(3),
        "coverage".to_string(),
        package(3, "moonbitlang/core", "coverage", &["c/m.mbt"], true),
    )
    .unwrap();

    let unchanged = res.clone();
    inject_core_coverage_into_builtin(None, &mut res).unwrap();
    assert_eq!(res.get_package(builtin).source_files, unchanged.get_package(builtin).source_files);
    inject_core_coverage_into_builtin(Some(ModuleId(4)), &mut res).unwrap();
    assert_eq!(res.get_package(builtin).source_files, vec!["b/z.mbt", "b/a.mbt"]);

    inject_core_coverage_into_builtin(Some(ModuleId(3)), &mut res).unwrap();
    assert_eq!(
        res.get_package(builtin).source_files,
        vec!["b/a.mbt", "b/z.mbt", "c/m.mbt"]
    );
}

#[test]
fn std_abort_is_registered_without_imports() {
    let mut res = DiscoverResult::new();
    inject_std_abort(None, &mut res).unwrap();
    assert_eq!(res.package_count(), 0);

    let abort = package(5, "moonbitlang/core", "abort", &["abort.mbt"], true);
    inject_std_abort(Some((ModuleId(5), abort)), &mut res).unwrap();
    let id = res.abort_pkg().expect("abort should be marked");
    assert_eq!(res.get_package_id(ModuleId(5), "abort"), Some(id));
    assert!(res.get_package(id).raw.imports.is_empty());
    assert!(res.get_package(id).raw.test_imports.is_empty());

    let again = package(5, "moonbitlang/core", "abort", &[], true);
    assert!(inject_std_abort(Some((ModuleId(5), again)), &mut res).is_err());
    assert_eq!(res.abort_pkg(), Some(id));
}
