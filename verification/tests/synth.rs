use moonbuild_rupes_recta::discover::model::{
    DiscoverError, DiscoverResult, DiscoveredPackage, Import, PackageConfig,
};
use moonbuild_rupes_recta::discover::special_case::inject_std_abort;
use moonbuild_rupes_recta::discover::synth::{
    build_synth_single_file_package, file_is_markdown, path_has_internal_segment,
};
use moonbuild_rupes_recta::model::{ModuleId, PackageId};

fn config() -> PackageConfig {
    PackageConfig {
        virtual_pkg: None,
        implement: None,
        is_main: false,
        imports: Vec::new(),
        test_imports: Vec::new(),
        wbtest_imports: Vec::new(),
        wasm_exports: None,
        wasm_gc_exports: None,
        js_exports: None,
        native_exports: None,
        native_stub: None,
        warn_list: None,
        proof_enabled: false,
    }
}

fn package(module: u64, module_name: &str, path: &str, stdlib: bool) -> DiscoveredPackage {
    DiscoveredPackage {
        root_path: format!("/src/{module_name}/{path}"),
        module: ModuleId(module),
        module_name: module_name.to_string(),
        package_path: path.to_string(),
        is_single_file: false,
        raw: config(),
        source_files: Vec::new(),
        mbt_lex_files: Vec::new(),
        mbt_yacc_files: Vec::new(),
        mbt_md_files: Vec::new(),
        mbtp_files: Vec::new(),
        c_stub_files: Vec::new(),
        c_stub_header_files: Vec::new(),
        virtual_mbti_files: Vec::new(),
        is_stdlib: stdlib,
    }
}

fn import(path: &str, alias: Option<&str>) -> Import {
    Import { path: path.to_string(), alias: alias.map(|a| a.to_string()) }
}

#[test]
fn synthetic_package_imports_every_package_but_abort_and_internal_ones() {
    let mut res = DiscoverResult::new();
    let core = ModuleId(0);
    let local = ModuleId(1);
    res.add_package(core, "array".to_string(), package(0, "moonbitlang/core", "array", true)).unwrap();
    res.add_package(core, "immut/array".to_string(), package(0, "moonbitlang/core", "immut/array", true))
        .unwrap();
    res.add_package(core, "builtin/internal/x".to_string(), package(0, "moonbitlang/core", "builtin/internal/x", true))
        .unwrap();
    res.add_package(ModuleId(2), "json".to_string(), package(2, "user/lib", "json", false)).unwrap();
    inject_std_abort(Some((core, package(0, "moonbitlang/core", "abort", true))), &mut res).unwrap();
    assert_eq!(res.abort_pkg(), Some(PackageId(4)));

    let id = build_synth_single_file_package(&mut res, local, "local/single", "/work/main.mbt", "/work", true)
        .expect("synthetic package should be added");
    assert_eq!(id, PackageId(5));
    let pkg = res.get_package(id);
    assert_eq!(pkg.fqn().name, "local/single/single");
    assert!(pkg.is_single_file);
    assert!(pkg.raw.is_main);
    assert_eq!(pkg.root_path, "/work");
    assert_eq!(pkg.source_files, vec!["/work/main.mbt"]);
    assert!(pkg.mbt_md_files.is_empty());
    assert_eq!(
        pkg.raw.imports,
        vec![
            import("moonbitlang/core/array", None),
            import("moonbitlang/core/immut/array", Some("immut/array")),
            import("user/lib/json", None),
        ]
    );
    assert_eq!(res.get_package_id_by_name("local/single/single"), Some(id));
}

#[test]
fn synthetic_markdown_source_goes_to_the_markdown_list() {
    let mut res = DiscoverResult::new();
    let id = build_synth_single_file_package(&mut res, ModuleId(0), "a/b", "/w/doc.mbt.md", "/w", false)
        .expect("synthetic package should be added");
    let pkg = res.get_package(id);
    assert!(pkg.source_files.is_empty());
    assert_eq!(pkg.mbt_md_files, vec!["/w/doc.mbt.md"]);
    assert!(!pkg.raw.is_main);
    assert!(pkg.raw.imports.is_empty());
}

#[test]
fn synthetic_package_name_clash_is_reported() {
    let mut res = DiscoverResult::new();
    res.add_package(ModuleId(0), "single".to_string(), package(0, "a/b", "single", false)).unwrap();
    let err = build_synth_single_file_package(&mut res, ModuleId(0), "a/b", "/w/x.mbt", "/w", false)
        .expect_err("the name is taken");
    assert!(matches!(err, DiscoverError::ConflictingPackageNameString { .. }));
}

#[test]
fn internal_segments_and_markdown_names() {
    assert!(path_has_internal_segment("internal"));
    assert!(path_has_internal_segment("a/internal/b"));
    assert!(!path_has_internal_segment("a/internals"));
    assert!(!path_has_internal_segment(""));
    assert!(file_is_markdown("/w/a.mbt.md"));
    assert!(!file_is_markdown("/w/a.mbt"));
    assert!(!file_is_markdown("/w/.md"));
}

#[test]
fn abort_package_is_recorded_by_name() {
    let mut res = DiscoverResult::new();
    res.add_package(ModuleId(0), "array".to_string(), package(0, "moonbitlang/core", "array", true)).unwrap();
    moonbuild_rupes_recta::discover::record_abort_package(&mut res);
    assert_eq!(res.abort_pkg(), None);
    res.add_package(ModuleId(0), "abort".to_string(), package(0, "moonbitlang/core", "abort", true)).unwrap();
    moonbuild_rupes_recta::discover::record_abort_package(&mut res);
    assert_eq!(res.abort_pkg(), Some(PackageId(1)));
}
