use moonbuild_rupes_recta::all_pkgs::{all_pkgs_json_of_entries, gen_all_pkgs_json, PackageArtifactJSON};
use moonbuild_rupes_recta::build_lower::layout::LegacyLayout;
use moonbuild_rupes_recta::discover::model::{DiscoverResult, DiscoveredPackage, PackageConfig};
use moonbuild_rupes_recta::model::{ModuleId, OptLevel, RunMode, TargetBackend};
use moonbuild_rupes_recta::model::PackageId;

fn entry(root: &str, rel: &str, artifact: &str) -> PackageArtifactJSON {
    PackageArtifactJSON {
        root: root.to_string(),
        rel: rel.to_string(),
        artifact: artifact.to_string(),
    }
}

#[test]
fn packages_are_sorted_by_module_then_path_without_abort() {
    let json = all_pkgs_json_of_entries(
        vec![
            (PackageId(1), entry("b/mod", "x", "1.mi")),
            (PackageId(2), entry("a/mod", "y", "2.mi")),
            (PackageId(3), entry("moonbitlang/core", "abort", "3.mi")),
            (PackageId(4), entry("a/mod", "", "4.mi")),
            (PackageId(5), entry("a/mod", "y", "5.mi")),
        ],
        Some(PackageId(3)),
    );
    assert_eq!(
        json.packages,
        vec![
            entry("a/mod", "", "4.mi"),
            entry("a/mod", "y", "2.mi"),
            entry("a/mod", "y", "5.mi"),
            entry("b/mod", "x", "1.mi"),
        ]
    );
}

#[test]
fn without_an_abort_package_every_package_is_kept() {
    let json = all_pkgs_json_of_entries(
        vec![
            (PackageId(1), entry("z", "a", "1.mi")),
            (PackageId(2), entry("é", "a", "2.mi")),
            (PackageId(3), entry("Z", "a", "3.mi")),
        ],
        None,
    );
    let roots: Vec<&str> = json.packages.iter().map(|p| p.root.as_str()).collect();
    assert_eq!(roots, vec!["Z", "z", "é"]);
}

#[test]
fn all_pkgs_json_lists_mi_files_of_discovered_packages_without_abort() {
    let package = |module: u64, module_name: &str, path: &str| DiscoveredPackage {
        root_path: format!("/src/{path}"),
        module: ModuleId(module),
        module_name: module_name.to_string(),
        package_path: path.to_string(),
        is_single_file: false,
        raw: PackageConfig {
            virtual_pkg: None,
            implement: None,
            is_main: false,
            imports: Vec::new(),
            test_imports: Vec::new(),
            wbtest_imports: Vec::new(),
            wasm_exports: None,
            wasm_gc_exports: None,
            js_exports: None,
            native_exports: None,
            native_stub: None,
            warn_list: None,
            proof_enabled: false,
        },
        source_files: Vec::new(),
        mbt_lex_files: Vec::new(),
        mbt_yacc_files: Vec::new(),
        mbt_md_files: Vec::new(),
        mbtp_files: Vec::new(),
        c_stub_files: Vec::new(),
        c_stub_header_files: Vec::new(),
        virtual_mbti_files: Vec::new(),
        is_stdlib: false,
    };
    let mut res = DiscoverResult::new();
    res.add_package(ModuleId(0), "z".to_string(), package(0, "user/app", "z")).unwrap();
    let abort = res
        .add_package(ModuleId(1), "abort".to_string(), package(1, "moonbitlang/core", "abort"))
        .unwrap();
    res.add_package(ModuleId(0), "a".to_string(), package(0, "user/app", "a")).unwrap();
    res.set_abort_pkg(abort);
    let layout = LegacyLayout {
        target_base_dir: "target".to_string(),
        main_module: Some(ModuleId(0)),
        stdlib_dir: None,
        opt_level: OptLevel::Release,
        run_mode: RunMode::Check,
    };

    let json = gen_all_pkgs_json(&res, &layout, TargetBackend::WasmGC);
    assert_eq!(
        json.packages,
        vec![
            PackageArtifactJSON {
                root: "user/app".to_string(),
                rel: "a".to_string(),
                artifact: "target/wasm-gc/release/check/a/a.mi".to_string(),
            },
            PackageArtifactJSON {
                root: "user/app".to_string(),
                rel: "z".to_string(),
                artifact: "target/wasm-gc/release/check/z/z.mi".to_string(),
            },
        ]
    );
}
