use moonbuild_rupes_recta::build_plan::traversal::{topo_sort_module_packages, DepGraph};
use moonbuild_rupes_recta::discover::model::{DiscoverResult, DiscoveredPackage, PackageConfig};
use moonbuild_rupes_recta::model::{BuildTarget, ModuleId, PackageId, TargetKind};

fn package(module: u64, module_name: &str, path: &str) -> DiscoveredPackage {
    DiscoveredPackage {
        root_path: format!("/src/{path}"),
        module: ModuleId(module),
        module_name: module_name.to_string(),
        package_path: path.to_string(),
        is_single_file: false,
        raw: PackageConfig {
            virtual_pkg: None,
            implement: None,
            is_main: false,
            imports: Vec::new(),
            test_imports: Vec::new(),
            wbtest_imports: Vec::new(),
            wasm_exports: None,
            wasm_gc_exports: None,
            js_exports: None,
            native_exports: None,
            native_stub: None,
            warn_list: None,
            proof_enabled: false,
        },
        source_files: Vec::new(),
        mbt_lex_files: Vec::new(),
        mbt_yacc_files: Vec::new(),
        mbt_md_files: Vec::new(),
        mbtp_files: Vec::new(),
        c_stub_files: Vec::new(),
        c_stub_header_files: Vec::new(),
        virtual_mbti_files: Vec::new(),
        is_stdlib: false,
    }
}

fn source(p: u64) -> BuildTarget {
    BuildTarget { package: PackageId(p), kind: TargetKind::Source }
}

#[test]
fn module_packages_follow_their_dependencies() {
    let mut res = DiscoverResult::new();
    // Added out of name order on purpose.
    res.add_package(ModuleId(0), "b".to_string(), package(0, "user/app", "b")).unwrap(); // 0
    res.add_package(ModuleId(0), "a".to_string(), package(0, "user/app", "a")).unwrap(); // 1
    res.add_package(ModuleId(0), "c".to_string(), package(0, "user/app", "c")).unwrap(); // 2
    res.add_package(ModuleId(1), "d".to_string(), package(1, "dep/lib", "d")).unwrap(); // 3
    let graph = DepGraph {
        edges: vec![
            (source(1), vec![source(2), source(3)]),
            (source(0), vec![source(1), BuildTarget { package: PackageId(2), kind: TargetKind::BlackboxTest }]),
            (source(2), vec![]),
        ],
    };

    let order = topo_sort_module_packages(&res, &graph, ModuleId(0));
    assert_eq!(order, vec![source(2), source(1), source(0)]);
}

#[test]
fn independent_module_packages_come_in_name_order() {
    let mut res = DiscoverResult::new();
    res.add_package(ModuleId(4), "z".to_string(), package(4, "m/n", "z")).unwrap();
    res.add_package(ModuleId(4), "".to_string(), package(4, "m/n", "")).unwrap();
    res.add_package(ModuleId(4), "k".to_string(), package(4, "m/n", "k")).unwrap();
    let graph = DepGraph { edges: Vec::new() };

    let order = topo_sort_module_packages(&res, &graph, ModuleId(4));
    assert_eq!(order, vec![source(1), source(2), source(0)]);
}
