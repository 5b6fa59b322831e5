use moonbuild_rupes_recta::build_plan::link_core::dfs_link_core_sources;
use moonbuild_rupes_recta::build_plan::prebuild::BuildPlanConstructError;
use moonbuild_rupes_recta::build_plan::traversal::DepGraph;
use moonbuild_rupes_recta::discover::model::{DiscoverResult, DiscoveredPackage, PackageConfig};
use moonbuild_rupes_recta::model::{BuildTarget, ModuleId, PackageId, TargetKind};

fn package(module: u64, module_name: &str, path: &str, stubs: &[&str], virtual_pkg: Option<bool>, stdlib: bool) -> DiscoveredPackage {
    DiscoveredPackage {
        root_path: format!("/src/{path}"),
        module: ModuleId(module),
        module_name: module_name.to_string(),
        package_path: path.to_string(),
        is_single_file: false,
        raw: PackageConfig {
            virtual_pkg,
            implement: None,
            is_main: false,
            imports: Vec::new(),
            test_imports: Vec::new(),
            wbtest_imports: Vec::new(),
            wasm_exports: None,
            wasm_gc_exports: None,
            js_exports: None,
            native_exports: None,
            native_stub: None,
            warn_list: None,
            proof_enabled: false,
        },
        source_files: Vec::new(),
        mbt_lex_files: Vec::new(),
        mbt_yacc_files: Vec::new(),
        mbt_md_files: Vec::new(),
        mbtp_files: Vec::new(),
        c_stub_files: stubs.iter().map(|s| s.to_string()).collect(),
        c_stub_header_files: Vec::new(),
        virtual_mbti_files: Vec::new(),
        is_stdlib: stdlib,
    }
}

fn src(p: u64) -> BuildTarget {
    BuildTarget { package: PackageId(p), kind: TargetKind::Source }
}

fn packages() -> DiscoverResult {
    let mut res = DiscoverResult::new();
    res.add_package(ModuleId(0), "main".into(), package(0, "user/app", "main", &[], None, false)).unwrap(); // 0
    res.add_package(ModuleId(0), "lib".into(), package(0, "user/app", "lib", &["stub.c"], None, false)).unwrap(); // 1
    res.add_package(ModuleId(0), "iface".into(), package(0, "user/app", "iface", &[], Some(false), false)).unwrap(); // 2
    res.add_package(ModuleId(0), "impl".into(), package(0, "user/app", "impl", &[], None, false)).unwrap(); // 3
    let abort = res
        .add_package(ModuleId(1), "abort".into(), package(1, "moonbitlang/core", "abort", &[], None, true))
        .unwrap(); // 4
    res.add_package(ModuleId(1), "builtin".into(), package(1, "moonbitlang/core", "builtin", &[], None, true)).unwrap(); // 5
    res.add_package(ModuleId(0), "myabort".into(), package(0, "user/app", "myabort", &[], None, false)).unwrap(); // 6
    res.set_abort_pkg(abort);
    res
}

fn graph() -> DepGraph {
    DepGraph {
        edges: vec![
            (src(0), vec![src(1), src(2), src(5)]),
            (src(1), vec![src(5)]),
            (src(3), vec![src(1)]),
        ],
    }
}

#[test]
fn link_sources_follow_overrides_and_skip_the_standard_library() {
    let res = packages();
    let (list, stubs, abort_overridden) =
        dfs_link_core_sources(&res, &graph(), &Some(vec![(PackageId(2), PackageId(3))]), true, true, src(0))
            .expect("every linked package has an implementation");
    assert_eq!(list, vec![src(1), src(3), src(0)]);
    assert_eq!(stubs, vec![PackageId(1)]);
    assert!(!abort_overridden);

    let (_, stubs, _) =
        dfs_link_core_sources(&res, &graph(), &Some(vec![(PackageId(2), PackageId(3))]), true, false, src(0))
            .unwrap();
    assert!(stubs.is_empty());
}

#[test]
fn linking_a_virtual_package_without_implementation_fails() {
    let res = packages();
    let err = dfs_link_core_sources(&res, &graph(), &None, true, true, src(0))
        .expect_err("the virtual package has no implementation");
    let BuildPlanConstructError::NoImplementationForVirtualPackage { package, dep } = err else {
        panic!("a missing implementation should be reported as such");
    };
    assert_eq!(package.name, "user/app/main");
    assert_eq!(dep.name, "user/app/iface");
}

#[test]
fn whitebox_test_takes_the_place_of_its_source() {
    let res = packages();
    let wb = BuildTarget { package: PackageId(0), kind: TargetKind::WhiteboxTest };
    let graph = DepGraph { edges: vec![(wb, vec![src(0)]), (src(0), vec![src(1)])] };
    let (list, _, _) = dfs_link_core_sources(&res, &graph, &None, false, true, wb).unwrap();
    assert_eq!(list, vec![src(1), wb]);
}

#[test]
fn abort_override_is_linked_from_the_root() {
    let res = packages();
    let graph = DepGraph { edges: vec![(src(0), vec![src(4)])] };
    let (list, _, abort_overridden) =
        dfs_link_core_sources(&res, &graph, &Some(vec![(PackageId(4), PackageId(6))]), true, false, src(0))
            .unwrap();
    assert_eq!(list, vec![src(6), src(0)]);
    assert!(abort_overridden);

    let (list, _, abort_overridden) =
        dfs_link_core_sources(&res, &graph, &None, true, false, src(0)).unwrap();
    assert_eq!(list, vec![src(0)]);
    assert!(!abort_overridden);
}

#[test]
fn dependencies_are_listed_before_their_dependents() {
    let res = packages();
    // 0 -> 3 -> 1, 0 -> 1: each target follows what it depends on.
    let graph = DepGraph { edges: vec![(src(0), vec![src(3), src(1)]), (src(3), vec![src(1)])] };
    let (list, _, _) = dfs_link_core_sources(&res, &graph, &None, false, true, src(0)).unwrap();
    assert_eq!(list, vec![src(1), src(3), src(0)]);
}

#[test]
fn whitebox_test_in_its_source_place_may_precede_its_own_dependencies() {
    let res = packages();
    let wb = BuildTarget { package: PackageId(0), kind: TargetKind::WhiteboxTest };
    // The test also depends on `myabort`, which is finished after the source.
    let graph = DepGraph { edges: vec![(wb, vec![src(0), src(6)]), (src(0), vec![src(1)])] };
    let (list, _, _) = dfs_link_core_sources(&res, &graph, &None, false, true, wb).unwrap();
    assert_eq!(list, vec![src(1), wb, src(6)]);
}
