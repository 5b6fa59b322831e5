use moonbuild_rupes_recta::build_lower::layout::LegacyLayout;
use moonbuild_rupes_recta::discover::model::{DiscoverResult, DiscoveredPackage, PackageConfig};
use moonbuild_rupes_recta::model::{
    BuildTarget, ModuleId, OperatingSystem, OptLevel, PackageId, RunMode, TargetBackend,
    TargetKind,
};

fn package(module: u64, module_name: &str, path: &str) -> DiscoveredPackage {
    DiscoveredPackage {
        root_path: format!("/src/{path}"),
        module: ModuleId(module),
        module_name: module_name.to_string(),
        package_path: path.to_string(),
        is_single_file: false,
        raw: PackageConfig {
            virtual_pkg: None,
            implement: None,
            is_main: false,
            imports: Vec::new(),
            test_imports: Vec::new(),
            wbtest_imports: Vec::new(),
            wasm_exports: None,
            wasm_gc_exports: None,
            js_exports: None,
            native_exports: None,
            native_stub: None,
            warn_list: None,
            proof_enabled: false,
        },
        source_files: Vec::new(),
        mbt_lex_files: Vec::new(),
        mbt_yacc_files: Vec::new(),
        mbt_md_files: Vec::new(),
        mbtp_files: Vec::new(),
        c_stub_files: Vec::new(),
        c_stub_header_files: Vec::new(),
        virtual_mbti_files: Vec::new(),
        is_stdlib: false,
    }
}

fn layout() -> LegacyLayout {
    LegacyLayout {
        target_base_dir: "target".to_string(),
        main_module: Some(ModuleId(0)),
        stdlib_dir: Some("/core".to_string()),
        opt_level: OptLevel::Debug,
        run_mode: RunMode::Build,
    }
}

fn packages() -> DiscoverResult {
    let mut res = DiscoverResult::new();
    res.add_package(ModuleId(0), "main".to_string(), package(0, "user/app", "main")).unwrap();
    res.add_package(ModuleId(1), "util".to_string(), package(1, "dep/lib", "util")).unwrap();
    res.add_package(ModuleId(0), "".to_string(), package(0, "user/app", "")).unwrap();
    let abort = res
        .add_package(ModuleId(2), "abort".to_string(), package(2, "moonbitlang/core", "abort"))
        .unwrap();
    res.set_abort_pkg(abort);
    res
}

fn target(package: u64, kind: TargetKind) -> BuildTarget {
    BuildTarget { package: PackageId(package), kind }
}

#[test]
fn package_dirs_nest_non_main_modules() {
    let l = layout();
    let res = packages();
    assert_eq!(
        l.package_dir(res.get_package(PackageId(0)), TargetBackend::Native),
        "target/native/debug/build/main"
    );
    assert_eq!(
        l.package_dir(res.get_package(PackageId(1)), TargetBackend::WasmGC),
        "target/wasm-gc/debug/build/.mooncakes/dep/lib/util"
    );
    assert_eq!(
        l.package_dir(res.get_package(PackageId(2)), TargetBackend::Js),
        "target/js/debug/build"
    );
    let release_check = LegacyLayout {
        opt_level: OptLevel::Release,
        run_mode: RunMode::Check,
        ..layout()
    };
    assert_eq!(
        release_check.package_dir(res.get_package(PackageId(0)), TargetBackend::Wasm),
        "target/wasm/release/check/main"
    );
}

#[test]
fn target_artifacts_use_alias_and_kind_suffix() {
    let l = layout();
    let res = packages();
    assert_eq!(
        l.core_of_build_target(&res, &target(0, TargetKind::Source), TargetBackend::Native),
        "target/native/debug/build/main/main.core"
    );
    assert_eq!(
        l.mi_of_build_target(&res, &target(0, TargetKind::WhiteboxTest), TargetBackend::Native),
        "target/native/debug/build/main/main.whitebox_test.mi"
    );
    assert_eq!(
        l.core_of_build_target(&res, &target(2, TargetKind::Source), TargetBackend::Wasm),
        "target/wasm/debug/build/app.core"
    );
    assert_eq!(
        l.core_of_build_target(&res, &target(3, TargetKind::Source), TargetBackend::Native),
        "/core/target/native/release/bundle/abort/abort.core"
    );
    assert_eq!(
        l.mi_of_build_target(&res, &target(3, TargetKind::Source), TargetBackend::Js),
        "/core/target/js/release/bundle/abort/abort.mi"
    );
    assert_eq!(
        l.linked_core_of_build_target(
            &res,
            &target(0, TargetKind::BlackboxTest),
            TargetBackend::LLVM,
            OperatingSystem::Windows,
            false
        ),
        "target/llvm/debug/build/main/main.blackbox_test.obj"
    );
    assert_eq!(
        l.executable_of_build_target(
            &res,
            &target(0, TargetKind::Source),
            TargetBackend::Native,
            OperatingSystem::Linux,
            false,
            false
        ),
        "target/native/debug/build/main/main"
    );
    assert_eq!(
        l.executable_of_build_target(
            &res,
            &target(0, TargetKind::Source),
            TargetBackend::WasmGC,
            OperatingSystem::NoOs,
            false,
            true
        ),
        "target/wasm-gc/debug/build/main/main.wat"
    );
    assert_eq!(
        l.generated_test_driver(&res, &target(0, TargetKind::BlackboxTest), TargetBackend::Js),
        "target/js/debug/build/main/main__generated_driver_for.blackbox_test.mbt"
    );
    assert_eq!(
        l.generated_test_driver_metadata(&res, &target(0, TargetKind::InlineTest), TargetBackend::Js),
        "target/js/debug/build/main/__.inline_test_test_info.json"
    );
}

#[test]
fn shared_and_c_stub_paths() {
    let l = layout();
    let res = packages();
    assert_eq!(l.bundle_result_path(TargetBackend::Wasm, "moonbitlang/core"), "target/wasm/core.core");
    assert_eq!(
        l.runtime_output_path(TargetBackend::Native, OperatingSystem::Linux),
        "target/native/runtime.o"
    );
    assert_eq!(
        l.c_stub_object_path(&res, PackageId(1), "stub", TargetBackend::Native, OperatingSystem::Windows),
        "target/native/debug/build/.mooncakes/dep/lib/util/stub.obj"
    );
    assert_eq!(
        l.c_stub_archive_path(&res, PackageId(0), TargetBackend::Native, OperatingSystem::MacOS),
        "target/native/debug/build/main/libmain.a"
    );
    assert_eq!(
        l.format_artifact_path(res.get_package(PackageId(0)), "lib.mbt"),
        "target/wasm-gc/debug/build/main/lib.mbt"
    );
    assert_eq!(l.mi_of_pkg_without_backend(res.get_package(PackageId(0))), "main/main.mi");
    assert_eq!(
        l.mi_of_pkg_without_backend(res.get_package(PackageId(1))),
        ".mooncakes/dep/lib/util/util.mi"
    );
    assert_eq!(l.generated_mbti_path("/src/main"), "/src/main/pkg.generated.mbti");
    assert_eq!(l.doc_dir(), "target/doc");
    assert_eq!(l.packages_json_path(), "target/packages.json");
}
