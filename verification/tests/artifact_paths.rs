use moonbuild_rupes_recta::build_lower::artifact::{
    abort_core_path, abort_mi_path, artifact, build_kind_suffix, core_bundle_path, core_core_path,
    dynamic_library_ext, executable_ext, linked_core_artifact_ext, make_executable_artifact_ext,
    object_file_ext, short_alias, static_library_ext,
};
use moonbuild_rupes_recta::build_lower::compiler::PackageFQN;
use moonbuild_rupes_recta::discover::get_immut_alias;
use moonbuild_rupes_recta::model::{OperatingSystem, TargetBackend, TargetKind};

#[test]
fn extensions_follow_backend_and_os() {
    assert_eq!(object_file_ext(OperatingSystem::Windows), ".obj");
    assert_eq!(object_file_ext(OperatingSystem::Linux), ".o");
    assert_eq!(static_library_ext(OperatingSystem::Windows), ".lib");
    assert_eq!(static_library_ext(OperatingSystem::MacOS), ".a");
    assert_eq!(dynamic_library_ext(OperatingSystem::Windows), ".dll");
    assert_eq!(dynamic_library_ext(OperatingSystem::Linux), ".so");
    assert_eq!(dynamic_library_ext(OperatingSystem::MacOS), ".dylib");
    assert_eq!(executable_ext(OperatingSystem::NoOs, true), ".exe");
    assert_eq!(executable_ext(OperatingSystem::Linux, false), "");
    assert_eq!(executable_ext(OperatingSystem::Windows, false), ".exe");
    assert_eq!(
        linked_core_artifact_ext(TargetBackend::Wasm, OperatingSystem::NoOs, true),
        ".wat"
    );
    assert_eq!(
        linked_core_artifact_ext(TargetBackend::WasmGC, OperatingSystem::NoOs, false),
        ".wasm"
    );
    assert_eq!(
        linked_core_artifact_ext(TargetBackend::Native, OperatingSystem::Linux, false),
        ".c"
    );
    assert_eq!(
        linked_core_artifact_ext(TargetBackend::LLVM, OperatingSystem::Windows, false),
        ".obj"
    );
    assert_eq!(
        make_executable_artifact_ext(TargetBackend::Js, OperatingSystem::NoOs, false, false),
        ".js"
    );
    assert_eq!(
        make_executable_artifact_ext(TargetBackend::LLVM, OperatingSystem::MacOS, false, false),
        ""
    );
}

#[test]
fn artifact_names_use_the_short_alias_and_kind_suffix() {
    let fqn = PackageFQN {
        name: "user/mod/pkg".to_string(),
    };
    assert_eq!(short_alias(&fqn), "pkg");
    assert_eq!(artifact(&fqn, TargetKind::WhiteboxTest), "pkg.whitebox_test");
    assert_eq!(artifact(&fqn, TargetKind::SubPackage), "pkg_sub");
    assert_eq!(build_kind_suffix(TargetKind::InlineTest), ".inline_test");
    assert_eq!(build_kind_suffix(TargetKind::BlackboxTest), ".blackbox_test");
    assert_eq!(build_kind_suffix(TargetKind::Source), "");
}

#[test]
fn core_bundle_paths() {
    assert_eq!(
        core_bundle_path("/core", TargetBackend::WasmGC),
        "/core/target/wasm-gc/release/bundle"
    );
    assert_eq!(
        abort_core_path("/core/", TargetBackend::Js),
        "/core/target/js/release/bundle/abort/abort.core"
    );
    assert_eq!(
        abort_mi_path("core", TargetBackend::Native),
        "core/target/native/release/bundle/abort/abort.mi"
    );
    assert_eq!(
        core_core_path("core", TargetBackend::LLVM),
        "core/target/llvm/release/bundle/core.core"
    );
}

#[test]
fn immut_alias_only_for_core_immut_packages() {
    assert_eq!(
        get_immut_alias("moonbitlang", "core", "immut/array"),
        Some("immut/array".to_string())
    );
    assert_eq!(get_immut_alias("moonbitlang", "core", "array"), None);
    assert_eq!(get_immut_alias("someone", "core", "immut/array"), None);
}
