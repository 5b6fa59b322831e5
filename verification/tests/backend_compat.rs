use moonbuild_rupes_recta::build_plan::backend_compat::{
    check_backend_compatibility_for_dep, mi_importer_target, missing_supported_targets_warning,
    supported_backends_list, warns_missing_supported_targets,
};
use moonbuild_rupes_recta::build_plan::prebuild::BuildPlanConstructError;
use moonbuild_rupes_recta::model::{BuildPlanNode, BuildTarget, PackageId, TargetBackend, TargetKind};

#[test]
fn compatible_dependency_passes() {
    let realizable = vec![TargetBackend::WasmGC, TargetBackend::Js];
    assert!(check_backend_compatibility_for_dep(TargetBackend::Js, "a/app", "a/lib", &realizable).is_ok());
}

#[test]
fn incompatible_dependency_names_sorted_supported_backends() {
    let realizable = vec![TargetBackend::WasmGC, TargetBackend::Native, TargetBackend::Js];
    let err = check_backend_compatibility_for_dep(TargetBackend::Wasm, "a/app", "a/lib", &realizable)
        .expect_err("wasm cannot build the dependency");
    let BuildPlanConstructError::BackendIncompatibleDependency {
        backend,
        importer,
        dependency,
        supported_backends,
        path,
    } = err
    else {
        panic!("unexpected error");
    };
    assert_eq!(backend, TargetBackend::Wasm);
    assert_eq!(importer, "a/app");
    assert_eq!(dependency, "a/lib");
    assert_eq!(supported_backends, "[js, native, wasm-gc]");
    assert_eq!(path, "a/app -> a/lib");
}

#[test]
fn supported_backend_list_matches_a_sort_of_the_names() {
    let all = [
        TargetBackend::WasmGC,
        TargetBackend::Wasm,
        TargetBackend::Native,
        TargetBackend::LLVM,
        TargetBackend::Js,
    ];
    for mask in 0u32..32 {
        let set: Vec<TargetBackend> =
            all.iter().enumerate().filter(|(i, _)| mask & (1 << i) != 0).map(|(_, b)| *b).collect();
        let mut names: Vec<String> = set.iter().map(|b| b.to_flag().to_string()).collect();
        names.sort();
        assert_eq!(supported_backends_list(&set), format!("[{}]", names.join(", ")));
    }
    assert_eq!(supported_backends_list(&Vec::new()), "[]");
}

#[test]
fn missing_supported_targets_warns_once_for_distinct_declaring_dependency() {
    assert!(warns_missing_supported_targets(false, false, false, true, false));
    assert!(!warns_missing_supported_targets(false, false, false, true, true));
    assert!(!warns_missing_supported_targets(true, false, false, true, false));
    assert!(!warns_missing_supported_targets(false, true, false, true, false));
    assert!(!warns_missing_supported_targets(false, false, true, true, false));
    assert!(!warns_missing_supported_targets(false, false, false, false, false));
    assert_eq!(
        missing_supported_targets_warning("a/app", "a/lib"),
        "Package `a/app` does not declare `supported_targets`, but depends on `a/lib` which declares it. Consider declaring `supported_targets` explicitly"
    );
}

#[test]
fn mi_importer_of_virtual_package_is_its_source() {
    let p = PackageId(4);
    let source = BuildTarget { package: p, kind: TargetKind::Source };
    assert_eq!(mi_importer_target(BuildPlanNode::BuildVirtual(p)), Some(source));
    assert_eq!(mi_importer_target(BuildPlanNode::Check(source)), Some(source));
    assert_eq!(mi_importer_target(BuildPlanNode::BuildRuntimeLib), None);
}
