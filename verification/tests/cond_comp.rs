use moonbuild_rupes_recta::cond_comp::{
    classify_files, file_metadatas, CompileCondition, get_file_target_backend, get_file_test_kind, get_file_test_kind_full,
    should_compile_using_filename_without_test_kind,
    should_compile_using_pkg_cond_expr_without_test_kind, FileTestKind,
};
use moonbuild_rupes_recta::model::{OptLevel, TargetBackend};

#[test]
fn test_kind_follows_the_name_suffix() {
    assert_eq!(get_file_test_kind("lib_wbtest"), FileTestKind::Whitebox);
    assert_eq!(get_file_test_kind("lib_test"), FileTestKind::Blackbox);
    assert_eq!(get_file_test_kind("lib"), FileTestKind::NoTest);
}

#[test]
fn target_backend_suffix_is_split_off() {
    assert_eq!(
        get_file_target_backend("lib.wasm-gc"),
        (Some(TargetBackend::WasmGC), "lib".to_string())
    );
    assert_eq!(
        get_file_target_backend("a.b.native"),
        (Some(TargetBackend::Native), "a.b".to_string())
    );
    assert_eq!(get_file_target_backend("lib.other"), (None, "lib.other".to_string()));
    assert_eq!(get_file_target_backend("lib"), (None, "lib".to_string()));
}

#[test]
fn full_test_kind_strips_extension_and_backend() {
    assert_eq!(get_file_test_kind_full("x_test.js.mbt"), FileTestKind::Blackbox);
    assert_eq!(get_file_test_kind_full("x_wbtest.mbt"), FileTestKind::Whitebox);
    assert_eq!(get_file_test_kind_full("README.mbt.md"), FileTestKind::Blackbox);
    assert_eq!(get_file_test_kind_full("x_test.llvm"), FileTestKind::Blackbox);
    assert_eq!(get_file_test_kind_full("plain.mbt"), FileTestKind::NoTest);
}

#[test]
fn filename_decides_backend_specific_files() {
    assert_eq!(
        should_compile_using_filename_without_test_kind("a.js.mbt", TargetBackend::Wasm),
        None
    );
    assert_eq!(
        should_compile_using_filename_without_test_kind("a_test.js.mbt", TargetBackend::Js),
        Some(FileTestKind::Blackbox)
    );
    assert_eq!(
        should_compile_using_filename_without_test_kind("doc.mbt.md", TargetBackend::Js),
        Some(FileTestKind::NoTest)
    );
}

#[test]
fn package_conditions_decide_conditioned_files() {
    assert_eq!(should_compile_using_pkg_cond_expr_without_test_kind("a_test.mbt", false), None);
    assert_eq!(
        should_compile_using_pkg_cond_expr_without_test_kind("a_wbtest.mbt", true),
        Some(FileTestKind::Whitebox)
    );
}

#[test]
fn classify_files_keeps_compiled_files_in_order() {
    let files = vec![
        "src/a.mbt".to_string(),
        "src/b.native.mbt".to_string(),
        "src/c_test.mbt".to_string(),
        "src/d.mbt".to_string(),
    ];
    let conditions = vec![("d.mbt".to_string(), false), ("c_test.mbt".to_string(), true)];
    assert_eq!(
        classify_files(&files, &conditions, TargetBackend::Js),
        vec![
            ("src/a.mbt".to_string(), FileTestKind::NoTest),
            ("src/c_test.mbt".to_string(), FileTestKind::Blackbox),
        ]
    );
}

#[test]
fn file_metadata_reports_kinds_and_conditions_without_filtering() {
    let files: Vec<String> = ["/p/a.mbt", "/p/b_test.js.mbt", "/p/c_wbtest.mbt", "/p/README.mbt.md"]
        .iter()
        .map(|s| s.to_string())
        .collect();
    let conditions = vec![(
        "a.mbt".to_string(),
        CompileCondition { backend: vec![TargetBackend::Native], optlevel: vec![OptLevel::Release] },
    )];
    let all_backends = vec![TargetBackend::Wasm, TargetBackend::WasmGC, TargetBackend::Js];
    let all_optlevels = vec![OptLevel::Release, OptLevel::Debug];
    let meta = file_metadatas(&files, &conditions, &all_backends, &all_optlevels);
    assert_eq!(meta.len(), 4);
    assert_eq!(meta[0].0, "/p/a.mbt");
    assert_eq!(meta[0].1, FileTestKind::NoTest);
    assert_eq!(meta[0].2.backend, vec![TargetBackend::Native]);
    assert_eq!(meta[0].2.optlevel, vec![OptLevel::Release]);
    assert_eq!(meta[1].1, FileTestKind::Blackbox);
    assert_eq!(meta[1].2.backend, vec![TargetBackend::Js]);
    assert_eq!(meta[1].2.optlevel, all_optlevels);
    assert_eq!(meta[2].1, FileTestKind::Whitebox);
    assert_eq!(meta[2].2.backend, all_backends);
    assert_eq!(meta[3].1, FileTestKind::NoTest);
}
