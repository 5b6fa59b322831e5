use moonbuild_rupes_recta::discover::model::{DiscoverError, PackageConfig};
use moonbuild_rupes_recta::discover::package_files::{
    collect_package_source_files, resolve_c_stub_paths, PackageDirEntry, PackageSourceFileKind,
};
use moonbuild_rupes_recta::discover::{
    check_module_name, discover_one_package, major_version_warning, package_walk_step,
    virtual_mbti_candidates, warns_major_version_package, PackageManifest, WalkStep,
};
use moonbuild_rupes_recta::model::ModuleId;

fn entry(path: &str, is_file: bool, kind: Option<PackageSourceFileKind>) -> PackageDirEntry {
    PackageDirEntry { path: path.to_string(), is_file, kind }
}

fn config(native_stub: Option<Vec<&str>>, virtual_pkg: Option<bool>) -> PackageConfig {
    PackageConfig {
        virtual_pkg,
        implement: None,
        is_main: false,
        imports: Vec::new(),
        test_imports: Vec::new(),
        wbtest_imports: Vec::new(),
        wasm_exports: None,
        wasm_gc_exports: None,
        js_exports: None,
        native_exports: None,
        native_stub: native_stub.map(|v| v.into_iter().map(|s| s.to_string()).collect()),
        warn_list: None,
        proof_enabled: false,
    }
}

fn entries() -> Vec<PackageDirEntry> {
    vec![
        entry("/m/src/lib/z.mbt", true, Some(PackageSourceFileKind::Mbt)),
        entry("/m/src/lib/README.mbt.md", true, Some(PackageSourceFileKind::MbtMd)),
        entry("/m/src/lib/a.mbt", true, Some(PackageSourceFileKind::Mbt)),
        entry("/m/src/lib/sub.mbt", false, Some(PackageSourceFileKind::Mbt)),
        entry("/m/src/lib/lexer.mbl", true, Some(PackageSourceFileKind::Mbl)),
        entry("/m/src/lib/parser.mby", true, Some(PackageSourceFileKind::Mby)),
        entry("/m/src/lib/proof.mbtp", true, Some(PackageSourceFileKind::Mbtp)),
        entry("/m/src/lib/notes.txt", true, None),
    ]
}

#[test]
fn package_files_are_sorted_into_kinds_and_directories_are_skipped() {
    let files = collect_package_source_files(&entries());
    assert_eq!(files.source_files, vec!["/m/src/lib/a.mbt", "/m/src/lib/z.mbt"]);
    assert_eq!(files.mbt_md_files, vec!["/m/src/lib/README.mbt.md"]);
    assert_eq!(files.mbtp_files, vec!["/m/src/lib/proof.mbtp"]);
    assert_eq!(files.mbt_lex_files, vec!["/m/src/lib/lexer.mbl"]);
    assert_eq!(files.mbt_yacc_files, vec!["/m/src/lib/parser.mby"]);
}

#[test]
fn c_stub_paths_are_normalized_into_the_package_folder() {
    let stubs = vec!["./stub.c".to_string(), "native/../impl.c".to_string(), "c/x.c".to_string()];
    let placed = resolve_c_stub_paths("/m/src/lib", &stubs).expect("stubs stay in the folder");
    assert_eq!(placed, vec!["/m/src/lib/stub.c", "/m/src/lib/impl.c", "/m/src/lib/c/x.c"]);
}

#[test]
fn c_stub_path_leaving_the_package_folder_is_refused() {
    let stubs = vec!["ok.c".to_string(), "../outside.c".to_string(), "a/../../b.c".to_string()];
    assert_eq!(resolve_c_stub_paths("/m/src/lib", &stubs), Err("../outside.c".to_string()));
}

#[test]
fn discovered_package_collects_files_stubs_and_headers() {
    let headers = vec!["/m/src/lib/z.h".to_string(), "/m/src/lib/inc/a.h".to_string()];
    let pkg = discover_one_package(
        ModuleId(3),
        "user/mod",
        "lib",
        false,
        "/m/src/lib",
        config(Some(vec!["stub.c"]), None),
        &entries(),
        headers,
        Vec::new(),
    )
    .expect("package should be discovered");
    assert_eq!(pkg.root_path, "/m/src/lib");
    assert_eq!(pkg.module, ModuleId(3));
    assert_eq!(pkg.fqn().name, "user/mod/lib");
    assert_eq!(pkg.source_files, vec!["/m/src/lib/a.mbt", "/m/src/lib/z.mbt"]);
    assert_eq!(pkg.c_stub_files, vec!["/m/src/lib/stub.c"]);
    assert_eq!(pkg.c_stub_header_files, vec!["/m/src/lib/inc/a.h", "/m/src/lib/z.h"]);
    assert!(!pkg.is_single_file);
    assert!(!pkg.is_stdlib);
}

#[test]
fn headers_are_dropped_without_c_stubs() {
    let pkg = discover_one_package(
        ModuleId(0),
        "user/mod",
        "",
        true,
        "/m/src",
        config(None, None),
        &Vec::new(),
        vec!["/m/src/a.h".to_string()],
        Vec::new(),
    )
    .expect("package should be discovered");
    assert!(pkg.c_stub_header_files.is_empty());
    assert!(pkg.c_stub_files.is_empty());
    assert_eq!(pkg.fqn().name, "user/mod");
    assert!(pkg.is_stdlib);
}

#[test]
fn invalid_stub_path_names_the_module_package_and_stub() {
    let err = discover_one_package(
        ModuleId(0),
        "user/mod",
        "lib",
        false,
        "/m/src/lib",
        config(Some(vec!["../escape.c"]), None),
        &entries(),
        Vec::new(),
        Vec::new(),
    )
    .expect_err("stub leaves the package folder");
    match err {
        DiscoverError::InvalidStubPath { module, package, path } => {
            assert_eq!(module, "user/mod");
            assert_eq!(package, "lib");
            assert_eq!(path, "../escape.c");
        }
        other => panic!("unexpected error {other:?}"),
    }
}

#[test]
fn module_name_must_match_the_registry() {
    assert!(check_module_name("a/b", "a/b").is_ok());
    match check_module_name("a/b", "a/c") {
        Err(DiscoverError::ModuleNameMismatch { registry, read }) => {
            assert_eq!(registry, "a/b");
            assert_eq!(read, "a/c");
        }
        other => panic!("unexpected result {other:?}"),
    }
}

#[test]
fn walk_skips_ignored_folders_and_nested_modules_below_the_root() {
    assert_eq!(package_walk_step(false, true, false, true, false), WalkStep::SkipSubtree);
    assert_eq!(package_walk_step(false, false, true, true, false), WalkStep::SkipSubtree);
    // The configured source root is explicit: it is never skipped.
    assert_eq!(
        package_walk_step(true, true, true, true, false),
        WalkStep::Package { manifest: PackageManifest::MoonPkg, shadowed_json: false }
    );
    assert_eq!(package_walk_step(false, false, false, false, false), WalkStep::NotAPackage);
}

#[test]
fn walk_prefers_moon_pkg_over_moon_pkg_json() {
    assert_eq!(
        package_walk_step(false, false, false, true, true),
        WalkStep::Package { manifest: PackageManifest::MoonPkg, shadowed_json: true }
    );
    assert_eq!(
        package_walk_step(false, false, false, false, true),
        WalkStep::Package { manifest: PackageManifest::MoonPkgJson, shadowed_json: false }
    );
}

#[test]
fn major_version_package_names_warn_only_in_the_root_module() {
    assert!(warns_major_version_package(true, false, false, false, "v2", true));
    assert!(!warns_major_version_package(false, false, false, false, "v2", true));
    assert!(!warns_major_version_package(true, true, false, false, "v2", true));
    assert!(!warns_major_version_package(true, false, false, true, "v2", true));
    assert!(!warns_major_version_package(true, false, false, false, "", true));
    assert!(!warns_major_version_package(true, false, false, false, "c", false));
    // `v128` of the core module is let through; `v129` is not.
    assert!(!warns_major_version_package(true, false, true, false, "v128", true));
    assert!(warns_major_version_package(true, false, true, false, "v129", true));
}

#[test]
fn major_version_warning_text() {
    assert_eq!(
        major_version_warning("a/b/v2", "a/b", "v2"),
        "Package `a/b/v2` in module `a/b` has the same import path as a major-version module. \
         Consider renaming package `v2` to avoid ambiguity."
    );
    assert_eq!(
        major_version_warning("moonbitlang/core/v129", "moonbitlang/core", "v129"),
        "Package `moonbitlang/core/v129` in module `moonbitlang/core` has the same import path as a major-version module. Consider renaming package `v129` to avoid ambiguity."
    );
}

#[test]
fn virtual_packages_look_for_both_interface_file_names() {
    assert_eq!(
        virtual_mbti_candidates("/m/src/io", &config(None, Some(false)), "user/mod/io"),
        vec!["/m/src/io/pkg.mbti", "/m/src/io/io.mbti"]
    );
    assert!(virtual_mbti_candidates("/m/src/io", &config(None, None), "user/mod/io").is_empty());
}
