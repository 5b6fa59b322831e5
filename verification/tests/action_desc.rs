use moonbuild_rupes_recta::build_lower::action_desc::{prebuild_human_desc, prebuild_string_id};
use moonbuild_rupes_recta::build_plan::package_prebuild::{PackagePrebuildAction, PackagePrebuildKey, PrebuildInfo};
use moonbuild_rupes_recta::discover::model::{DiscoverResult, DiscoveredPackage, PackageConfig};
use moonbuild_rupes_recta::model::{ModuleId, PackageId};

fn packages() -> DiscoverResult {
    let raw = PackageConfig {
        virtual_pkg: None,
        implement: None,
        is_main: false,
        imports: Vec::new(),
        test_imports: Vec::new(),
        wbtest_imports: Vec::new(),
        wasm_exports: None,
        wasm_gc_exports: None,
        js_exports: None,
        native_exports: None,
        native_stub: None,
        warn_list: None,
        proof_enabled: false,
    };
    let pkg = DiscoveredPackage {
        root_path: "/m/src/lex".to_string(),
        module: ModuleId(0),
        module_name: "user/mod".to_string(),
        package_path: "lex".to_string(),
        is_single_file: false,
        raw,
        source_files: Vec::new(),
        mbt_lex_files: Vec::new(),
        mbt_yacc_files: Vec::new(),
        mbt_md_files: Vec::new(),
        mbtp_files: Vec::new(),
        c_stub_files: Vec::new(),
        c_stub_header_files: Vec::new(),
        virtual_mbti_files: Vec::new(),
        is_stdlib: false,
    };
    let mut res = DiscoverResult::new();
    res.add_package(ModuleId(0), "lex".to_string(), pkg).unwrap();
    res
}

#[test]
fn prebuild_actions_have_stable_identities() {
    let res = packages();
    let custom = PackagePrebuildKey::Custom { package: PackageId(0), declaration_index: 12 };
    assert_eq!(prebuild_string_id(&custom, &res), "user/mod/lex@RunPrebuild_12");
    let lex = PackagePrebuildKey::MoonLex { package: PackageId(0), input: "/m/src/lex/sub/tokens.mbl".to_string() };
    assert_eq!(prebuild_string_id(&lex, &res), "user/mod/lex@RunMoonLexPrebuild_sub/tokens.mbl");
    let yacc = PackagePrebuildKey::MoonYacc { package: PackageId(0), input: "/elsewhere/g.mby".to_string() };
    assert_eq!(prebuild_string_id(&yacc, &res), "user/mod/lex@RunMoonYaccPrebuild_/elsewhere/g.mby");
}

#[test]
fn prebuild_actions_are_described_by_tool_package_and_files() {
    let res = packages();
    let custom = PackagePrebuildKey::Custom { package: PackageId(0), declaration_index: 0 };
    let info = |outputs: &[&str]| PrebuildInfo {
        resolved_inputs: Vec::new(),
        resolved_outputs: outputs.iter().map(|s| s.to_string()).collect(),
        cwd: "/m".to_string(),
        command: "gen".to_string(),
    };
    let action = PackagePrebuildAction::Custom { info: info(&["/m/src/lex/a.mbt", "/m/src/lex/b.mbt"]) };
    assert_eq!(prebuild_human_desc(&custom, &action, &res), "run script user/mod/lex a.mbt, b.mbt (prebuild)");
    let none = PackagePrebuildAction::Custom { info: info(&[]) };
    assert_eq!(prebuild_human_desc(&custom, &none, &res), "run script user/mod/lex (no outputs) (prebuild)");
    let lex = PackagePrebuildKey::MoonLex { package: PackageId(0), input: "/m/src/lex/tokens.mbl".to_string() };
    let lex_action = PackagePrebuildAction::MoonLex {
        input: "/m/src/lex/tokens.mbl".to_string(),
        output: "/m/src/lex/tokens.mbt".to_string(),
    };
    assert_eq!(prebuild_human_desc(&lex, &lex_action, &res), "run moonlex user/mod/lex tokens.mbl (prebuild)");
}
