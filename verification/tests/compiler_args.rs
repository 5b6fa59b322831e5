use moonbuild_rupes_recta::build_lower::compiler::build_common::BuildCommonArgs;
use moonbuild_rupes_recta::build_lower::compiler::build_interface::MooncBuildInterface;
use moonbuild_rupes_recta::build_lower::compiler::bundle_core::MooncBundleCore;
use moonbuild_rupes_recta::build_lower::compiler::gen_test_driver::{
    DriverKind, MoonGenTestInfo, MoonRenderTestDriver,
};
use moonbuild_rupes_recta::build_lower::compiler::legacy::{
    self, ImportMemory, JsFormat, MemoryLimits, MooncBuildPackage, MooncLinkCore,
};
use moonbuild_rupes_recta::build_lower::compiler::moondoc::MoondocCommand;
use moonbuild_rupes_recta::build_lower::compiler::mooninfo::Mooninfo;
use moonbuild_rupes_recta::build_lower::compiler::node_test_config::MoonGenerateNodeTestPackageConfig;
use moonbuild_rupes_recta::build_lower::compiler::{
    CmdlineAbstraction, CompilationFlags, CompiledPackageName, ErrorFormat, MiDependency,
    PackageFQN, PackageSource, VirtualPackageImplementation, WarnAlertConfig,
};
use moonbuild_rupes_recta::model::{TargetBackend, TargetKind};

fn fqn(name: &str) -> PackageFQN {
    PackageFQN {
        name: name.to_string(),
    }
}

fn strs(v: &[&str]) -> Vec<String> {
    v.iter().map(|s| s.to_string()).collect()
}

#[test]
fn mi_dependency_alias_args() {
    assert_eq!(
        MiDependency::new("a/b.mi".to_string(), "b".to_string()).to_alias_arg(),
        "a/b.mi:b"
    );
    assert_eq!(
        MiDependency::no_alias("a/b.mi".to_string()).to_alias_arg(),
        "a/b.mi:a/b.mi"
    );
}

#[test]
fn compiled_package_names_suffix_blackbox_tests_only() {
    let name = |kind| CompiledPackageName::new(fqn("user/mod/pkg"), kind).to_string();
    assert_eq!(name(TargetKind::BlackboxTest), "user/mod/pkg_blackbox_test");
    assert_eq!(name(TargetKind::Source), "user/mod/pkg");
    assert_eq!(name(TargetKind::WhiteboxTest), "user/mod/pkg");
    assert_eq!(name(TargetKind::InlineTest), "user/mod/pkg");
    assert_eq!(name(TargetKind::SubPackage), "user/mod/pkg");
    let src = PackageSource {
        package_name: CompiledPackageName::new(fqn("u/m"), TargetKind::BlackboxTest),
        source_dir: "/src/m".to_string(),
    };
    assert_eq!(src.to_arg(), "u/m_blackbox_test:/src/m");
}

#[test]
fn build_interface_args() {
    let mut cmd = MooncBuildInterface::new(
        "pkg.mbti".to_string(),
        "pkg.mi".to_string(),
        vec![MiDependency::new("dep.mi".to_string(), "dep".to_string())],
        CompiledPackageName::new(fqn("u/m/pkg"), TargetKind::Source),
        "/src/pkg".to_string(),
    );
    cmd.stdlib_core_file = Some("core.core".to_string());
    assert_eq!(
        cmd.build_command("moonc"),
        strs(&[
            "moonc",
            "build-interface",
            "pkg.mbti",
            "-o",
            "pkg.mi",
            "-i",
            "dep.mi:dep",
            "-pkg",
            "u/m/pkg",
            "-pkg-sources",
            "u/m/pkg:/src/pkg",
            "-virtual",
            "-std-path",
            "core.core",
            "-error-format",
            "json",
        ])
    );
}

#[test]
fn bundle_doc_info_and_node_config_args() {
    let bundle = MooncBundleCore::new(strs(&["a.core", "b.core"]), "all.core".to_string());
    assert_eq!(
        bundle.build_command("moonc"),
        strs(&["moonc", "bundle-core", "a.core", "b.core", "-o", "all.core"])
    );
    let doc = MoondocCommand::new(
        "src".to_string(),
        "target/doc".to_string(),
        None,
        "packages.json".to_string(),
        true,
    );
    let mut args = Vec::new();
    doc.to_args(&mut args);
    assert_eq!(
        args,
        strs(&["src", "-o", "target/doc", "-packages-json", "packages.json", "-serve-mode"])
    );
    let info = Mooninfo {
        mi_in: "a.mi".to_string(),
        out: "a.mbti".to_string(),
        no_alias: false,
    };
    assert_eq!(
        info.build_command("mooninfo"),
        strs(&["mooninfo", "-format=text", "a.mi", "-o=a.mbti"])
    );
    let node = MoonGenerateNodeTestPackageConfig {
        output: "package.json".to_string(),
    };
    assert_eq!(
        node.build_command("moon"),
        strs(&[
            "moon",
            "tool",
            "generate-node-test-package-config",
            "--output",
            "package.json"
        ])
    );
}

#[test]
fn test_driver_args() {
    let info = MoonGenTestInfo {
        files: strs(&["a.mbt"]),
        doctest_only_files: strs(&["b.mbt", "c.mbt"]),
        output_metadata: "meta.json".to_string(),
        target_backend: TargetBackend::WasmGC,
        driver_kind: DriverKind::Blackbox,
        patch_file: None,
    };
    assert_eq!(
        info.build_command("moon"),
        strs(&[
            "moon",
            "generate-test-info",
            "--output-metadata",
            "meta.json",
            "a.mbt",
            "--doctest-only",
            "b.mbt",
            "--doctest-only",
            "c.mbt",
            "--target",
            "wasm-gc",
            "--driver-kind",
            "blackbox",
        ])
    );
    let render = MoonRenderTestDriver {
        input_metadata: "meta.json".to_string(),
        output_driver: "driver.mbt".to_string(),
        pkg_name: "u/m/p".to_string(),
        bench: true,
        enable_coverage: false,
        coverage_package_override: Some("@self".to_string()),
        max_concurrent_tests: Some(10),
    };
    assert_eq!(
        render.build_command("moon"),
        strs(&[
            "moon",
            "render-test-driver",
            "--input-metadata",
            "meta.json",
            "--output-driver",
            "driver.mbt",
            "--pkg-name",
            "u/m/p",
            "--bench",
            "--coverage-package-override=@self",
            "--max-concurrent-tests",
            "10",
        ])
    );
}

#[test]
fn build_common_args_sections() {
    let mut common = BuildCommonArgs::new(
        strs(&["a.mbt"]),
        vec![MiDependency::no_alias("d.mi".to_string())],
        fqn("u/m/p"),
        "/src/p".to_string(),
        TargetBackend::Js,
    );
    common.error_format = ErrorFormat::Json;
    common.warn_config = WarnAlertConfig::DenyAll;
    common.alert_config = WarnAlertConfig::List("+x".to_string());
    common.is_main = true;
    common.virtual_implementation = Some(VirtualPackageImplementation {
        mi_path: "v.mi".to_string(),
        package_name: fqn("u/m/v"),
        package_path: "/src/v".to_string(),
    });
    let mut args = Vec::new();
    common.add_error_format(&mut args);
    common.add_warn_alert_deny_all_combined(&mut args);
    common.add_mbt_sources(&mut args);
    common.add_custom_warn_alert_lists(&mut args);
    common.add_package_config(&mut args);
    common.add_is_main_with_condition(&mut args, false);
    common.add_is_main(&mut args);
    common.add_mi_dependencies(&mut args);
    common.add_package_sources(&mut args);
    common.add_target_backend(&mut args);
    common.add_virtual_package_implementation_check(&mut args);
    common.add_virtual_package_implementation_build(&mut args);
    assert_eq!(
        args,
        strs(&[
            "-error-format",
            "json",
            "-w",
            "@a",
            "-alert",
            "@all-raise-throw-unsafe+deprecated",
            "a.mbt",
            "-alert",
            "+x",
            "-pkg",
            "u/m/p",
            "-is-main",
            "-i",
            "d.mi:d.mi",
            "-pkg-sources",
            "u/m/p:/src/p",
            "-target",
            "js",
            "-check-mi",
            "v.mi",
            "-pkg-sources",
            "u/m/v:/src/v",
            "-check-mi",
            "v.mi",
            "-impl-virtual",
            "-no-mi",
            "-pkg-sources",
            "u/m/v:/src/v",
        ])
    );
}

#[test]
fn legacy_build_package_args_keep_the_earlier_order() {
    let mut cmd = MooncBuildPackage::new(
        strs(&["a.mbt", "b.mbt"]),
        "p.core".to_string(),
        "p.mi".to_string(),
        vec![MiDependency::new("d.mi".to_string(), "d".to_string())],
        fqn("u/m/p"),
        "/src/p".to_string(),
        TargetBackend::WasmGC,
    );
    cmd.warn_config = WarnAlertConfig::AllowAll;
    cmd.alert_config = WarnAlertConfig::DenyAll;
    cmd.is_main = true;
    cmd.stdlib_core_file = Some("core.core".to_string());
    cmd.flags.symbols = true;
    cmd.flags.self_coverage = true;
    cmd.extra_build_opts = strs(&["-extra"]);
    cmd.check_mi = Some("c.mi".to_string());
    cmd.no_mi = true;
    let mut args = Vec::new();
    cmd.to_args_legacy(&mut args);
    assert_eq!(
        args,
        strs(&[
            "build-package",
            "-alert",
            "@all-raise-throw-unsafe+deprecated",
            "a.mbt",
            "b.mbt",
            "-w",
            "-a",
            "-o",
            "p.core",
            "-pkg",
            "u/m/p",
            "-is-main",
            "-std-path",
            "core.core",
            "-i",
            "d.mi:d",
            "-pkg-sources",
            "u/m/p:/src/p",
            "-target",
            "wasm-gc",
            "-g",
            "-coverage-package-override=@self",
            "-extra",
            "-check-mi",
            "c.mi",
            "-no-mi",
        ])
    );
    let mut deny = MooncBuildPackage::new(
        vec![],
        "p.core".to_string(),
        "p.mi".to_string(),
        vec![],
        fqn("p"),
        "/p".to_string(),
        TargetBackend::Native,
    );
    deny.warn_config = WarnAlertConfig::DenyAll;
    deny.error_format = ErrorFormat::Json;
    assert_eq!(
        deny.build_command("moonc"),
        strs(&[
            "moonc",
            "build-package",
            "-error-format",
            "json",
            "-w",
            legacy::LEGACY_DENY_WARNING_SET,
            "-o",
            "p.core",
            "-pkg",
            "p",
            "-pkg-sources",
            "p:/p",
            "-target",
            "native",
        ])
    );
}

#[test]
fn legacy_link_core_args_for_wasm_and_js() {
    let sources = vec![legacy::PackageSource {
        package_name: fqn("u/m/p"),
        source_dir: "/src/p".to_string(),
    }];
    let mut wasm = MooncLinkCore::new(
        strs(&["a.core", "b.core"]),
        fqn("u/m/main"),
        "main.wasm".to_string(),
        "pkg.json".to_string(),
        sources.clone(),
        TargetBackend::Wasm,
    );
    wasm.stdlib_core_source = Some(legacy::PackageSource {
        package_name: fqn("moonbitlang/core"),
        source_dir: "/core".to_string(),
    });
    wasm.flags = CompilationFlags::none();
    wasm.flags.no_opt = true;
    wasm.wasm_config.exports = Some(strs(&["f", "g"]));
    wasm.wasm_config.import_memory = Some(ImportMemory {
        module: "env".to_string(),
        name: "mem".to_string(),
    });
    wasm.wasm_config.memory_limits = Some(MemoryLimits { min: 1, max: 65536 });
    wasm.wasm_config.shared_memory = Some(true);
    wasm.wasm_config.heap_start_address = Some(1024);
    wasm.wasm_config.link_flags = Some(strs(&["-flag"]));
    wasm.js_format = Some(JsFormat::CJS);
    wasm.extra_link_opts = strs(&["-x"]);
    assert_eq!(
        wasm.build_command("moonc"),
        strs(&[
            "moonc",
            "link-core",
            "a.core",
            "b.core",
            "-main",
            "u/m/main",
            "-o",
            "main.wasm",
            "-pkg-config-path",
            "pkg.json",
            "-pkg-sources",
            "u/m/p:/src/p",
            "-pkg-sources",
            "moonbitlang/core:/core",
            "-target",
            "wasm",
            "-O0",
            "-exported_functions=f,g",
            "-import-memory-module",
            "env",
            "-import-memory-name",
            "mem",
            "-memory-limits-min",
            "1",
            "-memory-limits-max",
            "65536",
            "-shared-memory",
            "-heap-start-address",
            "1024",
            "-flag",
            "-x",
        ])
    );

    let mut js = MooncLinkCore::new(
        vec![],
        fqn("u/m/main"),
        "main.js".to_string(),
        "pkg.json".to_string(),
        vec![],
        TargetBackend::Js,
    );
    js.wasm_config.exports = Some(vec![]);
    let mut args = Vec::new();
    js.to_args_legacy(&mut args);
    assert_eq!(
        args,
        strs(&[
            "link-core",
            "-main",
            "u/m/main",
            "-o",
            "main.js",
            "-pkg-config-path",
            "pkg.json",
            "-target",
            "js",
            "-js-format",
            "esm",
        ])
    );

    let mut empty_exports = MooncLinkCore::new(
        vec![],
        fqn("m"),
        "o.wasm".to_string(),
        "c.json".to_string(),
        vec![],
        TargetBackend::WasmGC,
    );
    empty_exports.wasm_config.exports = Some(vec![]);
    empty_exports.wasm_config.shared_memory = Some(false);
    let mut args = Vec::new();
    empty_exports.to_args(&mut args);
    assert_eq!(
        args,
        strs(&["link-core", "-main", "m", "-o", "o.wasm", "-pkg-config-path", "c.json", "-target", "wasm-gc", ""])
    );
}
