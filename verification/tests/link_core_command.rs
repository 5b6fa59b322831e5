use moonbuild_rupes_recta::build_lower::compiler::legacy::{ImportMemory, JsFormat, MemoryLimits};
use moonbuild_rupes_recta::build_lower::compiler::link_core::{
    link_core_command, LinkedPackage, MooncLinkCore, StdlibCores, WasmConfig,
};
use moonbuild_rupes_recta::build_lower::compiler::{
    CmdlineAbstraction, CompilationFlags, CompiledPackageName, PackageFQN,
};
use moonbuild_rupes_recta::build_lower::target_options::JsConfig;
use moonbuild_rupes_recta::model::{TargetBackend, TargetKind};

fn fqn(name: &str) -> PackageFQN {
    PackageFQN { name: name.to_string() }
}

fn strs(v: &[&str]) -> Vec<String> {
    v.iter().map(|s| s.to_string()).collect()
}

fn base(kind: TargetKind, backend: TargetBackend) -> MooncLinkCore {
    MooncLinkCore {
        core_deps: strs(&["a.core"]),
        main_package: CompiledPackageName::new(fqn("u/m/main"), kind),
        output_path: "main.wasm".to_string(),
        pkg_config_path: "moon.pkg.json".to_string(),
        package_sources: vec![],
        stdlib_core_source: None,
        target_backend: backend,
        flags: CompilationFlags::none(),
        test_mode: false,
        exports: None,
        wasm_config: WasmConfig::default(),
        js_config: None,
        extra_link_opts: vec![],
        msvc_llvm_target: false,
    }
}

#[test]
fn test_mode_links_the_test_driver_exports_only() {
    let mut c = base(TargetKind::Source, TargetBackend::WasmGC);
    c.test_mode = true;
    c.exports = Some(strs(&["foo"]));
    let mut args = Vec::new();
    c.to_args_legacy(&mut args);
    assert_eq!(
        args,
        strs(&[
            "link-core",
            "a.core",
            "-main",
            "u/m/main",
            "-o",
            "main.wasm",
            "-test-mode",
            "-pkg-config-path",
            "moon.pkg.json",
            "-exported_functions",
            "moonbit_test_driver_internal_execute,moonbit_test_driver_finish",
            "-target",
            "wasm-gc",
        ])
    );
}

#[test]
fn link_core_exports_js_config_and_wasm_config_outside_test_mode() {
    let mut c = base(TargetKind::BlackboxTest, TargetBackend::Wasm);
    c.exports = Some(strs(&["f", "g"]));
    c.flags.symbols = true;
    c.wasm_config.import_memory = Some(ImportMemory { module: "env".to_string(), name: "mem".to_string() });
    c.wasm_config.memory_limits = Some(MemoryLimits { min: 1, max: 2 });
    c.wasm_config.shared_memory = Some(true);
    c.wasm_config.heap_start_address = Some(64);
    c.wasm_config.link_flags = Some(strs(&["-l"]));
    c.extra_link_opts = strs(&["-x"]);
    assert_eq!(
        c.build_command("moonc"),
        strs(&[
            "moonc",
            "link-core",
            "a.core",
            "-main",
            "u/m/main_blackbox_test",
            "-o",
            "main.wasm",
            "-pkg-config-path",
            "moon.pkg.json",
            "-target",
            "wasm",
            "-g",
            "-exported_functions=f,g",
            "-import-memory-module",
            "env",
            "-import-memory-name",
            "mem",
            "-memory-limits-min",
            "1",
            "-memory-limits-max",
            "2",
            "-shared-memory",
            "-heap-start-address",
            "64",
            "-l",
            "-x",
        ])
    );

    let mut js = base(TargetKind::Source, TargetBackend::Js);
    js.js_config = Some(JsConfig { format: Some(JsFormat::CJS), no_dts: true });
    js.wasm_config.shared_memory = Some(true);
    let mut args = Vec::new();
    js.to_args(&mut args);
    assert_eq!(
        args,
        strs(&[
            "link-core",
            "a.core",
            "-main",
            "u/m/main",
            "-o",
            "main.wasm",
            "-pkg-config-path",
            "moon.pkg.json",
            "-js-format",
            "cjs",
            "-no-dts",
            "-target",
            "js",
        ])
    );
}

#[test]
fn link_core_command_orders_stdlib_bundles_and_sources() {
    let linked = vec![
        LinkedPackage {
            fqn: fqn("u/m/lib"),
            kind: TargetKind::Source,
            root_path: "/m/lib".to_string(),
            core_path: "lib.core".to_string(),
        },
        LinkedPackage {
            fqn: fqn("u/m/main"),
            kind: TargetKind::WhiteboxTest,
            root_path: "/m/main".to_string(),
            core_path: "main.core".to_string(),
        },
    ];
    let stdlib = Some(StdlibCores {
        path: "/core".to_string(),
        abort_core: "abort.core".to_string(),
        core_core: "core.core".to_string(),
    });
    let c = link_core_command(
        &linked,
        &stdlib,
        false,
        fqn("u/m/main"),
        TargetKind::WhiteboxTest,
        "out.wasm".to_string(),
        "/m/main/moon.pkg.json".to_string(),
        TargetBackend::WasmGC,
        CompilationFlags::none(),
        WasmConfig::default(),
        None,
        None,
        vec![],
        false,
    );
    assert!(c.test_mode);
    assert_eq!(c.core_deps, strs(&["abort.core", "core.core", "lib.core", "main.core"]));
    let mut args = Vec::new();
    c.to_args(&mut args);
    assert_eq!(
        args,
        strs(&[
            "link-core",
            "abort.core",
            "core.core",
            "lib.core",
            "main.core",
            "-main",
            "u/m/main",
            "-o",
            "out.wasm",
            "-test-mode",
            "-pkg-config-path",
            "/m/main/moon.pkg.json",
            "-pkg-sources",
            "u/m/lib:/m/lib",
            "-pkg-sources",
            "u/m/main:/m/main",
            "-pkg-sources",
            "moonbitlang/core:/core",
            "-exported_functions",
            "moonbit_test_driver_internal_execute,moonbit_test_driver_finish",
            "-target",
            "wasm-gc",
        ])
    );

    let overridden = link_core_command(
        &linked,
        &stdlib,
        true,
        fqn("u/m/main"),
        TargetKind::Source,
        "out.wasm".to_string(),
        "c.json".to_string(),
        TargetBackend::Native,
        CompilationFlags::none(),
        WasmConfig::default(),
        None,
        Some(strs(&["f"])),
        vec![],
        false,
    );
    assert!(!overridden.test_mode);
    assert_eq!(overridden.core_deps, strs(&["core.core", "lib.core", "main.core"]));
}

#[test]
fn llvm_link_names_the_msvc_target_when_asked() {
    let mut c = base(TargetKind::Source, TargetBackend::LLVM);
    c.msvc_llvm_target = true;
    let mut args = Vec::new();
    c.to_args(&mut args);
    assert_eq!(&args[args.len() - 2..], &strs(&["-llvm-target", "x86_64-pc-windows-msvc"])[..]);
    let mut w = base(TargetKind::Source, TargetBackend::Wasm);
    w.msvc_llvm_target = true;
    let mut args = Vec::new();
    w.to_args(&mut args);
    assert!(!args.contains(&"-llvm-target".to_string()));
}
