use moonbuild_rupes_recta::build_lower::artifact::{ExecutableArtifact, LinkedCoreArtifact};
use moonbuild_rupes_recta::build_lower::backend::CExecutableRealization;
use moonbuild_rupes_recta::build_lower::backend_pipeline::BackendPipeline;
use moonbuild_rupes_recta::model::{
    DirectNativeMode, NativeBackendMode, NativeTarget, OperatingSystem, RunBackend,
};

#[test]
fn c_direct_object_realizes_linker_executable() {
    let native_mode = NativeBackendMode::DirectObject(DirectNativeMode::Target(
        NativeTarget::Aarch64AppleDarwin,
    ));
    assert_eq!(
        native_mode.executable_realization(),
        CExecutableRealization::LinkDirectObject
    );
}

#[test]
fn generated_c_realizes_compile_and_link() {
    assert_eq!(
        NativeBackendMode::GeneratedC.executable_realization(),
        CExecutableRealization::CompileAndLinkGeneratedC
    );
}

#[test]
fn tcc_run_keeps_link_core_as_generated_c() {
    let pipeline = BackendPipeline::from_config(RunBackend::Native, None, true, false, || {
        OperatingSystem::Linux
    });

    assert!(pipeline.uses_tcc_run());
    assert!(matches!(
        pipeline.linked_core_artifact(),
        LinkedCoreArtifact::NativeC
    ));
    assert!(matches!(
        pipeline.executable_artifact(),
        ExecutableArtifact::TccRunResponseFile
    ));
}

#[test]
fn direct_native_uses_object_link_core_and_native_executable() {
    let pipeline = BackendPipeline::from_config(
        RunBackend::Native,
        Some(NativeTarget::Aarch64AppleDarwin),
        false,
        false,
        || OperatingSystem::MacOS,
    );

    assert!(!pipeline.uses_tcc_run());
    assert!(matches!(
        pipeline.linked_core_artifact(),
        LinkedCoreArtifact::NativeObject {
            os: OperatingSystem::MacOS
        }
    ));
    assert!(matches!(
        pipeline.executable_artifact(),
        ExecutableArtifact::NativeExecutable
    ));
}

#[test]
fn llvm_uses_llvm_object_and_llvm_executable() {
    let pipeline = BackendPipeline::from_config(RunBackend::Llvm, None, false, false, || {
        OperatingSystem::Windows
    });

    assert!(matches!(
        pipeline.linked_core_artifact(),
        LinkedCoreArtifact::LlvmObject {
            os: OperatingSystem::Windows
        }
    ));
    assert!(matches!(
        pipeline.executable_artifact(),
        ExecutableArtifact::LlvmExecutable
    ));
}

#[test]
fn non_native_backends_preserve_linked_core_and_executable_shape() {
    let wasm = BackendPipeline::from_config(RunBackend::Wasm, None, false, true, || {
        OperatingSystem::NoOs
    });
    let wasm_gc = BackendPipeline::from_config(RunBackend::WasmGC, None, false, false, || {
        OperatingSystem::NoOs
    });
    let js = BackendPipeline::from_config(RunBackend::Js, None, false, false, || {
        OperatingSystem::NoOs
    });

    assert!(matches!(
        wasm.linked_core_artifact(),
        LinkedCoreArtifact::Wasm { use_wat: true }
    ));
    assert!(matches!(
        wasm.executable_artifact(),
        ExecutableArtifact::Wasm { use_wat: true }
    ));
    assert!(matches!(
        wasm_gc.linked_core_artifact(),
        LinkedCoreArtifact::WasmGC { use_wat: false }
    ));
    assert!(matches!(
        wasm_gc.executable_artifact(),
        ExecutableArtifact::WasmGC { use_wat: false }
    ));
    assert!(matches!(js.linked_core_artifact(), LinkedCoreArtifact::Js));
    assert!(matches!(js.executable_artifact(), ExecutableArtifact::Js));
}

#[test]
fn non_native_backends_do_not_need_operating_system() {
    let pipeline = BackendPipeline::from_config(RunBackend::Js, None, false, false, || {
        panic!("non-native pipeline should not resolve operating system")
    });

    assert!(matches!(
        pipeline.linked_core_artifact(),
        LinkedCoreArtifact::Js
    ));
}

#[test]
fn generated_c_without_tcc_compiles_and_links() {
    let pipeline = BackendPipeline::from_config(RunBackend::Native, None, false, false, || {
        OperatingSystem::Linux
    });

    assert!(!pipeline.uses_tcc_run());
    assert!(matches!(
        pipeline.linked_core_artifact(),
        LinkedCoreArtifact::NativeC
    ));
    assert!(matches!(
        pipeline.executable_artifact(),
        ExecutableArtifact::NativeExecutable
    ));
}
