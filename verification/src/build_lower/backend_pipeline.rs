//! Target backend pipeline decisions used by backend lowering.
//!
//! This module keeps the user-visible target backend separate from native
//! pipeline details. In particular, `tcc -run` still consumes generated C from
//! link-core; it only changes how the final runnable artifact is realized.

use vstd::prelude::*;

use crate::build_lower::artifact::{ExecutableArtifact, LinkedCoreArtifact};
use crate::model::{NativeTarget, OperatingSystem, RunBackend};

verus! {

/// The selected pipeline of a target backend.
#[derive(Clone, Copy, Debug, PartialEq, Eq, Structural)]
pub enum BackendPipeline {
    Wasm { use_wat: bool },
    WasmGC { use_wat: bool },
    Js,
    Native(NativePipeline),
}

/// The native pipeline: which link-core output it consumes and how its
/// executable is realized.
#[derive(Clone, Copy, Debug, PartialEq, Eq, Structural)]
pub struct NativePipeline {
    pub os: OperatingSystem,
    pub linked_core: NativeLinkedCore,
    pub executable: NativeExecutableRealization,
}

/// What link-core emits for a native pipeline.
#[derive(Clone, Copy, Debug, PartialEq, Eq, Structural)]
pub enum NativeLinkedCore {
    GeneratedC,
    DirectObject,
    LlvmObject,
}

/// How the final runnable artifact of a native pipeline is realized.
#[derive(Clone, Copy, Debug, PartialEq, Eq, Structural)]
pub enum NativeExecutableRealization {
    CompileAndLinkGeneratedC,
    LinkNativeObject,
    WriteTccRunResponseFile,
    LinkLlvmObject,
}

/// Whether a run backend produces native code (and so needs an operating system).
pub open spec fn is_native_backend(b: RunBackend) -> bool {
    b == RunBackend::Native || b == RunBackend::Llvm
}

/// The pipeline selected for a configuration, given the operating system that
/// a native pipeline targets (ignored otherwise).
pub open spec fn spec_pipeline(
    target_backend: RunBackend,
    native_target: Option<NativeTarget>,
    use_tcc_run: bool,
    output_wat: bool,
    os: OperatingSystem,
) -> BackendPipeline {
    match target_backend {
        RunBackend::Wasm => BackendPipeline::Wasm { use_wat: output_wat },
        RunBackend::WasmGC => BackendPipeline::WasmGC { use_wat: output_wat },
        RunBackend::Js => BackendPipeline::Js,
        RunBackend::Native => if use_tcc_run {
            BackendPipeline::Native(spec_tcc_run(os))
        } else if native_target is Some {
            BackendPipeline::Native(spec_direct_object(os))
        } else {
            BackendPipeline::Native(spec_generated_c_executable(os))
        },
        RunBackend::Llvm => BackendPipeline::Native(spec_llvm_object(os)),
    }
}

pub open spec fn spec_generated_c_executable(os: OperatingSystem) -> NativePipeline {
    NativePipeline {
        os,
        linked_core: NativeLinkedCore::GeneratedC,
        executable: NativeExecutableRealization::CompileAndLinkGeneratedC,
    }
}

pub open spec fn spec_tcc_run(os: OperatingSystem) -> NativePipeline {
    NativePipeline {
        os,
        linked_core: NativeLinkedCore::GeneratedC,
        executable: NativeExecutableRealization::WriteTccRunResponseFile,
    }
}

pub open spec fn spec_direct_object(os: OperatingSystem) -> NativePipeline {
    NativePipeline {
        os,
        linked_core: NativeLinkedCore::DirectObject,
        executable: NativeExecutableRealization::LinkNativeObject,
    }
}

pub open spec fn spec_llvm_object(os: OperatingSystem) -> NativePipeline {
    NativePipeline {
        os,
        linked_core: NativeLinkedCore::LlvmObject,
        executable: NativeExecutableRealization::LinkLlvmObject,
    }
}

pub open spec fn native_uses_tcc_run(p: NativePipeline) -> bool {
    p.executable == NativeExecutableRealization::WriteTccRunResponseFile
}

pub open spec fn pipeline_uses_tcc_run(p: BackendPipeline) -> bool {
    match p {
        BackendPipeline::Native(n) => native_uses_tcc_run(n),
        _ => false,
    }
}

pub open spec fn native_linked_core(p: NativePipeline) -> LinkedCoreArtifact {
    match p.linked_core {
        NativeLinkedCore::GeneratedC => LinkedCoreArtifact::NativeC,
        NativeLinkedCore::DirectObject => LinkedCoreArtifact::NativeObject { os: p.os },
        NativeLinkedCore::LlvmObject => LinkedCoreArtifact::LlvmObject { os: p.os },
    }
}

pub open spec fn native_executable(p: NativePipeline) -> ExecutableArtifact {
    match p.executable {
        NativeExecutableRealization::CompileAndLinkGeneratedC
        | NativeExecutableRealization::LinkNativeObject => ExecutableArtifact::NativeExecutable,
        NativeExecutableRealization::WriteTccRunResponseFile => ExecutableArtifact::TccRunResponseFile,
        NativeExecutableRealization::LinkLlvmObject => ExecutableArtifact::LlvmExecutable,
    }
}

pub open spec fn pipeline_linked_core(p: BackendPipeline) -> LinkedCoreArtifact {
    match p {
        BackendPipeline::Wasm { use_wat } => LinkedCoreArtifact::Wasm { use_wat },
        BackendPipeline::WasmGC { use_wat } => LinkedCoreArtifact::WasmGC { use_wat },
        BackendPipeline::Js => LinkedCoreArtifact::Js,
        BackendPipeline::Native(n) => native_linked_core(n),
    }
}

pub open spec fn pipeline_executable(p: BackendPipeline) -> ExecutableArtifact {
    match p {
        BackendPipeline::Wasm { use_wat } => ExecutableArtifact::Wasm { use_wat },
        BackendPipeline::WasmGC { use_wat } => ExecutableArtifact::WasmGC { use_wat },
        BackendPipeline::Js => ExecutableArtifact::Js,
        BackendPipeline::Native(n) => native_executable(n),
    }
}

impl BackendPipeline {
    /// Select the pipeline for a configuration. The operating system is
    /// requested only for native backends.
    pub fn from_config<F: FnOnce() -> OperatingSystem>(
        target_backend: RunBackend,
        native_target: Option<NativeTarget>,
        use_tcc_run: bool,
        output_wat: bool,
        os: F,
    ) -> (r: BackendPipeline)
        requires
            !use_tcc_run || target_backend == RunBackend::Native,
            !use_tcc_run || native_target is None,
            target_backend == RunBackend::Native || native_target is None,
            is_native_backend(target_backend) ==> os.requires(()),
        ensures
            !is_native_backend(target_backend) ==> r == spec_pipeline(
                target_backend,
                native_target,
                use_tcc_run,
                output_wat,
                OperatingSystem::NoOs,
            ),
            is_native_backend(target_backend) ==> exists|o: OperatingSystem|
                #[trigger] os.ensures((), o) && r == spec_pipeline(
                    target_backend,
                    native_target,
                    use_tcc_run,
                    output_wat,
                    o,
                ),
    {
        match target_backend {
            RunBackend::Wasm => BackendPipeline::Wasm { use_wat: output_wat },
            RunBackend::WasmGC => BackendPipeline::WasmGC { use_wat: output_wat },
            RunBackend::Js => BackendPipeline::Js,
            RunBackend::Native => {
                if use_tcc_run {
                    let o = os();
                    BackendPipeline::Native(NativePipeline::tcc_run(o))
                } else if native_target.is_some() {
                    let o = os();
                    BackendPipeline::Native(NativePipeline::direct_object(o))
                } else {
                    let o = os();
                    BackendPipeline::Native(NativePipeline::generated_c_executable(o))
                }
            },
            RunBackend::Llvm => {
                let o = os();
                BackendPipeline::Native(NativePipeline::llvm_object(o))
            },
        }
    }

    /// Whether the runnable artifact is a `tcc -run` response file.
    pub fn uses_tcc_run(self) -> (r: bool)
        ensures
            r == pipeline_uses_tcc_run(self),
    {
        match self {
            BackendPipeline::Native(native) => native.uses_tcc_run(),
            _ => false,
        }
    }

    /// The executable realization of a native pipeline.
    pub fn native_executable_realization(self) -> (r: NativeExecutableRealization)
        requires
            self is Native,
        ensures
            r == self->Native_0.executable,
    {
        match self {
            BackendPipeline::Native(native) => native.executable,
            _ => {
                proof {
                    assert(false);
                }
                NativeExecutableRealization::CompileAndLinkGeneratedC
            },
        }
    }

    /// The final runnable artifact of this pipeline.
    pub fn executable_artifact(self) -> (r: ExecutableArtifact)
        ensures
            r == pipeline_executable(self),
    {
        match self {
            BackendPipeline::Wasm { use_wat } => ExecutableArtifact::Wasm { use_wat },
            BackendPipeline::WasmGC { use_wat } => ExecutableArtifact::WasmGC { use_wat },
            BackendPipeline::Js => ExecutableArtifact::Js,
            BackendPipeline::Native(native) => native.executable_artifact(),
        }
    }

    /// The output of link-core in this pipeline.
    pub fn linked_core_artifact(self) -> (r: LinkedCoreArtifact)
        ensures
            r == pipeline_linked_core(self),
    {
        match self {
            BackendPipeline::Wasm { use_wat } => LinkedCoreArtifact::Wasm { use_wat },
            BackendPipeline::WasmGC { use_wat } => LinkedCoreArtifact::WasmGC { use_wat },
            BackendPipeline::Js => LinkedCoreArtifact::Js,
            BackendPipeline::Native(native) => native.linked_core_artifact(),
        }
    }
}

impl NativePipeline {
    pub fn generated_c_executable(os: OperatingSystem) -> (r: NativePipeline)
        ensures
            r == spec_generated_c_executable(os),
    {
        NativePipeline {
            os,
            linked_core: NativeLinkedCore::GeneratedC,
            executable: NativeExecutableRealization::CompileAndLinkGeneratedC,
        }
    }

    pub fn tcc_run(os: OperatingSystem) -> (r: NativePipeline)
        ensures
            r == spec_tcc_run(os),
    {
        NativePipeline {
            os,
            linked_core: NativeLinkedCore::GeneratedC,
            executable: NativeExecutableRealization::WriteTccRunResponseFile,
        }
    }

    pub fn direct_object(os: OperatingSystem) -> (r: NativePipeline)
        ensures
            r == spec_direct_object(os),
    {
        NativePipeline {
            os,
            linked_core: NativeLinkedCore::DirectObject,
            executable: NativeExecutableRealization::LinkNativeObject,
        }
    }

    pub fn llvm_object(os: OperatingSystem) -> (r: NativePipeline)
        ensures
            r == spec_llvm_object(os),
    {
        NativePipeline {
            os,
            linked_core: NativeLinkedCore::LlvmObject,
            executable: NativeExecutableRealization::LinkLlvmObject,
        }
    }

    pub fn uses_tcc_run(self) -> (r: bool)
        ensures
            r == native_uses_tcc_run(self),
    {
        match self.executable {
            NativeExecutableRealization::WriteTccRunResponseFile => true,
            _ => false,
        }
    }

    pub fn linked_core_artifact(self) -> (r: LinkedCoreArtifact)
        ensures
            r == native_linked_core(self),
    {
        match self.linked_core {
            NativeLinkedCore::GeneratedC => LinkedCoreArtifact::NativeC,
            NativeLinkedCore::DirectObject => LinkedCoreArtifact::NativeObject { os: self.os },
            NativeLinkedCore::LlvmObject => LinkedCoreArtifact::LlvmObject { os: self.os },
        }
    }

    pub fn executable_artifact(self) -> (r: ExecutableArtifact)
        ensures
            r == native_executable(self),
    {
        match self.executable {
            NativeExecutableRealization::CompileAndLinkGeneratedC
            | NativeExecutableRealization::LinkNativeObject => ExecutableArtifact::NativeExecutable,
            NativeExecutableRealization::WriteTccRunResponseFile => {
                ExecutableArtifact::TccRunResponseFile
            },
            NativeExecutableRealization::LinkLlvmObject => ExecutableArtifact::LlvmExecutable,
        }
    }
}

/// `tcc -run` keeps link-core on generated C: whenever the selected pipeline
/// realizes its executable as a `tcc -run` response file, link-core still
/// emits C, and a pipeline uses `tcc -run` exactly when it was asked to.
pub proof fn law_tcc_run_consumes_generated_c(
    target_backend: RunBackend,
    native_target: Option<NativeTarget>,
    use_tcc_run: bool,
    output_wat: bool,
    os: OperatingSystem,
)
    requires
        !use_tcc_run || target_backend == RunBackend::Native,
    ensures
        ({
            let p = spec_pipeline(target_backend, native_target, use_tcc_run, output_wat, os);
            &&& pipeline_uses_tcc_run(p) == use_tcc_run
            &&& pipeline_uses_tcc_run(p) ==> pipeline_linked_core(p) == LinkedCoreArtifact::NativeC
        }),
{
}

/// A pipeline uses `tcc -run` exactly when its runnable artifact is the
/// `tcc -run` response file.
pub proof fn law_tcc_run_iff_response_file(p: BackendPipeline)
    ensures
        pipeline_uses_tcc_run(p) <==> pipeline_executable(p) == ExecutableArtifact::TccRunResponseFile,
{
}

/// Non-native backends give link-core and the executable the same shape, and
/// do not depend on the operating system.
pub proof fn law_non_native_shape(
    target_backend: RunBackend,
    native_target: Option<NativeTarget>,
    use_tcc_run: bool,
    output_wat: bool,
    os1: OperatingSystem,
    os2: OperatingSystem,
)
    requires
        !is_native_backend(target_backend),
    ensures
        spec_pipeline(target_backend, native_target, use_tcc_run, output_wat, os1) == spec_pipeline(
            target_backend,
            native_target,
            use_tcc_run,
            output_wat,
            os2,
        ),
        ({
            let p = spec_pipeline(target_backend, native_target, use_tcc_run, output_wat, os1);
            match p {
                BackendPipeline::Wasm { use_wat } => pipeline_linked_core(p)
                    == LinkedCoreArtifact::Wasm { use_wat } && pipeline_executable(p)
                    == ExecutableArtifact::Wasm { use_wat } && use_wat == output_wat,
                BackendPipeline::WasmGC { use_wat } => pipeline_linked_core(p)
                    == LinkedCoreArtifact::WasmGC { use_wat } && pipeline_executable(p)
                    == ExecutableArtifact::WasmGC { use_wat } && use_wat == output_wat,
                BackendPipeline::Js => pipeline_linked_core(p) == LinkedCoreArtifact::Js
                    && pipeline_executable(p) == ExecutableArtifact::Js,
                BackendPipeline::Native(_) => false,
            }
        }),
{
}

/// Native pipelines that emit an object from link-core carry the operating
/// system they were configured for.
pub proof fn law_native_object_carries_os(
    target_backend: RunBackend,
    native_target: Option<NativeTarget>,
    os: OperatingSystem,
)
    requires
        target_backend == RunBackend::Llvm || (target_backend == RunBackend::Native
            && native_target is Some),
    ensures
        ({
            let p = spec_pipeline(target_backend, native_target, false, false, os);
            pipeline_linked_core(p) == (if target_backend == RunBackend::Llvm {
                LinkedCoreArtifact::LlvmObject { os }
            } else {
                LinkedCoreArtifact::NativeObject { os }
            })
        }),
{
}

} // verus!
