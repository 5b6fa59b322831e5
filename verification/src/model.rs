//! Identifiers and configuration enums shared by planning and lowering.

use vstd::prelude::*;

use crate::text::str_eq;

verus! {

/// Identity of one discovered package.
#[derive(Clone, Copy, Debug, PartialEq, Eq, Structural, Hash, PartialOrd, Ord)]
pub struct PackageId(pub u64);

/// Identity of one resolved module.
#[derive(Clone, Copy, Debug, PartialEq, Eq, Structural, Hash, PartialOrd, Ord)]
pub struct ModuleId(pub u64);

/// Which compilation of a package a build target denotes.
#[derive(Clone, Copy, Debug, PartialEq, Eq, Structural, Hash, PartialOrd, Ord)]
pub enum TargetKind {
    Source,
    WhiteboxTest,
    BlackboxTest,
    InlineTest,
    SubPackage,
}

/// One compilation of one package.
#[derive(Clone, Copy, Debug, PartialEq, Eq, Structural, Hash, PartialOrd, Ord)]
pub struct BuildTarget {
    pub package: PackageId,
    pub kind: TargetKind,
}

impl PackageId {
    /// The build target of this package with the given kind.
    pub fn build_target(self, kind: TargetKind) -> (r: BuildTarget)
        ensures
            r == (BuildTarget { package: self, kind }),
    {
        BuildTarget { package: self, kind }
    }
}

/// One semantic action of a build plan.
#[derive(Clone, Copy, Debug, PartialEq, Eq, Structural, Hash)]
pub enum BuildPlanNode {
    Check(BuildTarget),
    EmitProof(BuildTarget),
    Prove(BuildTarget),
    BuildCore(BuildTarget),
    BuildCStub(PackageId, u32),
    ArchiveOrLinkCStubs(PackageId),
    LinkCore(BuildTarget),
    MakeExecutable(BuildTarget),
    GenerateDsym(BuildTarget),
    GenerateTestInfo(BuildTarget),
    GenerateNodeTestPackageConfig(PackageId),
    GenerateMbti(BuildTarget),
    BuildVirtual(PackageId),
    Bundle(ModuleId),
    BuildRuntimeObject(u32),
    BuildRuntimeLib,
    BuildDocs(ModuleId),
    /// The custom prebuild rule with the given index of a package.
    RunPrebuild(PackageId, u32),
    /// The lexer generator run with the given index of a package.
    RunMoonLexPrebuild(PackageId, u32),
    /// The parser generator run with the given index of a package.
    RunMoonYaccPrebuild(PackageId, u32),
}

/// The backend a package is compiled for.
#[derive(Clone, Copy, Debug, PartialEq, Eq, Structural, Hash, PartialOrd, Ord)]
pub enum TargetBackend {
    Wasm,
    WasmGC,
    Js,
    Native,
    LLVM,
}

/// The name of a backend as written by users, in file names and on the
/// compiler's command line.
pub open spec fn backend_flag(b: TargetBackend) -> Seq<char> {
    match b {
        TargetBackend::Wasm => "wasm"@,
        TargetBackend::WasmGC => "wasm-gc"@,
        TargetBackend::Js => "js"@,
        TargetBackend::Native => "native"@,
        TargetBackend::LLVM => "llvm"@,
    }
}

/// The backend whose name is `s`, if any.
pub open spec fn backend_of_name(s: Seq<char>) -> Option<TargetBackend> {
    if s == "wasm"@ {
        Some(TargetBackend::Wasm)
    } else if s == "wasm-gc"@ {
        Some(TargetBackend::WasmGC)
    } else if s == "js"@ {
        Some(TargetBackend::Js)
    } else if s == "native"@ {
        Some(TargetBackend::Native)
    } else if s == "llvm"@ {
        Some(TargetBackend::LLVM)
    } else {
        None
    }
}

impl TargetBackend {
    /// The value of the compiler's `-target` flag for this backend.
    pub fn to_flag(self) -> (r: &'static str)
        ensures
            r@ == backend_flag(self),
    {
        match self {
            TargetBackend::Wasm => "wasm",
            TargetBackend::WasmGC => "wasm-gc",
            TargetBackend::Js => "js",
            TargetBackend::Native => "native",
            TargetBackend::LLVM => "llvm",
        }
    }

    /// The directory under the target directory that holds this backend's
    /// artifacts.
    pub fn to_dir_name(self) -> (r: &'static str)
        ensures
            r@ == backend_flag(self),
    {
        self.to_flag()
    }

    /// Parses a backend name; `None` when `s` names no backend.
    pub fn str_to_backend(s: &str) -> (r: Option<TargetBackend>)
        ensures
            r == backend_of_name(s@),
    {
        if str_eq(s, "wasm") {
            Some(TargetBackend::Wasm)
        } else if str_eq(s, "wasm-gc") {
            Some(TargetBackend::WasmGC)
        } else if str_eq(s, "js") {
            Some(TargetBackend::Js)
        } else if str_eq(s, "native") {
            Some(TargetBackend::Native)
        } else if str_eq(s, "llvm") {
            Some(TargetBackend::LLVM)
        } else {
            None
        }
    }
}

/// The operating system of a native target; `NoOs` for targets without one.
#[derive(Clone, Copy, Debug, PartialEq, Eq, Structural, Hash)]
pub enum OperatingSystem {
    Windows,
    Linux,
    MacOS,
    NoOs,
}

/// The backend selected for running or building.
#[derive(Clone, Copy, Debug, PartialEq, Eq, Structural, Hash)]
pub enum RunBackend {
    Wasm,
    WasmGC,
    Js,
    Native,
    Llvm,
}

/// A target of the direct-object native backend.
#[derive(Clone, Copy, Debug, PartialEq, Eq, Structural, Hash)]
pub enum NativeTarget {
    Aarch64AppleDarwin,
    X86_64UnknownLinuxGnu,
    X86_64PcWindowsMsvc,
}

/// How the direct-object native backend was selected.
#[derive(Clone, Copy, Debug, PartialEq, Eq, Structural, Hash)]
pub enum DirectNativeMode {
    Target(NativeTarget),
}

impl DirectNativeMode {
    /// The native target of this mode.
    pub fn target(&self) -> (r: NativeTarget)
        ensures
            *self == DirectNativeMode::Target(r),
    {
        match self {
            DirectNativeMode::Target(t) => *t,
        }
    }
}

/// Which native code generator the native backend uses.
#[derive(Clone, Copy, Debug, PartialEq, Eq, Structural, Hash)]
pub enum NativeBackendMode {
    GeneratedC,
    DirectObject(DirectNativeMode),
}

/// The optimization level of a build.
#[derive(Clone, Copy, Debug, PartialEq, Eq, Structural, Hash)]
pub enum OptLevel {
    Release,
    Debug,
}

/// The directory name of an optimization level.
pub open spec fn opt_level_dir(o: OptLevel) -> Seq<char> {
    match o {
        OptLevel::Release => "release"@,
        OptLevel::Debug => "debug"@,
    }
}

/// The operation a build is run for.
#[derive(Clone, Copy, Debug, PartialEq, Eq, Structural, Hash)]
pub enum RunMode {
    Build,
    Run,
    Test,
    Bench,
    Check,
    Prove,
    Bundle,
    Format,
}

/// The directory name of a run mode: running shares the build's directory.
pub open spec fn run_mode_dir(m: RunMode) -> Seq<char> {
    match m {
        RunMode::Build | RunMode::Run => "build"@,
        RunMode::Test => "test"@,
        RunMode::Bench => "bench"@,
        RunMode::Check => "check"@,
        RunMode::Prove => "prove"@,
        RunMode::Bundle => "bundle"@,
        RunMode::Format => "format"@,
    }
}

impl RunMode {
    /// The directory under a backend's directory that holds this mode's
    /// artifacts.
    pub fn to_dir_name(self) -> (r: &'static str)
        ensures
            r@ == run_mode_dir(self),
    {
        match self {
            RunMode::Build | RunMode::Run => "build",
            RunMode::Test => "test",
            RunMode::Bench => "bench",
            RunMode::Check => "check",
            RunMode::Prove => "prove",
            RunMode::Bundle => "bundle",
            RunMode::Format => "format",
        }
    }
}

} // verus!
