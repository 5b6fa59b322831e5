//! The decisions that turn a lowered command into an execution action: which
//! files the action observes beyond its command, which outputs it declares,
//! and whether its result may be cached.

use vstd::prelude::*;

use crate::execution_plan::plan::ExecutionAction;
use crate::execution_plan::ExternalInput;
use crate::model::{BuildPlanNode, TargetBackend};
use crate::path::{join_path, path_push};
use crate::text::str_eq;

verus! {

/// The kind of a planned action.
#[derive(Clone, Copy, Debug, PartialEq, Eq, Structural)]
pub enum ActionKind {
    Check,
    EmitProof,
    Prove,
    BuildCore,
    BuildCStub,
    ArchiveOrLinkCStubs,
    LinkCore,
    MakeExecutable,
    GenerateDsym,
    GenerateTestInfo,
    GenerateNodeTestPackageConfig,
    GenerateMbti,
    BuildVirtual,
    Bundle,
    BuildRuntimeObject,
    BuildRuntimeLib,
    BuildDocs,
    RunPrebuild,
    RunMoonLexPrebuild,
    RunMoonYaccPrebuild,
}

/// The kind of the action of a plan node.
pub open spec fn node_kind(n: BuildPlanNode) -> ActionKind {
    match n {
        BuildPlanNode::Check(_) => ActionKind::Check,
        BuildPlanNode::EmitProof(_) => ActionKind::EmitProof,
        BuildPlanNode::Prove(_) => ActionKind::Prove,
        BuildPlanNode::BuildCore(_) => ActionKind::BuildCore,
        BuildPlanNode::BuildCStub(..) => ActionKind::BuildCStub,
        BuildPlanNode::ArchiveOrLinkCStubs(_) => ActionKind::ArchiveOrLinkCStubs,
        BuildPlanNode::LinkCore(_) => ActionKind::LinkCore,
        BuildPlanNode::MakeExecutable(_) => ActionKind::MakeExecutable,
        BuildPlanNode::GenerateDsym(_) => ActionKind::GenerateDsym,
        BuildPlanNode::GenerateTestInfo(_) => ActionKind::GenerateTestInfo,
        BuildPlanNode::GenerateNodeTestPackageConfig(_) => ActionKind::GenerateNodeTestPackageConfig,
        BuildPlanNode::GenerateMbti(_) => ActionKind::GenerateMbti,
        BuildPlanNode::BuildVirtual(_) => ActionKind::BuildVirtual,
        BuildPlanNode::Bundle(_) => ActionKind::Bundle,
        BuildPlanNode::BuildRuntimeObject(_) => ActionKind::BuildRuntimeObject,
        BuildPlanNode::BuildRuntimeLib => ActionKind::BuildRuntimeLib,
        BuildPlanNode::BuildDocs(_) => ActionKind::BuildDocs,
        BuildPlanNode::RunPrebuild(..) => ActionKind::RunPrebuild,
        BuildPlanNode::RunMoonLexPrebuild(..) => ActionKind::RunMoonLexPrebuild,
        BuildPlanNode::RunMoonYaccPrebuild(..) => ActionKind::RunMoonYaccPrebuild,
    }
}

impl ActionKind {
    /// The kind of the action of plan node `n`.
    pub fn of_node(n: BuildPlanNode) -> (r: ActionKind)
        ensures
            r == node_kind(n),
    {
        match n {
            BuildPlanNode::Check(_) => ActionKind::Check,
            BuildPlanNode::EmitProof(_) => ActionKind::EmitProof,
            BuildPlanNode::Prove(_) => ActionKind::Prove,
            BuildPlanNode::BuildCore(_) => ActionKind::BuildCore,
            BuildPlanNode::BuildCStub(..) => ActionKind::BuildCStub,
            BuildPlanNode::ArchiveOrLinkCStubs(_) => ActionKind::ArchiveOrLinkCStubs,
            BuildPlanNode::LinkCore(_) => ActionKind::LinkCore,
            BuildPlanNode::MakeExecutable(_) => ActionKind::MakeExecutable,
            BuildPlanNode::GenerateDsym(_) => ActionKind::GenerateDsym,
            BuildPlanNode::GenerateTestInfo(_) => ActionKind::GenerateTestInfo,
            BuildPlanNode::GenerateNodeTestPackageConfig(_) => ActionKind::GenerateNodeTestPackageConfig,
            BuildPlanNode::GenerateMbti(_) => ActionKind::GenerateMbti,
            BuildPlanNode::BuildVirtual(_) => ActionKind::BuildVirtual,
            BuildPlanNode::Bundle(_) => ActionKind::Bundle,
            BuildPlanNode::BuildRuntimeObject(_) => ActionKind::BuildRuntimeObject,
            BuildPlanNode::BuildRuntimeLib => ActionKind::BuildRuntimeLib,
            BuildPlanNode::BuildDocs(_) => ActionKind::BuildDocs,
            BuildPlanNode::RunPrebuild(..) => ActionKind::RunPrebuild,
            BuildPlanNode::RunMoonLexPrebuild(..) => ActionKind::RunMoonLexPrebuild,
            BuildPlanNode::RunMoonYaccPrebuild(..) => ActionKind::RunMoonYaccPrebuild,
        }
    }
}

/// How a native executable is made from its linked core.
#[derive(Clone, Copy, Debug, PartialEq, Eq, Structural)]
pub enum ExecutableLinkMode {
    /// The native backend compiles the generated C and links it.
    CompileAndLinkGeneratedC,
    /// The native backend links the object it emitted directly.
    LinkDirectObject,
    /// The native backend writes a response file for `tcc -run`.
    WriteTccRunResponseFile,
    /// The LLVM backend compiles and links.
    Llvm,
}

/// Whether actions of `kind` read the standard library's interface tree.
pub open spec fn reads_stdlib_interfaces(kind: ActionKind) -> bool {
    kind == ActionKind::Check || kind == ActionKind::EmitProof || kind == ActionKind::Prove
        || kind == ActionKind::BuildCore || kind == ActionKind::BuildVirtual
}

/// Whether actions of `kind` read the standard library's interface tree.
pub fn observes_stdlib_interfaces(kind: ActionKind) -> (r: bool)
    ensures
        r == reads_stdlib_interfaces(kind),
{
    match kind {
        ActionKind::Check | ActionKind::EmitProof | ActionKind::Prove | ActionKind::BuildCore
        | ActionKind::BuildVirtual => true,
        _ => false,
    }
}

/// Whether an action of `kind` compiles C against the toolchain's headers:
/// C stubs and runtime objects always, the runtime library when the backend
/// shares it, and the executable when it is made from generated C.
pub open spec fn reads_toolchain_headers(kind: ActionKind, shared_runtime: bool, exe_mode: ExecutableLinkMode) -> bool {
    ||| kind == ActionKind::BuildCStub
    ||| kind == ActionKind::BuildRuntimeObject
    ||| (kind == ActionKind::BuildRuntimeLib && shared_runtime)
    ||| (kind == ActionKind::MakeExecutable && exe_mode == ExecutableLinkMode::CompileAndLinkGeneratedC)
}

/// Whether an action of `kind` compiles C against the toolchain's headers.
pub fn observes_toolchain_headers(kind: ActionKind, shared_runtime: bool, exe_mode: ExecutableLinkMode) -> (r: bool)
    ensures
        r == reads_toolchain_headers(kind, shared_runtime, exe_mode),
{
    match kind {
        ActionKind::BuildCStub | ActionKind::BuildRuntimeObject => true,
        ActionKind::BuildRuntimeLib => shared_runtime,
        ActionKind::MakeExecutable => exe_mode == ExecutableLinkMode::CompileAndLinkGeneratedC,
        _ => false,
    }
}

/// What decides whether an action's result may be cached: whether the
/// user-supplied flags that reach its command are empty, and how its
/// artifacts are made.
#[derive(Clone, Copy, Debug)]
pub struct CacheFacts {
    /// The module's compile flags are absent or empty.
    pub module_compile_flags_empty: bool,
    /// The C stub compiler flags are empty.
    pub stub_cc_flags_empty: bool,
    /// The C stubs are bundled into a static archive.
    pub stub_static_archive: bool,
    /// The C stub link flags are empty.
    pub stub_link_flags_empty: bool,
    /// The module's link flags are absent or empty.
    pub module_link_flags_empty: bool,
    /// The package's link flags for the selected backend are absent or empty.
    pub package_link_flags_empty: bool,
    /// The executable's C compiler flags are empty.
    pub exe_c_flags_empty: bool,
    /// The executable's link flags are empty.
    pub exe_link_flags_empty: bool,
    /// How the executable is made.
    pub exe_mode: ExecutableLinkMode,
}

/// Whether the result of an action of `kind` may be cached: when every
/// filesystem observation of its command is described by the action, that is
/// when no user flags reach it that could name other files. Proving, building
/// documentation and running custom prebuild commands observe more than their
/// files and are never cached.
pub open spec fn cacheable(kind: ActionKind, f: CacheFacts) -> bool {
    match kind {
        ActionKind::Check | ActionKind::EmitProof | ActionKind::BuildCore => f.module_compile_flags_empty,
        ActionKind::BuildCStub => f.stub_cc_flags_empty,
        ActionKind::ArchiveOrLinkCStubs => f.stub_static_archive || f.stub_link_flags_empty,
        ActionKind::LinkCore => f.module_link_flags_empty && f.package_link_flags_empty,
        ActionKind::MakeExecutable => match f.exe_mode {
            ExecutableLinkMode::CompileAndLinkGeneratedC | ExecutableLinkMode::Llvm => f.exe_c_flags_empty
                && f.exe_link_flags_empty,
            ExecutableLinkMode::LinkDirectObject => f.exe_link_flags_empty,
            ExecutableLinkMode::WriteTccRunResponseFile => true,
        },
        ActionKind::Prove | ActionKind::BuildDocs | ActionKind::RunPrebuild => false,
        _ => true,
    }
}

/// User flags that reach an action's command block caching it, since they
/// may make it read files the action does not declare: module compile flags
/// for checking and compiling MoonBit, C stub compiler flags for compiling a
/// stub, stub link flags for linking stubs into a shared library, module or
/// package link flags for linking a core, and the executable's flags where
/// its link mode passes them. Proving, building documentation and custom
/// prebuild commands are never cached.
pub proof fn law_user_flags_block_caching(kind: ActionKind, f: CacheFacts)
    ensures
        (kind == ActionKind::Check || kind == ActionKind::EmitProof || kind == ActionKind::BuildCore)
            && !f.module_compile_flags_empty ==> !cacheable(kind, f),
        kind == ActionKind::BuildCStub && !f.stub_cc_flags_empty ==> !cacheable(kind, f),
        kind == ActionKind::ArchiveOrLinkCStubs && !f.stub_static_archive && !f.stub_link_flags_empty
            ==> !cacheable(kind, f),
        kind == ActionKind::LinkCore && (!f.module_link_flags_empty || !f.package_link_flags_empty)
            ==> !cacheable(kind, f),
        kind == ActionKind::MakeExecutable && !f.exe_link_flags_empty && f.exe_mode
            != ExecutableLinkMode::WriteTccRunResponseFile ==> !cacheable(kind, f),
        kind == ActionKind::MakeExecutable && !f.exe_c_flags_empty && (f.exe_mode
            == ExecutableLinkMode::CompileAndLinkGeneratedC || f.exe_mode == ExecutableLinkMode::Llvm)
            ==> !cacheable(kind, f),
        kind == ActionKind::Prove || kind == ActionKind::BuildDocs || kind == ActionKind::RunPrebuild
            ==> !cacheable(kind, f),
{
}

/// With no user flags reaching it, every action but proving, building
/// documentation and running a custom prebuild command may be cached; and
/// an action whose cached result is allowed stays allowed when user flags
/// are removed.
pub proof fn law_no_user_flags_cacheable(kind: ActionKind, f: CacheFacts)
    ensures
        ({
            let clean = CacheFacts {
                module_compile_flags_empty: true,
                stub_cc_flags_empty: true,
                stub_link_flags_empty: true,
                module_link_flags_empty: true,
                package_link_flags_empty: true,
                exe_c_flags_empty: true,
                exe_link_flags_empty: true,
                ..f
            };
            &&& (kind != ActionKind::Prove && kind != ActionKind::BuildDocs && kind != ActionKind::RunPrebuild
                ==> cacheable(kind, clean))
            &&& (cacheable(kind, f) ==> cacheable(kind, clean))
        }),
{
}

/// Whether the result of an action of `kind` may be cached.
pub fn cache_eligible(kind: ActionKind, f: CacheFacts) -> (r: bool)
    ensures
        r == cacheable(kind, f),
{
    match kind {
        ActionKind::Check | ActionKind::EmitProof | ActionKind::BuildCore => f.module_compile_flags_empty,
        ActionKind::BuildCStub => f.stub_cc_flags_empty,
        ActionKind::ArchiveOrLinkCStubs => f.stub_static_archive || f.stub_link_flags_empty,
        ActionKind::LinkCore => f.module_link_flags_empty && f.package_link_flags_empty,
        ActionKind::MakeExecutable => match f.exe_mode {
            ExecutableLinkMode::CompileAndLinkGeneratedC | ExecutableLinkMode::Llvm => f.exe_c_flags_empty
                && f.exe_link_flags_empty,
            ExecutableLinkMode::LinkDirectObject => f.exe_link_flags_empty,
            ExecutableLinkMode::WriteTccRunResponseFile => true,
        },
        ActionKind::Prove | ActionKind::BuildDocs | ActionKind::RunPrebuild => false,
        _ => true,
    }
}

/// Whether the link flags a package declares for `backend` are absent or
/// empty: only the WebAssembly backends read them.
pub open spec fn package_link_flags_none(backend: TargetBackend, wasm: Option<Seq<String>>, wasm_gc: Option<Seq<String>>) -> bool {
    match backend {
        TargetBackend::Wasm => wasm is None || wasm->0.len() == 0,
        TargetBackend::WasmGC => wasm_gc is None || wasm_gc->0.len() == 0,
        _ => true,
    }
}

/// Whether the link flags a package declares for `backend` are absent or
/// empty.
pub fn package_link_flags_empty(
    backend: TargetBackend,
    wasm: &Option<Vec<String>>,
    wasm_gc: &Option<Vec<String>>,
) -> (r: bool)
    ensures
        r == package_link_flags_none(
            backend,
            match wasm {
                Some(v) => Some(v@),
                None => None,
            },
            match wasm_gc {
                Some(v) => Some(v@),
                None => None,
            },
        ),
{
    let flags = match backend {
        TargetBackend::Wasm => wasm,
        TargetBackend::WasmGC => wasm_gc,
        _ => {
            return true;
        },
    };
    match flags {
        Some(v) => v.len() == 0,
        None => true,
    }
}

/// The libraries of the toolchain that a command may name as arguments.
pub open spec fn moon_libraries() -> Seq<Seq<char>> {
    seq!["libmoonbitrun.o"@, "libbacktrace.a"@]
}

/// Whether `args` holds `s` as an argument.
pub open spec fn has_arg(args: Seq<String>, s: Seq<char>) -> bool {
    exists|i: int| 0 <= i < args.len() && #[trigger] args[i]@ == s
}

/// The toolchain libraries that `args` names, under `lib_path`, in order.
pub open spec fn named_libraries(args: Seq<String>, lib_path: Seq<char>) -> Seq<Seq<char>> {
    let a = path_push(lib_path, moon_libraries()[0]);
    let b = path_push(lib_path, moon_libraries()[1]);
    (if has_arg(args, a) {
        seq![a]
    } else {
        Seq::empty()
    }) + if has_arg(args, b) {
        seq![b]
    } else {
        Seq::empty()
    }
}

fn holds_arg(args: &Vec<String>, s: &str) -> (r: bool)
    ensures
        r == has_arg(args@, s@),
{
    let mut i: usize = 0;
    while i < args.len()
        invariant
            i <= args.len(),
            forall|j: int| 0 <= j < i ==> args@[j]@ != s@,
        decreases args.len() - i,
    {
        if str_eq(args[i].as_str(), s) {
            assert(args@[i as int]@ == s@);
            return true;
        }
        i = i + 1;
    }
    false
}

/// The files an action observes, given the inputs of its command: the
/// standard library's interface tree for the compiling kinds (when there is
/// a standard library), the toolchain's headers for the C-compiling kinds,
/// the toolchain libraries its arguments name, and the files of its
/// dependencies.
pub open spec fn action_observations(
    command_inputs: Seq<ExternalInput>,
    stdlib_interfaces: Option<Seq<char>>,
    reads_stdlib: bool,
    headers: Seq<String>,
    reads_headers: bool,
    libraries: Seq<Seq<char>>,
    dependency_paths: Seq<String>,
) -> Seq<Seq<char>> {
    Seq::new(command_inputs.len(), |i: int| crate::execution_plan::external_input_path(command_inputs[i]))
        + (if reads_stdlib && stdlib_interfaces is Some {
        seq![stdlib_interfaces->0]
    } else {
        Seq::empty()
    }) + (if reads_headers {
        Seq::new(headers.len(), |i: int| headers[i]@)
    } else {
        Seq::empty()
    }) + libraries + Seq::new(dependency_paths.len(), |i: int| dependency_paths[i]@)
}

/// What an action observes: its command's inputs first, in order; then, for
/// the kinds that compile MoonBit (checking, proving, compiling, building a
/// virtual package's interface) and when there is a standard library, the
/// library's interface tree; the toolchain's headers whenever C is compiled
/// (C stubs, runtime objects); and, last, every file of its dependencies in
/// order.
pub proof fn law_action_observations(
    kind: ActionKind,
    command_inputs: Seq<ExternalInput>,
    stdlib: Option<Seq<char>>,
    headers: Seq<String>,
    shared_runtime: bool,
    exe_mode: ExecutableLinkMode,
    libraries: Seq<Seq<char>>,
    dependency_paths: Seq<String>,
)
    ensures
        ({
            let r = action_observations(
                command_inputs,
                stdlib,
                reads_stdlib_interfaces(kind),
                headers,
                reads_toolchain_headers(kind, shared_runtime, exe_mode),
                libraries,
                dependency_paths,
            );
            &&& forall|i: int|
                0 <= i < command_inputs.len() ==> r[i] == crate::execution_plan::external_input_path(
                    #[trigger] command_inputs[i],
                )
            &&& (kind == ActionKind::Check || kind == ActionKind::EmitProof || kind == ActionKind::Prove
                || kind == ActionKind::BuildCore || kind == ActionKind::BuildVirtual) && stdlib is Some
                ==> r[command_inputs.len() as int] == stdlib->0
            &&& (kind == ActionKind::BuildCStub || kind == ActionKind::BuildRuntimeObject) ==> forall|h: int|
                0 <= h < headers.len() ==> r.contains(#[trigger] headers[h]@)
            &&& forall|d: int|
                0 <= d < dependency_paths.len() ==> r[r.len() - dependency_paths.len() + d]
                    == (#[trigger] dependency_paths[d])@
            &&& r.len() >= command_inputs.len() + dependency_paths.len()
        }),
{
    let r = action_observations(
        command_inputs,
        stdlib,
        reads_stdlib_interfaces(kind),
        headers,
        reads_toolchain_headers(kind, shared_runtime, exe_mode),
        libraries,
        dependency_paths,
    );
    let ci = Seq::new(command_inputs.len(), |i: int| crate::execution_plan::external_input_path(command_inputs[i]));
    let st = if reads_stdlib_interfaces(kind) && stdlib is Some {
        seq![stdlib->0]
    } else {
        Seq::empty()
    };
    let hs = if reads_toolchain_headers(kind, shared_runtime, exe_mode) {
        Seq::new(headers.len(), |i: int| headers[i]@)
    } else {
        Seq::empty()
    };
    let ds = Seq::new(dependency_paths.len(), |i: int| dependency_paths[i]@);
    assert(r == ci + st + hs + libraries + ds);
    if kind == ActionKind::BuildCStub || kind == ActionKind::BuildRuntimeObject {
        assert forall|h: int| 0 <= h < headers.len() implies r.contains(#[trigger] headers[h]@) by {
            assert(r[ci.len() + st.len() + h] == headers[h]@);
        }
    }
}

/// Whether the observation at each position is a regular file, but for the
/// standard library's interface tree right after the command's inputs.
pub open spec fn observation_kinds_ok(
    r: Seq<ExternalInput>,
    command_inputs: Seq<ExternalInput>,
    has_stdlib: bool,
) -> bool {
    forall|i: int|
        0 <= i < r.len() ==> if i < command_inputs.len() {
            r[i] == command_inputs[i]
        } else if has_stdlib && i == command_inputs.len() {
            r[i] is StandardLibraryInterfaces
        } else {
            r[i] is File
        }
}

fn push_files(v: &mut Vec<ExternalInput>, paths: &Vec<String>)
    ensures
        final(v)@.len() == old(v)@.len() + paths@.len(),
        forall|i: int| 0 <= i < old(v)@.len() ==> final(v)@[i] == old(v)@[i],
        forall|i: int|
            0 <= i < paths@.len() ==> final(v)@[old(v)@.len() + i] == ExternalInput::File(
                #[trigger] paths@[i],
            ),
{
    let mut i: usize = 0;
    while i < paths.len()
        invariant
            i <= paths.len(),
            v@.len() == old(v)@.len() + i,
            forall|j: int| 0 <= j < old(v)@.len() ==> v@[j] == old(v)@[j],
            forall|j: int| 0 <= j < i ==> v@[old(v)@.len() + j] == ExternalInput::File(#[trigger] paths@[j]),
        decreases paths.len() - i,
    {
        let p = paths[i].clone();
        v.push(ExternalInput::File(p));
        i = i + 1;
    }
}

/// The external inputs of an action of `kind` whose command observes
/// `command_inputs` and names the arguments `args`: see
/// [`action_observations`]. `stdlib_interfaces` is the standard library's
/// interface tree, if the build has a standard library; `headers` the
/// toolchain's include files; `lib_path` the toolchain's library directory.
pub fn action_external_inputs(
    kind: ActionKind,
    command_inputs: Vec<ExternalInput>,
    args: &Vec<String>,
    stdlib_interfaces: &Option<String>,
    headers: &Vec<String>,
    shared_runtime: bool,
    exe_mode: ExecutableLinkMode,
    lib_path: &str,
    dependency_paths: &Vec<String>,
) -> (r: Vec<ExternalInput>)
    ensures
        Seq::new(r@.len(), |i: int| crate::execution_plan::external_input_path(r@[i])) == action_observations(
            command_inputs@,
            match stdlib_interfaces {
                Some(s) => Some(s@),
                None => None,
            },
            reads_stdlib_interfaces(kind),
            headers@,
            reads_toolchain_headers(kind, shared_runtime, exe_mode),
            named_libraries(args@, lib_path@),
            dependency_paths@,
        ),
        observation_kinds_ok(r@, command_inputs@, reads_stdlib_interfaces(kind) && stdlib_interfaces is Some),
{
    let ghost ci = command_inputs@;
    let ghost pv = |v: Seq<ExternalInput>| Seq::new(v.len(), |i: int| crate::execution_plan::external_input_path(v[i]));
    let mut r = command_inputs;
    let ghost has_std = reads_stdlib_interfaces(kind) && stdlib_interfaces is Some;
    if observes_stdlib_interfaces(kind) {
        if let Some(s) = stdlib_interfaces {
            r.push(ExternalInput::StandardLibraryInterfaces(s.clone()));
        }
    }
    let ghost after_std = r@;
    assert(observation_kinds_ok(after_std, ci, has_std));
    assert(pv(after_std) =~= pv(ci) + (if has_std {
        seq![stdlib_interfaces->0@]
    } else {
        Seq::empty()
    }));
    if observes_toolchain_headers(kind, shared_runtime, exe_mode) {
        push_files(&mut r, headers);
    }
    let ghost after_headers = r@;
    assert(observation_kinds_ok(after_headers, ci, has_std)) by {
        assert forall|i: int| 0 <= i < after_headers.len() && i >= after_std.len() implies (#[trigger] after_headers[i]) is File by {
            assert(after_headers[after_std.len() + (i - after_std.len())] == ExternalInput::File(headers@[i - after_std.len()]));
        }
    }
    let ghost hs = if reads_toolchain_headers(kind, shared_runtime, exe_mode) {
        Seq::new(headers@.len(), |i: int| headers@[i]@)
    } else {
        Seq::<Seq<char>>::empty()
    };
    assert(pv(after_headers) =~= pv(after_std) + hs);
    let a = join_path(lib_path, "libmoonbitrun.o");
    let b = join_path(lib_path, "libbacktrace.a");
    proof {
        reveal_strlit("libmoonbitrun.o");
        reveal_strlit("libbacktrace.a");
    }
    let ghost libs = named_libraries(args@, lib_path@);
    if holds_arg(args, a.as_str()) {
        r.push(ExternalInput::File(a));
    }
    if holds_arg(args, b.as_str()) {
        r.push(ExternalInput::File(b));
    }
    let ghost after_libs = r@;
    assert(observation_kinds_ok(after_libs, ci, has_std)) by {
        assert forall|i: int| 0 <= i < after_libs.len() && i >= after_headers.len() implies (#[trigger] after_libs[i]) is File by {
        }
    }
    assert(pv(after_libs) =~= pv(after_headers) + libs);
    push_files(&mut r, dependency_paths);
    assert(observation_kinds_ok(r@, ci, has_std)) by {
        assert forall|i: int| 0 <= i < r@.len() && i >= after_libs.len() implies (#[trigger] r@[i]) is File by {
            assert(r@[after_libs.len() + (i - after_libs.len())] == ExternalInput::File(dependency_paths@[i - after_libs.len()]));
        }
        assert forall|i: int| 0 <= i < after_libs.len() implies r@[i] == #[trigger] after_libs[i] by {}
    }
    assert(pv(r@) =~= pv(after_libs) + Seq::new(dependency_paths@.len(), |i: int| dependency_paths@[i]@));
    assert(pv(r@) =~= action_observations(
        ci,
        match stdlib_interfaces {
            Some(s) => Some(s@),
            None => None,
        },
        reads_stdlib_interfaces(kind),
        headers@,
        reads_toolchain_headers(kind, shared_runtime, exe_mode),
        libs,
        dependency_paths@,
    ));
    r
}

/// The outputs an action declares besides its artifacts: the debug-symbol
/// bundle of a dsym action, the resolved outputs of a custom prebuild
/// command, and the generated file of a lexer or parser generator run.
pub open spec fn extra_outputs(kind: ActionKind, dsym_bundle: Seq<char>, prebuild_outputs: Seq<String>, generated: Seq<char>) -> Seq<Seq<char>> {
    match kind {
        ActionKind::GenerateDsym => seq![dsym_bundle],
        ActionKind::RunPrebuild => Seq::new(prebuild_outputs.len(), |i: int| prebuild_outputs[i]@),
        ActionKind::RunMoonLexPrebuild | ActionKind::RunMoonYaccPrebuild => seq![generated],
        _ => Seq::empty(),
    }
}

/// The outputs of an action: the paths of its artifacts, then the outputs it
/// declares besides them (see [`extra_outputs`]).
pub fn action_outputs(
    kind: ActionKind,
    artifact_paths: Vec<String>,
    dsym_bundle: &String,
    prebuild_outputs: &Vec<String>,
    generated: &String,
) -> (r: Vec<String>)
    ensures
        Seq::new(r@.len(), |i: int| r@[i]@) == Seq::new(artifact_paths@.len(), |i: int| artifact_paths@[i]@)
            + extra_outputs(kind, dsym_bundle@, prebuild_outputs@, generated@),
{
    let ghost start = artifact_paths@;
    let mut r = artifact_paths;
    match kind {
        ActionKind::GenerateDsym => {
            r.push(dsym_bundle.clone());
        },
        ActionKind::RunPrebuild => {
            let mut i: usize = 0;
            while i < prebuild_outputs.len()
                invariant
                    i <= prebuild_outputs.len(),
                    kind == ActionKind::RunPrebuild,
                    Seq::new(r@.len(), |j: int| r@[j]@) == Seq::new(start.len(), |j: int| start[j]@)
                        + Seq::new(i as nat, |j: int| prebuild_outputs@[j]@),
                decreases prebuild_outputs.len() - i,
            {
                let ghost before = r@;
                r.push(prebuild_outputs[i].clone());
                assert(Seq::new(r@.len(), |j: int| r@[j]@) =~= Seq::new(before.len(), |j: int| before[j]@).push(prebuild_outputs@[i as int]@));
                assert(Seq::new(r@.len(), |j: int| r@[j]@) =~= Seq::new(start.len(), |j: int| start[j]@)
                    + Seq::new((i + 1) as nat, |j: int| prebuild_outputs@[j]@));
                i = i + 1;
            }
        },
        ActionKind::RunMoonLexPrebuild | ActionKind::RunMoonYaccPrebuild => {
            r.push(generated.clone());
        },
        _ => {},
    }
    assert(Seq::new(r@.len(), |i: int| r@[i]@) =~= Seq::new(start.len(), |i: int| start[i]@)
        + extra_outputs(kind, dsym_bundle@, prebuild_outputs@, generated@));
    r
}

/// Whether a change to an output of an action of `kind` dirties it: the
/// checking and proving kinds, whose outputs are reports.
pub open spec fn dirties_on_output(kind: ActionKind) -> bool {
    kind == ActionKind::Check || kind == ActionKind::EmitProof || kind == ActionKind::Prove
}

/// Completes the execution action of an action of `kind`: whether it may be
/// cached, whether its outputs dirty it, and the package reported when it
/// fails.
pub fn finish_action(action: ExecutionAction, kind: ActionKind, facts: CacheFacts, error_package: Option<String>) -> (r:
    ExecutionAction)
    ensures
        r == (ExecutionAction {
            cache_eligible: cacheable(kind, facts),
            can_dirty_on_output: dirties_on_output(kind),
            error_package,
            ..action
        }),
{
    let cache = cache_eligible(kind, facts);
    let dirty = match kind {
        ActionKind::Check | ActionKind::EmitProof | ActionKind::Prove => true,
        _ => false,
    };
    ExecutionAction { cache_eligible: cache, can_dirty_on_output: dirty, error_package, ..action }
}

} // verus!
