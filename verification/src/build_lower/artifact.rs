//! Kinds of linked and executable artifacts, and their file extensions.

use vstd::prelude::*;

use crate::build_lower::compiler::PackageFQN;
use crate::model::{backend_flag, OperatingSystem, TargetBackend, TargetKind};
use crate::path::{path_push, push_path};
use crate::text::{append_str, owned};

verus! {

/// The output of link-core.
#[derive(Clone, Copy, Debug, PartialEq, Eq, Structural)]
pub enum LinkedCoreArtifact {
    Wasm { use_wat: bool },
    WasmGC { use_wat: bool },
    Js,
    NativeC,
    NativeObject { os: OperatingSystem },
    LlvmObject { os: OperatingSystem },
}

/// The final runnable artifact of a build target.
#[derive(Clone, Copy, Debug, PartialEq, Eq, Structural)]
pub enum ExecutableArtifact {
    Wasm { use_wat: bool },
    WasmGC { use_wat: bool },
    Js,
    NativeExecutable,
    TccRunResponseFile,
    LlvmExecutable,
}

/// The suffix that tells apart the artifacts of a package's target kinds.
pub open spec fn kind_suffix(kind: TargetKind) -> Seq<char> {
    match kind {
        TargetKind::Source => ""@,
        TargetKind::WhiteboxTest => ".whitebox_test"@,
        TargetKind::BlackboxTest => ".blackbox_test"@,
        TargetKind::InlineTest => ".inline_test"@,
        TargetKind::SubPackage => "_sub"@,
    }
}

/// The suffix that tells apart the artifacts of a package's target kinds.
pub fn build_kind_suffix(kind: TargetKind) -> (r: &'static str)
    ensures
        r@ == kind_suffix(kind),
{
    match kind {
        TargetKind::Source => "",
        TargetKind::WhiteboxTest => ".whitebox_test",
        TargetKind::BlackboxTest => ".blackbox_test",
        TargetKind::InlineTest => ".inline_test",
        TargetKind::SubPackage => "_sub",
    }
}

/// The extension of object files on `os`.
pub open spec fn object_ext(os: OperatingSystem) -> Seq<char> {
    match os {
        OperatingSystem::Windows => ".obj"@,
        _ => ".o"@,
    }
}

/// The extension of object files on `os`; there is none for targets without
/// an operating system.
pub fn object_file_ext(os: OperatingSystem) -> (r: &'static str)
    requires
        os != OperatingSystem::NoOs,
    ensures
        r@ == object_ext(os),
{
    match os {
        OperatingSystem::Windows => ".obj",
        _ => ".o",
    }
}

/// The extension of static libraries on `os`.
pub open spec fn static_lib_ext(os: OperatingSystem) -> Seq<char> {
    match os {
        OperatingSystem::Windows => ".lib"@,
        _ => ".a"@,
    }
}

/// The extension of static libraries on `os`; there is none for targets
/// without an operating system.
pub fn static_library_ext(os: OperatingSystem) -> (r: &'static str)
    requires
        os != OperatingSystem::NoOs,
    ensures
        r@ == static_lib_ext(os),
{
    match os {
        OperatingSystem::Windows => ".lib",
        _ => ".a",
    }
}

/// The extension of dynamic libraries on `os`.
pub open spec fn dynamic_lib_ext(os: OperatingSystem) -> Seq<char> {
    match os {
        OperatingSystem::Windows => ".dll"@,
        OperatingSystem::Linux => ".so"@,
        _ => ".dylib"@,
    }
}

/// The extension of dynamic libraries on `os`; there is none for targets
/// without an operating system.
pub fn dynamic_library_ext(os: OperatingSystem) -> (r: &'static str)
    requires
        os != OperatingSystem::NoOs,
    ensures
        r@ == dynamic_lib_ext(os),
{
    match os {
        OperatingSystem::Windows => ".dll",
        OperatingSystem::Linux => ".so",
        _ => ".dylib",
    }
}

/// The extension of executables: `.exe` under the earlier driver's behavior,
/// and otherwise on Windows only.
pub open spec fn exe_ext(os: OperatingSystem, legacy_behavior: bool) -> Seq<char> {
    if legacy_behavior || os == OperatingSystem::Windows {
        ".exe"@
    } else {
        ""@
    }
}

/// The extension of executables; without the earlier driver's behavior there
/// is none for targets without an operating system.
pub fn executable_ext(os: OperatingSystem, legacy_behavior: bool) -> (r: &'static str)
    requires
        legacy_behavior || os != OperatingSystem::NoOs,
    ensures
        r@ == exe_ext(os, legacy_behavior),
{
    if legacy_behavior {
        ".exe"
    } else {
        match os {
            OperatingSystem::Windows => ".exe",
            _ => "",
        }
    }
}

/// The extension of the linked core for a backend.
pub open spec fn linked_core_ext(backend: TargetBackend, os: OperatingSystem, wasm_use_wat: bool) -> Seq<
    char,
> {
    match backend {
        TargetBackend::Wasm | TargetBackend::WasmGC => if wasm_use_wat {
            ".wat"@
        } else {
            ".wasm"@
        },
        TargetBackend::Js => ".js"@,
        TargetBackend::Native => ".c"@,
        TargetBackend::LLVM => object_ext(os),
    }
}

/// The extension of the linked core for a backend.
pub fn linked_core_artifact_ext(backend: TargetBackend, os: OperatingSystem, wasm_use_wat: bool) -> (r:
    &'static str)
    requires
        backend == TargetBackend::LLVM ==> os != OperatingSystem::NoOs,
    ensures
        r@ == linked_core_ext(backend, os, wasm_use_wat),
{
    match backend {
        TargetBackend::Wasm | TargetBackend::WasmGC => if wasm_use_wat {
            ".wat"
        } else {
            ".wasm"
        },
        TargetBackend::Js => ".js",
        TargetBackend::Native => ".c",
        TargetBackend::LLVM => object_file_ext(os),
    }
}

/// The extension of the executable made for a backend.
pub open spec fn make_executable_ext(
    backend: TargetBackend,
    os: OperatingSystem,
    legacy_behavior: bool,
    wasm_use_wat: bool,
) -> Seq<char> {
    match backend {
        TargetBackend::Wasm | TargetBackend::WasmGC => if wasm_use_wat {
            ".wat"@
        } else {
            ".wasm"@
        },
        TargetBackend::Js => ".js"@,
        _ => exe_ext(os, legacy_behavior),
    }
}

/// The extension of the executable made for a backend.
pub fn make_executable_artifact_ext(
    backend: TargetBackend,
    os: OperatingSystem,
    legacy_behavior: bool,
    wasm_use_wat: bool,
) -> (r: &'static str)
    requires
        (backend == TargetBackend::Native || backend == TargetBackend::LLVM) ==> (legacy_behavior
            || os != OperatingSystem::NoOs),
    ensures
        r@ == make_executable_ext(backend, os, legacy_behavior, wasm_use_wat),
{
    match backend {
        TargetBackend::Wasm | TargetBackend::WasmGC => if wasm_use_wat {
            ".wat"
        } else {
            ".wasm"
        },
        TargetBackend::Js => ".js",
        _ => executable_ext(os, legacy_behavior),
    }
}

/// The last `/`-separated segment of `s`.
pub open spec fn last_segment(s: Seq<char>) -> Seq<char>
    decreases s.len(),
{
    if s.len() == 0 {
        s
    } else if s.last() == '/' {
        Seq::empty()
    } else {
        last_segment(s.drop_last()).push(s.last())
    }
}

/// The short alias of a package: the last segment of its name.
pub fn short_alias(fqn: &PackageFQN) -> (r: String)
    ensures
        r@ == last_segment(fqn.name@),
{
    let s = fqn.name.as_str();
    let n = s.unicode_len();
    let mut start: usize = n;
    proof {
        assert(s@.take(n as int) =~= s@);
        assert(s@.subrange(n as int, n as int) =~= Seq::<char>::empty());
        assert(last_segment(s@) + Seq::<char>::empty() =~= last_segment(s@));
    }
    while start > 0 && s.get_char(start - 1) != '/'
        invariant
            start <= n,
            n == s@.len(),
            last_segment(s@) == last_segment(s@.take(start as int)) + s@.subrange(start as int, n as int),
        decreases start,
    {
        proof {
            let t = s@.take(start as int);
            assert(t.drop_last() =~= s@.take(start - 1));
            assert(s@.subrange(start - 1, n as int) =~= seq![t.last()] + s@.subrange(start as int, n as int));
            assert(last_segment(t) == last_segment(t.drop_last()).push(t.last()));
            assert(last_segment(t.drop_last()).push(t.last()) + s@.subrange(start as int, n as int)
                =~= last_segment(t.drop_last()) + s@.subrange(start - 1, n as int));
        }
        start = start - 1;
    }
    proof {
        let t = s@.take(start as int);
        assert(last_segment(t) =~= Seq::<char>::empty());
        assert(s@.take(n as int) =~= s@);
        assert(s@.subrange(n as int, n as int) =~= Seq::<char>::empty());
    }
    let r = crate::text::substring(s, start, n);
    assert(r@ =~= last_segment(fqn.name@));
    r
}

/// The base name of a package's artifacts for a target kind: the package's
/// short alias and the suffix of the kind.
pub fn artifact(fqn: &PackageFQN, kind: TargetKind) -> (r: String)
    ensures
        r@ == last_segment(fqn.name@) + kind_suffix(kind),
{
    let mut r = short_alias(fqn);
    append_str(&mut r, build_kind_suffix(kind));
    r
}

/// `root/target/<backend>/release/bundle`.
pub open spec fn bundle_dir(core_root: Seq<char>, backend: TargetBackend) -> Seq<char> {
    path_push(
        path_push(path_push(path_push(core_root, "target"@), backend_flag(backend)), "release"@),
        "bundle"@,
    )
}

/// The directory of the standard library's bundled core for a backend.
pub fn core_bundle_path(core_root: &str, backend: TargetBackend) -> (r: String)
    ensures
        r@ == bundle_dir(core_root@, backend),
{
    let mut path = owned(core_root);
    push_path(&mut path, "target");
    push_path(&mut path, backend.to_dir_name());
    push_path(&mut path, "release");
    push_path(&mut path, "bundle");
    path
}

/// The bundled `abort.core` for a backend.
pub fn abort_core_path(core_root: &str, backend: TargetBackend) -> (r: String)
    ensures
        r@ == path_push(path_push(bundle_dir(core_root@, backend), "abort"@), "abort.core"@),
{
    let mut path = core_bundle_path(core_root, backend);
    push_path(&mut path, "abort");
    push_path(&mut path, "abort.core");
    path
}

/// The bundled `abort.mi` for a backend.
pub fn abort_mi_path(core_root: &str, backend: TargetBackend) -> (r: String)
    ensures
        r@ == path_push(path_push(bundle_dir(core_root@, backend), "abort"@), "abort.mi"@),
{
    let mut path = core_bundle_path(core_root, backend);
    push_path(&mut path, "abort");
    push_path(&mut path, "abort.mi");
    path
}

/// The bundled `core.core` for a backend.
pub fn core_core_path(core_root: &str, backend: TargetBackend) -> (r: String)
    ensures
        r@ == path_push(bundle_dir(core_root@, backend), "core.core"@),
{
    let mut path = core_bundle_path(core_root, backend);
    push_path(&mut path, "core.core");
    path
}

} // verus!
