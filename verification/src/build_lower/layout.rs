//! The target-directory layout of the legacy build: where each artifact of a
//! package is placed.

use vstd::prelude::*;

use super::artifact::{
    abort_core_path, abort_mi_path, artifact, bundle_dir, kind_suffix, last_segment,
    linked_core_artifact_ext, linked_core_ext, make_executable_artifact_ext, make_executable_ext,
    object_ext, object_file_ext, short_alias, static_lib_ext, static_library_ext, build_kind_suffix,
};
use crate::discover::model::{package_name, valid_id, DiscoverResult, DiscoveredPackage};
use crate::model::{
    backend_flag, opt_level_dir, run_mode_dir, BuildTarget, ModuleId, OperatingSystem, OptLevel,
    RunMode, TargetBackend, TargetKind,
};
use crate::path::{path_push, push_path};
use crate::text::{append_str, owned};

verus! {

/// The extension of the intermediate representation emitted by building.
pub const CORE_EXTENSION: &'static str = ".core";

/// The extension of a package's public interface emitted by checking and
/// building.
pub const MI_EXTENSION: &'static str = ".mi";

/// The directory, under a backend's directory, of packages from modules
/// other than the main one.
pub const LEGACY_NON_MAIN_MODULE_DIR: &'static str = ".mooncakes";

/// The interface file generated into a package's source folder.
pub const MBTI_GENERATED: &'static str = "pkg.generated.mbti";

/// The target folder layout of the legacy (pre-beta) build.
#[derive(Debug, Clone)]
pub struct LegacyLayout {
    /// The base target directory, usually `<project-root>/target`.
    pub target_base_dir: String,
    /// The main module, whose packages are not put into nested directories.
    pub main_module: Option<ModuleId>,
    /// The directory of the standard library.
    pub stdlib_dir: Option<String>,
    pub opt_level: OptLevel,
    pub run_mode: RunMode,
}

/// `dir` with `name` pushed, unless `name` is empty. Module names and package
/// paths are pushed whole, as relative paths of `/`-separated segments.
pub open spec fn push_name(dir: Seq<char>, name: Seq<char>) -> Seq<char> {
    if name.len() == 0 {
        dir
    } else {
        path_push(dir, name)
    }
}

/// `dir` followed by the place of package `p`: nothing more for the main
/// module's packages, `.mooncakes/<module>` for others, then the package's
/// path.
pub open spec fn package_rel(main_module: Option<ModuleId>, dir: Seq<char>, p: DiscoveredPackage) -> Seq<char> {
    let d = if main_module == Some(p.module) {
        dir
    } else {
        push_name(path_push(dir, LEGACY_NON_MAIN_MODULE_DIR@), p.module_name@)
    };
    push_name(d, p.package_path@)
}

/// `target/<backend>`.
pub open spec fn backend_dir(l: LegacyLayout, backend: TargetBackend) -> Seq<char> {
    path_push(l.target_base_dir@, backend_flag(backend))
}

/// `target/<backend>/<opt_level>/<run_mode>/[.mooncakes/<module>/]<package>`.
pub open spec fn layout_package_dir(l: LegacyLayout, p: DiscoveredPackage, backend: TargetBackend) -> Seq<char> {
    package_rel(
        l.main_module,
        path_push(path_push(backend_dir(l, backend), opt_level_dir(l.opt_level)), run_mode_dir(l.run_mode)),
        p,
    )
}

/// The short alias of a package: the last segment of its name.
pub open spec fn alias_of(p: DiscoveredPackage) -> Seq<char> {
    last_segment(package_name(p))
}

/// The file `name` in the directory of package `p`.
pub open spec fn package_file(l: LegacyLayout, p: DiscoveredPackage, backend: TargetBackend, name: Seq<char>) -> Seq<char> {
    path_push(layout_package_dir(l, p, backend), name)
}

/// The package of `target`.
pub open spec fn target_package(r: DiscoverResult, target: BuildTarget) -> DiscoveredPackage {
    r@.packages[target.package.0 as int]
}

/// Whether `target` is the source of `moonbitlang/core/abort`, which lives in
/// the bundled core.
pub open spec fn is_abort_target(r: DiscoverResult, target: BuildTarget) -> bool {
    r@.abort == Some(target.package)
}

/// Pushes `name` onto `dir` unless it is empty.
fn push_name_exec(dir: &mut String, name: &str)
    ensures
        final(dir)@ == push_name(old(dir)@, name@),
{
    if name.unicode_len() > 0 {
        push_path(dir, name);
    }
}

impl LegacyLayout {
    /// Pushes the place of `pkg` onto `dir`.
    fn push_package_dir_no_backend(&self, dir: &mut String, pkg: &DiscoveredPackage)
        ensures
            final(dir)@ == package_rel(self.main_module, old(dir)@, *pkg),
    {
        let is_main = match self.main_module {
            Some(m) => m == pkg.module,
            None => false,
        };
        if !is_main {
            push_path(dir, LEGACY_NON_MAIN_MODULE_DIR);
            push_name_exec(dir, pkg.module_name.as_str());
        }
        push_name_exec(dir, pkg.package_path.as_str());
    }

    /// The directory the package resides in:
    /// `target/<backend>/<opt_level>/<run_mode>/<package>` for the main
    /// module, `.../<run_mode>/.mooncakes/<module>/<package>` otherwise.
    pub fn package_dir(&self, pkg: &DiscoveredPackage, backend: TargetBackend) -> (r: String)
        ensures
            r@ == layout_package_dir(*self, *pkg, backend),
    {
        let mut dir = owned(self.target_base_dir.as_str());
        push_backend(&mut dir, backend);
        match self.opt_level {
            OptLevel::Release => push_path(&mut dir, "release"),
            OptLevel::Debug => push_path(&mut dir, "debug"),
        }
        push_path(&mut dir, self.run_mode.to_dir_name());
        self.push_package_dir_no_backend(&mut dir, pkg);
        dir
    }

    /// The file `name` in the directory of `pkg`.
    fn package_file_path(&self, pkg: &DiscoveredPackage, backend: TargetBackend, name: &str) -> (r: String)
        ensures
            r@ == package_file(*self, *pkg, backend, name@),
    {
        let mut dir = self.package_dir(pkg, backend);
        push_path(&mut dir, name);
        dir
    }

    /// The `.core` of a build target: in the package's directory, or the
    /// bundled `abort.core` of the standard library for the abort package.
    pub fn core_of_build_target(&self, pkg_list: &DiscoverResult, target: &BuildTarget, backend: TargetBackend) -> (r: String)
        requires
            valid_id(pkg_list@, target.package),
            is_abort_target(*pkg_list, *target) ==> target.kind == TargetKind::Source
                && self.stdlib_dir is Some,
        ensures
            r@ == if is_abort_target(*pkg_list, *target) {
                path_push(path_push(bundle_dir(self.stdlib_dir->0@, backend), "abort"@), "abort.core"@)
            } else {
                package_file(
                    *self,
                    target_package(*pkg_list, *target),
                    backend,
                    alias_of(target_package(*pkg_list, *target)) + kind_suffix(target.kind) + CORE_EXTENSION@,
                )
            },
    {
        if let Some(abort) = pkg_list.abort_pkg() {
            if abort == target.package {
                match &self.stdlib_dir {
                    Some(dir) => return abort_core_path(dir.as_str(), backend),
                    None => {
                        proof {
                            assert(false);
                        }
                        return String::new();
                    },
                }
            }
        }
        let pkg = pkg_list.get_package(target.package);
        let mut name = artifact(&pkg.fqn(), target.kind);
        append_str(&mut name, CORE_EXTENSION);
        self.package_file_path(pkg, backend, name.as_str())
    }

    /// The `.mi` of a build target: in the package's directory, or the
    /// bundled `abort.mi` of the standard library for the abort package.
    pub fn mi_of_build_target(&self, pkg_list: &DiscoverResult, target: &BuildTarget, backend: TargetBackend) -> (r: String)
        requires
            valid_id(pkg_list@, target.package),
            is_abort_target(*pkg_list, *target) ==> target.kind == TargetKind::Source
                && self.stdlib_dir is Some,
        ensures
            r@ == if is_abort_target(*pkg_list, *target) {
                path_push(path_push(bundle_dir(self.stdlib_dir->0@, backend), "abort"@), "abort.mi"@)
            } else {
                package_file(
                    *self,
                    target_package(*pkg_list, *target),
                    backend,
                    alias_of(target_package(*pkg_list, *target)) + kind_suffix(target.kind) + MI_EXTENSION@,
                )
            },
    {
        if let Some(abort) = pkg_list.abort_pkg() {
            if abort == target.package {
                match &self.stdlib_dir {
                    Some(dir) => return abort_mi_path(dir.as_str(), backend),
                    None => {
                        proof {
                            assert(false);
                        }
                        return String::new();
                    },
                }
            }
        }
        let pkg = pkg_list.get_package(target.package);
        let mut name = artifact(&pkg.fqn(), target.kind);
        append_str(&mut name, MI_EXTENSION);
        self.package_file_path(pkg, backend, name.as_str())
    }

    /// The linked core of a build target, in its package's directory.
    pub fn linked_core_of_build_target(
        &self,
        pkg_list: &DiscoverResult,
        target: &BuildTarget,
        backend: TargetBackend,
        os: OperatingSystem,
        wasm_use_wat: bool,
    ) -> (r: String)
        requires
            valid_id(pkg_list@, target.package),
            backend == TargetBackend::LLVM ==> os != OperatingSystem::NoOs,
        ensures
            r@ == package_file(
                *self,
                target_package(*pkg_list, *target),
                backend,
                alias_of(target_package(*pkg_list, *target)) + kind_suffix(target.kind)
                    + linked_core_ext(backend, os, wasm_use_wat),
            ),
    {
        let pkg = pkg_list.get_package(target.package);
        let mut name = artifact(&pkg.fqn(), target.kind);
        append_str(&mut name, linked_core_artifact_ext(backend, os, wasm_use_wat));
        self.package_file_path(pkg, backend, name.as_str())
    }

    /// The executable of a build target, in its package's directory.
    pub fn executable_of_build_target(
        &self,
        pkg_list: &DiscoverResult,
        target: &BuildTarget,
        backend: TargetBackend,
        os: OperatingSystem,
        legacy_behavior: bool,
        wasm_use_wat: bool,
    ) -> (r: String)
        requires
            valid_id(pkg_list@, target.package),
            (backend == TargetBackend::Native || backend == TargetBackend::LLVM) ==> (legacy_behavior
                || os != OperatingSystem::NoOs),
        ensures
            r@ == package_file(
                *self,
                target_package(*pkg_list, *target),
                backend,
                alias_of(target_package(*pkg_list, *target)) + kind_suffix(target.kind)
                    + make_executable_ext(backend, os, legacy_behavior, wasm_use_wat),
            ),
    {
        let pkg = pkg_list.get_package(target.package);
        let mut name = artifact(&pkg.fqn(), target.kind);
        append_str(&mut name, make_executable_artifact_ext(backend, os, legacy_behavior, wasm_use_wat));
        self.package_file_path(pkg, backend, name.as_str())
    }

    /// The generated test driver of a build target:
    /// `<alias>__generated_driver_for<suffix>.mbt` in its package's directory.
    pub fn generated_test_driver(&self, pkg_list: &DiscoverResult, target: &BuildTarget, backend: TargetBackend) -> (r: String)
        requires
            valid_id(pkg_list@, target.package),
        ensures
            r@ == package_file(
                *self,
                target_package(*pkg_list, *target),
                backend,
                alias_of(target_package(*pkg_list, *target)) + "__generated_driver_for"@ + kind_suffix(target.kind) + ".mbt"@,
            ),
    {
        let pkg = pkg_list.get_package(target.package);
        let mut name = short_alias(&pkg.fqn());
        append_str(&mut name, "__generated_driver_for");
        append_str(&mut name, build_kind_suffix(target.kind));
        append_str(&mut name, ".mbt");
        self.package_file_path(pkg, backend, name.as_str())
    }

    /// The test metadata of a build target: `__<suffix>_test_info.json` in its
    /// package's directory.
    pub fn generated_test_driver_metadata(&self, pkg_list: &DiscoverResult, target: &BuildTarget, backend: TargetBackend) -> (r: String)
        requires
            valid_id(pkg_list@, target.package),
        ensures
            r@ == package_file(
                *self,
                target_package(*pkg_list, *target),
                backend,
                "__"@ + kind_suffix(target.kind) + "_test_info.json"@,
            ),
    {
        let pkg = pkg_list.get_package(target.package);
        let mut name = owned("__");
        append_str(&mut name, build_kind_suffix(target.kind));
        append_str(&mut name, "_test_info.json");
        self.package_file_path(pkg, backend, name.as_str())
    }

    /// The bundle of a module: `<last segment of its name>.core` in the
    /// backend's directory.
    pub fn bundle_result_path(&self, backend: TargetBackend, module: &str) -> (r: String)
        ensures
            r@ == path_push(backend_dir(*self, backend), last_segment(module@) + ".core"@),
    {
        let mut result = owned(self.target_base_dir.as_str());
        push_backend(&mut result, backend);
        let mut name = last_segment_of(module);
        append_str(&mut name, ".core");
        push_path(&mut result, name.as_str());
        result
    }

    /// The runtime object: `runtime<object extension>` in the backend's
    /// directory.
    pub fn runtime_output_path(&self, backend: TargetBackend, os: OperatingSystem) -> (r: String)
        requires
            os != OperatingSystem::NoOs,
        ensures
            r@ == path_push(backend_dir(*self, backend), "runtime"@ + object_ext(os)),
    {
        let mut result = owned(self.target_base_dir.as_str());
        push_backend(&mut result, backend);
        let mut name = owned("runtime");
        append_str(&mut name, object_file_ext(os));
        push_path(&mut result, name.as_str());
        result
    }

    /// The stamp of formatting `filename` of `pkg`, in the package's
    /// wasm-gc directory.
    pub fn format_artifact_path(&self, pkg: &DiscoveredPackage, filename: &str) -> (r: String)
        ensures
            r@ == package_file(*self, *pkg, TargetBackend::WasmGC, filename@),
    {
        self.package_file_path(pkg, TargetBackend::WasmGC, filename)
    }

    /// The `.mi` of a package relative to a backend's directory.
    pub fn mi_of_pkg_without_backend(&self, pkg: &DiscoveredPackage) -> (r: String)
        ensures
            r@ == path_push(package_rel(self.main_module, Seq::empty(), *pkg), alias_of(*pkg) + MI_EXTENSION@),
    {
        let mut base_dir = String::new();
        assert(base_dir@ =~= Seq::<char>::empty());
        self.push_package_dir_no_backend(&mut base_dir, pkg);
        let mut name = short_alias(&pkg.fqn());
        append_str(&mut name, MI_EXTENSION);
        push_path(&mut base_dir, name.as_str());
        base_dir
    }

    /// The generated interface in a package's source folder.
    pub fn generated_mbti_path(&self, pkg_source: &str) -> (r: String)
        ensures
            r@ == path_push(pkg_source@, MBTI_GENERATED@),
    {
        let mut path = owned(pkg_source);
        push_path(&mut path, MBTI_GENERATED);
        path
    }

    /// The object of C stub `stub_name` of `package`, in its directory.
    pub fn c_stub_object_path(
        &self,
        pkg_list: &DiscoverResult,
        package: crate::model::PackageId,
        stub_name: &str,
        backend: TargetBackend,
        os: OperatingSystem,
    ) -> (r: String)
        requires
            valid_id(pkg_list@, package),
            os != OperatingSystem::NoOs,
        ensures
            r@ == package_file(*self, pkg_list@.packages[package.0 as int], backend, stub_name@ + object_ext(os)),
    {
        let pkg = pkg_list.get_package(package);
        let mut name = owned(stub_name);
        append_str(&mut name, object_file_ext(os));
        self.package_file_path(pkg, backend, name.as_str())
    }

    /// The static library of the C stubs of `package`:
    /// `lib<alias><static library extension>` in its directory.
    pub fn c_stub_archive_path(
        &self,
        pkg_list: &DiscoverResult,
        package: crate::model::PackageId,
        backend: TargetBackend,
        os: OperatingSystem,
    ) -> (r: String)
        requires
            valid_id(pkg_list@, package),
            os != OperatingSystem::NoOs,
        ensures
            r@ == package_file(
                *self,
                pkg_list@.packages[package.0 as int],
                backend,
                "lib"@ + alias_of(pkg_list@.packages[package.0 as int]) + static_lib_ext(os),
            ),
    {
        let pkg = pkg_list.get_package(package);
        let mut name = owned("lib");
        let alias = short_alias(&pkg.fqn());
        append_str(&mut name, alias.as_str());
        append_str(&mut name, static_library_ext(os));
        self.package_file_path(pkg, backend, name.as_str())
    }

    /// The documentation directory, `target/doc`.
    pub fn doc_dir(&self) -> (r: String)
        ensures
            r@ == path_push(self.target_base_dir@, "doc"@),
    {
        let mut dir = owned(self.target_base_dir.as_str());
        push_path(&mut dir, "doc");
        dir
    }

    /// The package metadata read by editors and tools,
    /// `target/packages.json`.
    pub fn packages_json_path(&self) -> (r: String)
        ensures
            r@ == path_push(self.target_base_dir@, "packages.json"@),
    {
        let mut path = owned(self.target_base_dir.as_str());
        push_path(&mut path, "packages.json");
        path
    }
}

/// Pushes the directory of `backend`.
fn push_backend(path: &mut String, backend: TargetBackend)
    ensures
        final(path)@ == path_push(old(path)@, backend_flag(backend)),
{
    push_path(path, backend.to_dir_name());
}

/// The last `/`-separated segment of `s`.
fn last_segment_of(s: &str) -> (r: String)
    ensures
        r@ == last_segment(s@),
{
    short_alias(&crate::build_lower::compiler::PackageFQN { name: owned(s) })
}

} // verus!
