//! The packages found by discovery, indexed by module, path and name.

use vstd::prelude::*;

use crate::assoc::{assoc_map, lemma_assoc_lookup, lemma_assoc_push, lemma_assoc_update, unique_keys};
use crate::build_lower::compiler::PackageFQN;
use crate::model::{ModuleId, PackageId, TargetBackend};
use crate::path::{join_path, path_push};
use crate::text::{append_str, owned, str_eq};

verus! {

/// One import of a package manifest: the imported package's full name, and
/// the alias it is imported under when one is given.
#[derive(Debug, Clone, PartialEq, Eq)]
pub struct Import {
    pub path: String,
    pub alias: Option<String>,
}

/// The parts of a package manifest that discovery and the layout read.
#[derive(Debug, Clone)]
pub struct PackageConfig {
    /// `Some(has_default)` for a virtual package: whether it carries a
    /// default implementation.
    pub virtual_pkg: Option<bool>,
    /// The virtual package this package implements, if any.
    pub implement: Option<String>,
    /// Whether the package is a main package, linked into an executable.
    pub is_main: bool,
    pub imports: Vec<Import>,
    pub test_imports: Vec<Import>,
    pub wbtest_imports: Vec<Import>,
    /// Functions exported by the link options of each backend, where given.
    pub wasm_exports: Option<Vec<String>>,
    pub wasm_gc_exports: Option<Vec<String>>,
    pub js_exports: Option<Vec<String>>,
    pub native_exports: Option<Vec<String>>,
    /// The C stub files the package declares, relative to its folder.
    pub native_stub: Option<Vec<String>>,
    /// The package's warning settings.
    pub warn_list: Option<String>,
    /// Whether the package carries proofs.
    pub proof_enabled: bool,
}

/// One package found by discovery.
#[derive(Debug, Clone)]
pub struct DiscoveredPackage {
    /// The folder of the package in the source tree.
    pub root_path: String,
    /// The module this package is in.
    pub module: ModuleId,
    /// The name of that module, `user/module`.
    pub module_name: String,
    /// The path of the package within its module; empty for the module's
    /// root package.
    pub package_path: String,
    /// Whether this is a synthetic single-file package.
    pub is_single_file: bool,
    pub raw: PackageConfig,
    /// Unfiltered `.mbt` files of the package.
    pub source_files: Vec<String>,
    pub mbt_lex_files: Vec<String>,
    pub mbt_yacc_files: Vec<String>,
    pub mbt_md_files: Vec<String>,
    pub mbtp_files: Vec<String>,
    pub c_stub_files: Vec<String>,
    /// The C headers found under the folder of a package with C stubs.
    pub c_stub_header_files: Vec<String>,
    /// The interface files of a virtual package that exist in its folder.
    pub virtual_mbti_files: Vec<String>,
    /// Whether the package is part of the standard library.
    pub is_stdlib: bool,
}

/// The fully qualified name of a package: its module's name, then its path
/// within the module when that is not empty.
pub open spec fn fqn_name(module_name: Seq<char>, package_path: Seq<char>) -> Seq<char> {
    if package_path.len() == 0 {
        module_name
    } else {
        module_name + "/"@ + package_path
    }
}

/// The fully qualified name of `p`.
pub open spec fn package_name(p: DiscoveredPackage) -> Seq<char> {
    fqn_name(p.module_name@, p.package_path@)
}

/// The manifest file name of the DSL format.
pub const MOON_PKG: &'static str = "moon.pkg";

/// The manifest file name of the JSON format.
pub const MOON_PKG_JSON: &'static str = "moon.pkg.json";

/// The exports that the link options of `backend` declare.
pub open spec fn exports_for(c: PackageConfig, backend: TargetBackend) -> Option<Vec<String>> {
    match backend {
        TargetBackend::Wasm => c.wasm_exports,
        TargetBackend::WasmGC => c.wasm_gc_exports,
        TargetBackend::Js => c.js_exports,
        TargetBackend::Native | TargetBackend::LLVM => c.native_exports,
    }
}

impl DiscoveredPackage {
    /// The manifest of this package: `moon.pkg` in its folder when that file
    /// exists (`moon_pkg_exists`), `moon.pkg.json` otherwise.
    pub fn config_path(&self, moon_pkg_exists: bool) -> (r: String)
        ensures
            r@ == path_push(
                self.root_path@,
                if moon_pkg_exists {
                    MOON_PKG@
                } else {
                    MOON_PKG_JSON@
                },
            ),
    {
        if moon_pkg_exists {
            join_path(self.root_path.as_str(), MOON_PKG)
        } else {
            join_path(self.root_path.as_str(), MOON_PKG_JSON)
        }
    }

    /// Whether this is a virtual package.
    pub fn is_virtual(&self) -> (r: bool)
        ensures
            r == self.raw.virtual_pkg is Some,
    {
        self.raw.virtual_pkg.is_some()
    }

    /// Whether this package implements a virtual package.
    pub fn is_virtual_impl(&self) -> (r: bool)
        ensures
            r == self.raw.implement is Some,
    {
        self.raw.implement.is_some()
    }

    /// Whether the package has code to compile: a regular package, or a
    /// virtual package with a default implementation.
    pub fn has_implementation(&self) -> (r: bool)
        ensures
            r == match self.raw.virtual_pkg {
                None => true,
                Some(has_default) => has_default,
            },
    {
        match self.raw.virtual_pkg {
            None => true,
            Some(has_default) => has_default,
        }
    }

    /// The functions the package exports on `backend`, if its link options
    /// declare them.
    pub fn exported_functions(&self, backend: TargetBackend) -> (r: Option<&Vec<String>>)
        ensures
            match exports_for(self.raw, backend) {
                Some(v) => r == Some(&v),
                None => r is None,
            },
    {
        match backend {
            TargetBackend::Wasm => self.raw.wasm_exports.as_ref(),
            TargetBackend::WasmGC => self.raw.wasm_gc_exports.as_ref(),
            TargetBackend::Js => self.raw.js_exports.as_ref(),
            TargetBackend::Native | TargetBackend::LLVM => self.raw.native_exports.as_ref(),
        }
    }

    /// The fully qualified name of the package.
    pub fn fqn(&self) -> (r: PackageFQN)
        ensures
            r.name@ == package_name(*self),
    {
        let mut name = owned(self.module_name.as_str());
        if self.package_path.as_str().unicode_len() > 0 {
            proof {
                reveal_strlit("/");
            }
            append_str(&mut name, "/");
            append_str(&mut name, self.package_path.as_str());
        }
        PackageFQN { name }
    }
}

/// Why discovery failed.
#[derive(Debug)]
pub enum DiscoverError {
    /// The module read from its folder is not the module the registry named.
    ModuleNameMismatch { registry: String, read: String },
    /// A C stub of package `package` in module `module` leaves the package
    /// folder; `path` is the stub as declared.
    InvalidStubPath { module: String, package: String, path: String },
    /// Two packages have the same fully qualified name; both names are given.
    ConflictingPackageNameString { first: String, second: String },
}

/// The packages found by discovery: package `PackageId(i)` is `packages[i]`.
#[derive(Debug, Clone)]
pub struct DiscoverResult {
    pub packages: Vec<DiscoveredPackage>,
    /// The package at each path of each module.
    pub module_map: Vec<((ModuleId, String), PackageId)>,
    /// The package of each fully qualified name.
    pub packages_rev_map: Vec<(String, PackageId)>,
    /// `moonbitlang/core/abort`, which needs special treatment.
    pub abort_pkg: Option<PackageId>,
}

/// The identity of a module-map key.
pub open spec fn module_key() -> spec_fn((ModuleId, String)) -> (ModuleId, Seq<char>) {
    |k: (ModuleId, String)| (k.0, k.1@)
}

/// The identity of a name-map key.
pub open spec fn name_key() -> spec_fn(String) -> Seq<char> {
    |k: String| k@
}

/// A package id, as stored.
pub open spec fn id_value() -> spec_fn(PackageId) -> PackageId {
    |v: PackageId| v
}

/// The value of a [`DiscoverResult`].
pub struct DiscoverResultView {
    pub packages: Seq<DiscoveredPackage>,
    /// The package at each (module, path).
    pub modules: Map<(ModuleId, Seq<char>), PackageId>,
    /// The package of each fully qualified name.
    pub names: Map<Seq<char>, PackageId>,
    pub abort: Option<PackageId>,
}

impl View for DiscoverResult {
    type V = DiscoverResultView;

    open spec fn view(&self) -> DiscoverResultView {
        DiscoverResultView {
            packages: self.packages@,
            modules: assoc_map(self.module_map@, module_key(), id_value()),
            names: assoc_map(self.packages_rev_map@, name_key(), id_value()),
            abort: self.abort_pkg,
        }
    }
}

/// Whether `id` names a package of `v`.
pub open spec fn valid_id(v: DiscoverResultView, id: PackageId) -> bool {
    id.0 < v.packages.len()
}

/// The position of package `id` among `len` packages.
fn slot(id: PackageId, len: usize) -> (r: usize)
    requires
        id.0 < len,
    ensures
        r as int == id.0 as int,
{
    let r = id.0 as usize;
    assert(r as int == id.0 as int);
    r
}

/// `v` after adding package `data` at `path` of module `m`: the package
/// becomes the next one, indexed under its module and path and under its
/// name.
pub open spec fn with_package(v: DiscoverResultView, m: ModuleId, path: Seq<char>, data: DiscoveredPackage) -> DiscoverResultView {
    let id = PackageId(v.packages.len() as u64);
    DiscoverResultView {
        packages: v.packages.push(data),
        modules: v.modules.insert((m, path), id),
        names: v.names.insert(package_name(data), id),
        abort: v.abort,
    }
}

/// A package that was added is found again under its module and path and
/// under its name, as what was added; every other package, path and name
/// keeps what it had.
pub proof fn law_added_package_is_found(v: DiscoverResultView, m: ModuleId, path: Seq<char>, data: DiscoveredPackage)
    ensures
        ({
            let w = with_package(v, m, path, data);
            let id = PackageId(v.packages.len() as u64);
            &&& w.modules.contains_key((m, path)) && w.modules[(m, path)] == id
            &&& w.names.contains_key(package_name(data)) && w.names[package_name(data)] == id
            &&& w.packages.len() == v.packages.len() + 1
            &&& w.packages[v.packages.len() as int] == data
            &&& forall|i: int| 0 <= i < v.packages.len() ==> #[trigger] w.packages[i] == v.packages[i]
            &&& forall|k: (ModuleId, Seq<char>)| k != (m, path) ==> (#[trigger] w.modules.contains_key(k) == v.modules.contains_key(k)
                && (v.modules.contains_key(k) ==> w.modules[k] == v.modules[k]))
            &&& forall|q: Seq<char>| q != package_name(data) ==> (#[trigger] w.names.contains_key(q) == v.names.contains_key(q)
                && (v.names.contains_key(q) ==> w.names[q] == v.names[q]))
        }),
{
}

/// Every name of a well-formed result indexes one of its packages.
pub proof fn lemma_names_valid(r: DiscoverResult, name: Seq<char>)
    requires
        r.wf(),
        r@.names.contains_key(name),
    ensures
        valid_id(r@, r@.names[name]),
{
    lemma_assoc_lookup(r.packages_rev_map@, name_key(), id_value(), name);
    let j = choose|j: int| 0 <= j < r.packages_rev_map.len() && name_key()(#[trigger] r.packages_rev_map@[j].0) == name;
    assert(valid_id(r@, r.packages_rev_map@[j].1));
}

/// Every (module, path) key of a well-formed result indexes one of its
/// packages.
pub proof fn lemma_modules_valid(r: DiscoverResult, key: (ModuleId, Seq<char>))
    requires
        r.wf(),
        r@.modules.contains_key(key),
    ensures
        valid_id(r@, r@.modules[key]),
{
    lemma_assoc_lookup(r.module_map@, module_key(), id_value(), key);
    let j = choose|j: int| 0 <= j < r.module_map.len() && module_key()(#[trigger] r.module_map@[j].0) == key;
    assert(valid_id(r@, r.module_map@[j].1));
}

impl DiscoverResult {
    /// Keys are distinct and every stored id names a package.
    pub open spec fn wf(&self) -> bool {
        &&& unique_keys(self.module_map@, module_key())
        &&& unique_keys(self.packages_rev_map@, name_key())
        &&& forall|i: int| 0 <= i < self.module_map.len() ==> valid_id(self@, #[trigger] self.module_map@[i].1)
        &&& forall|i: int| 0 <= i < self.packages_rev_map.len() ==> valid_id(self@, #[trigger] self.packages_rev_map@[i].1)
        &&& (self.abort_pkg matches Some(a) ==> valid_id(self@, a))
    }

    /// A result with no packages.
    pub fn new() -> (r: DiscoverResult)
        ensures
            r.wf(),
            r@.packages.len() == 0,
            r@.modules == Map::<(ModuleId, Seq<char>), PackageId>::empty(),
            r@.names == Map::<Seq<char>, PackageId>::empty(),
            r@.abort is None,
            r.module_map@.len() == 0,
            r.packages_rev_map@.len() == 0,
    {
        DiscoverResult {
            packages: Vec::new(),
            module_map: Vec::new(),
            packages_rev_map: Vec::new(),
            abort_pkg: None,
        }
    }

    /// Adds a package at `path` of module `m`. The package is added and
    /// indexed under its name in any case; if another package already had
    /// that name, the error names both.
    pub fn add_package(&mut self, m: ModuleId, path: String, data: DiscoveredPackage) -> (r: Result<
        PackageId,
        DiscoverError,
    >)
        requires
            old(self).wf(),
        ensures
            final(self).wf(),
            final(self)@ == with_package(old(self)@, m, path@, data),
            match r {
                Ok(id) => id == PackageId(old(self)@.packages.len() as u64) && !old(self)@.names.contains_key(package_name(data)),
                Err(DiscoverError::ConflictingPackageNameString { first, second }) => {
                    &&& old(self)@.names.contains_key(package_name(data))
                    &&& first@ == package_name(old(self)@.packages[old(self)@.names[package_name(data)].0 as int])
                    &&& second@ == package_name(data)
                },
                Err(_) => false,
            },
    {
        let id = PackageId(self.packages.len() as u64);
        let name = data.fqn().name;
        let ghost old_self = *self;
        proof {
            if old_self@.names.contains_key(name@) {
                lemma_names_valid(old_self, name@);
            }
        }
        self.packages.push(data);
        assert forall|i: int| 0 <= i < self.module_map.len() implies valid_id(self@, #[trigger] self.module_map@[i].1) by {
            assert(valid_id(old_self@, old_self.module_map@[i].1));
        }
        assert forall|i: int| 0 <= i < self.packages_rev_map.len() implies valid_id(self@, #[trigger] self.packages_rev_map@[i].1) by {
            assert(valid_id(old_self@, old_self.packages_rev_map@[i].1));
        }
        Self::insert_module_entry(&mut self.module_map, m, path, id, self.packages.len());
        let previous = Self::insert_name_entry(&mut self.packages_rev_map, name, id, self.packages.len());
        match previous {
            Some(original) => {
                let first = self.packages[slot(original, self.packages.len())].fqn().name;
                let second = self.packages[slot(id, self.packages.len())].fqn().name;
                Err(DiscoverError::ConflictingPackageNameString { first, second })
            },
            None => Ok(id),
        }
    }

    fn insert_module_entry(
        map: &mut Vec<((ModuleId, String), PackageId)>,
        m: ModuleId,
        path: String,
        id: PackageId,
        n: usize,
    )
        requires
            unique_keys(old(map)@, module_key()),
            forall|i: int| 0 <= i < old(map).len() ==> (#[trigger] old(map)@[i].1).0 < n,
            id.0 < n,
        ensures
            unique_keys(final(map)@, module_key()),
            forall|i: int| 0 <= i < final(map).len() ==> (#[trigger] final(map)@[i].1).0 < n,
            assoc_map(final(map)@, module_key(), id_value()) == assoc_map(old(map)@, module_key(), id_value()).insert((m, path@), id),
    {
        let mut i: usize = 0;
        while i < map.len()
            invariant
                i <= map.len(),
                *map == *old(map),
                unique_keys(map@, module_key()),
                forall|j: int| 0 <= j < map.len() ==> (#[trigger] map@[j].1).0 < n,
                id.0 < n,
                forall|j: int| 0 <= j < i ==> (#[trigger] map@[j].0.0 != m || map@[j].0.1@ != path@),
            decreases map.len() - i,
        {
            if map[i].0.0 == m && str_eq(map[i].0.1.as_str(), path.as_str()) {
                let key = (m, map[i].0.1.clone());
                proof {
                    lemma_assoc_update(map@, module_key(), id_value(), i as int, (key, id));
                }
                map.set(i, (key, id));
                assert forall|j: int| 0 <= j < map.len() implies (#[trigger] map@[j].1).0 < n by {
                    if j != i {
                        assert(map@[j] == old(map)@[j]);
                    }
                }
                return;
            }
            i = i + 1;
        }
        proof {
            lemma_assoc_lookup(map@, module_key(), id_value(), (m, path@));
            if assoc_map(map@, module_key(), id_value()).contains_key((m, path@)) {
                let j = choose|j: int| 0 <= j < map.len() && module_key()(#[trigger] map@[j].0) == (m, path@);
                assert(map@[j].0.0 != m || map@[j].0.1@ != path@);
            }
            lemma_assoc_push(map@, module_key(), id_value(), ((m, path), id));
        }
        map.push(((m, path), id));
    }

    /// Indexes `id` under `name`; the id previously indexed there, if any.
    fn insert_name_entry(map: &mut Vec<(String, PackageId)>, name: String, id: PackageId, n: usize) -> (r: Option<PackageId>)
        requires
            unique_keys(old(map)@, name_key()),
            forall|i: int| 0 <= i < old(map).len() ==> (#[trigger] old(map)@[i].1).0 < n,
            id.0 < n,
        ensures
            unique_keys(final(map)@, name_key()),
            forall|i: int| 0 <= i < final(map).len() ==> (#[trigger] final(map)@[i].1).0 < n,
            assoc_map(final(map)@, name_key(), id_value()) == assoc_map(old(map)@, name_key(), id_value()).insert(name@, id),
            match r {
                Some(p) => assoc_map(old(map)@, name_key(), id_value()).contains_key(name@) && p == assoc_map(old(map)@, name_key(), id_value())[name@] && p.0 < n,
                None => !assoc_map(old(map)@, name_key(), id_value()).contains_key(name@),
            },
    {
        proof {
            lemma_assoc_lookup(map@, name_key(), id_value(), name@);
        }
        let mut i: usize = 0;
        while i < map.len()
            invariant
                i <= map.len(),
                *map == *old(map),
                unique_keys(map@, name_key()),
                forall|j: int| 0 <= j < map.len() ==> (#[trigger] map@[j].1).0 < n,
                id.0 < n,
                forall|j: int| 0 <= j < i ==> (#[trigger] map@[j].0)@ != name@,
            decreases map.len() - i,
        {
            if str_eq(map[i].0.as_str(), name.as_str()) {
                let previous = map[i].1;
                let key = map[i].0.clone();
                proof {
                    lemma_assoc_lookup(map@, name_key(), id_value(), name@);
                    lemma_assoc_update(map@, name_key(), id_value(), i as int, (key, id));
                }
                map.set(i, (key, id));
                assert forall|j: int| 0 <= j < map.len() implies (#[trigger] map@[j].1).0 < n by {
                    if j != i {
                        assert(map@[j] == old(map)@[j]);
                    }
                }
                return Some(previous);
            }
            i = i + 1;
        }
        proof {
            lemma_assoc_lookup(map@, name_key(), id_value(), name@);
            if assoc_map(map@, name_key(), id_value()).contains_key(name@) {
                let j = choose|j: int| 0 <= j < map.len() && name_key()(#[trigger] map@[j].0) == name@;
                assert(map@[j].0@ != name@);
            }
            lemma_assoc_push(map@, name_key(), id_value(), (name, id));
        }
        map.push((name, id));
        None
    }

    /// Marks `id` as `moonbitlang/core/abort`.
    pub fn set_abort_pkg(&mut self, id: PackageId)
        requires
            old(self).wf(),
            valid_id(old(self)@, id),
        ensures
            final(self).wf(),
            final(self)@ == (DiscoverResultView { abort: Some(id), ..old(self)@ }),
            final(self).packages == old(self).packages,
            final(self).module_map == old(self).module_map,
            final(self).packages_rev_map == old(self).packages_rev_map,
    {
        self.abort_pkg = Some(id);
    }

    /// The package `id`.
    pub fn get_package(&self, id: PackageId) -> (r: &DiscoveredPackage)
        requires
            valid_id(self@, id),
        ensures
            *r == self@.packages[id.0 as int],
    {
        &self.packages[slot(id, self.packages.len())]
    }

    /// A mutable handle to the package `id`.
    pub fn get_package_mut(&mut self, id: PackageId) -> (r: &mut DiscoveredPackage)
        requires
            valid_id(old(self)@, id),
        ensures
            *r == old(self)@.packages[id.0 as int],
            final(self)@ == (DiscoverResultView {
                packages: old(self)@.packages.update(id.0 as int, *final(r)),
                ..old(self)@
            }),
            final(self).module_map == old(self).module_map,
            final(self).packages_rev_map == old(self).packages_rev_map,
            final(self).abort_pkg == old(self).abort_pkg,
    {
        let ix = slot(id, self.packages.len());
        &mut self.packages[ix]
    }

    /// The package at `path` of `module`.
    pub fn get_package_id(&self, module: ModuleId, path: &str) -> (r: Option<PackageId>)
        requires
            self.wf(),
        ensures
            r == (if self@.modules.contains_key((module, path@)) {
                Some(self@.modules[(module, path@)])
            } else {
                None
            }),
    {
        proof {
            lemma_assoc_lookup(self.module_map@, module_key(), id_value(), (module, path@));
        }
        let mut i: usize = 0;
        while i < self.module_map.len()
            invariant
                i <= self.module_map.len(),
                self.wf(),
                forall|j: int| 0 <= j < i ==> (#[trigger] self.module_map@[j].0.0 != module || self.module_map@[j].0.1@ != path@),
            decreases self.module_map.len() - i,
        {
            if self.module_map[i].0.0 == module && str_eq(self.module_map[i].0.1.as_str(), path) {
                proof {
                    lemma_assoc_lookup(self.module_map@, module_key(), id_value(), (module, path@));
                }
                return Some(self.module_map[i].1);
            }
            i = i + 1;
        }
        proof {
            if self@.modules.contains_key((module, path@)) {
                let j = choose|j: int| 0 <= j < self.module_map.len() && module_key()(#[trigger] self.module_map@[j].0) == (module, path@);
                assert(self.module_map@[j].0.0 != module || self.module_map@[j].0.1@ != path@);
            }
        }
        None
    }

    /// The package whose fully qualified name is `name`.
    pub fn get_package_id_by_name(&self, name: &str) -> (r: Option<PackageId>)
        requires
            self.wf(),
        ensures
            r == (if self@.names.contains_key(name@) {
                Some(self@.names[name@])
            } else {
                None
            }),
    {
        proof {
            lemma_assoc_lookup(self.packages_rev_map@, name_key(), id_value(), name@);
        }
        let mut i: usize = 0;
        while i < self.packages_rev_map.len()
            invariant
                i <= self.packages_rev_map.len(),
                self.wf(),
                forall|j: int| 0 <= j < i ==> (#[trigger] self.packages_rev_map@[j].0)@ != name@,
            decreases self.packages_rev_map.len() - i,
        {
            if str_eq(self.packages_rev_map[i].0.as_str(), name) {
                proof {
                    lemma_assoc_lookup(self.packages_rev_map@, name_key(), id_value(), name@);
                }
                return Some(self.packages_rev_map[i].1);
            }
            i = i + 1;
        }
        proof {
            if self@.names.contains_key(name@) {
                let j = choose|j: int| 0 <= j < self.packages_rev_map.len() && name_key()(#[trigger] self.packages_rev_map@[j].0) == name@;
                assert(self.packages_rev_map@[j].0@ != name@);
            }
        }
        None
    }

    /// The packages of `module` by path; `None` when the module has none.
    pub fn packages_for_module(&self, module: ModuleId) -> (r: Option<Vec<(String, PackageId)>>)
        requires
            self.wf(),
        ensures
            match r {
                None => forall|p: Seq<char>| !self@.modules.contains_key((module, p)),
                Some(v) => {
                    &&& unique_keys(v@, name_key())
                    &&& forall|p: Seq<char>| #[trigger] assoc_map(v@, name_key(), id_value()).contains_key(p) == self@.modules.contains_key((module, p))
                    &&& forall|p: Seq<char>| #[trigger] assoc_map(v@, name_key(), id_value()).contains_key(p) ==> assoc_map(v@, name_key(), id_value())[p] == self@.modules[(module, p)]
                    &&& v@.len() > 0
                },
            },
    {
        let mut v: Vec<(String, PackageId)> = Vec::new();
        let mut i: usize = 0;
        while i < self.module_map.len()
            invariant
                i <= self.module_map.len(),
                self.wf(),
                unique_keys(v@, name_key()),
                forall|p: Seq<char>| #[trigger] assoc_map(v@, name_key(), id_value()).contains_key(p) == exists|j: int| 0 <= j < i && self.module_map@[j].0.0 == module && (#[trigger] self.module_map@[j].0.1)@ == p,
                forall|j: int| 0 <= j < i && (#[trigger] self.module_map@[j]).0.0 == module ==> assoc_map(v@, name_key(), id_value())[self.module_map@[j].0.1@] == self.module_map@[j].1,
                v@.len() > 0 <==> exists|j: int| 0 <= j < i && (#[trigger] self.module_map@[j]).0.0 == module,
            decreases self.module_map.len() - i,
        {
            if self.module_map[i].0.0 == module {
                let entry = (self.module_map[i].0.1.clone(), self.module_map[i].1);
                proof {
                    lemma_assoc_lookup(v@, name_key(), id_value(), entry.0@);
                    if assoc_map(v@, name_key(), id_value()).contains_key(entry.0@) {
                        let j = choose|j: int| 0 <= j < i && self.module_map@[j].0.0 == module && (#[trigger] self.module_map@[j].0.1)@ == entry.0@;
                        assert(module_key()(self.module_map@[j].0) == module_key()(self.module_map@[i as int].0));
                    }
                    lemma_assoc_push(v@, name_key(), id_value(), entry);
                }
                v.push(entry);
                proof {
                    assert forall|p: Seq<char>| #[trigger] assoc_map(v@, name_key(), id_value()).contains_key(p) == exists|j: int| 0 <= j < i + 1 && self.module_map@[j].0.0 == module && (#[trigger] self.module_map@[j].0.1)@ == p by {
                        if p == entry.0@ {
                            assert(self.module_map@[i as int].0.1@ == p);
                        }
                    }
                    assert forall|j: int| 0 <= j < i + 1 && (#[trigger] self.module_map@[j]).0.0 == module implies assoc_map(v@, name_key(), id_value())[self.module_map@[j].0.1@] == self.module_map@[j].1 by {
                        if j < i && self.module_map@[j].0.1@ == entry.0@ {
                            assert(module_key()(self.module_map@[j].0) == module_key()(self.module_map@[i as int].0));
                        }
                    }
                }
            }
            i = i + 1;
        }
        proof {
            assert forall|p: Seq<char>| #[trigger] assoc_map(v@, name_key(), id_value()).contains_key(p) == self@.modules.contains_key((module, p)) by {
                lemma_assoc_lookup(self.module_map@, module_key(), id_value(), (module, p));
                if self@.modules.contains_key((module, p)) {
                    let j = choose|j: int| 0 <= j < self.module_map.len() && module_key()(#[trigger] self.module_map@[j].0) == (module, p);
                    assert(self.module_map@[j].0.1@ == p);
                }
            }
            assert forall|p: Seq<char>| #[trigger] assoc_map(v@, name_key(), id_value()).contains_key(p) implies assoc_map(v@, name_key(), id_value())[p] == self@.modules[(module, p)] by {
                lemma_assoc_lookup(self.module_map@, module_key(), id_value(), (module, p));
                let j = choose|j: int| 0 <= j < self.module_map.len() && self.module_map@[j].0.0 == module && (#[trigger] self.module_map@[j].0.1)@ == p;
                assert(module_key()(self.module_map@[j].0) == (module, p));
            }
        }
        if v.len() == 0 {
            proof {
                assert forall|p: Seq<char>| !self@.modules.contains_key((module, p)) by {
                    lemma_assoc_lookup(self.module_map@, module_key(), id_value(), (module, p));
                    if self@.modules.contains_key((module, p)) {
                        let j = choose|j: int| 0 <= j < self.module_map.len() && module_key()(#[trigger] self.module_map@[j].0) == (module, p);
                        assert(self.module_map@[j].0.0 == module);
                    }
                }
            }
            None
        } else {
            Some(v)
        }
    }

    /// The ids of all packages in order, leaving out the standard library's
    /// when `exclude_stdlib` is set.
    pub fn all_packages(&self, exclude_stdlib: bool) -> (r: Vec<PackageId>)
        ensures
            r@ == Seq::new(self@.packages.len(), |i: int| PackageId(i as u64)).filter(
                |id: PackageId| !exclude_stdlib || !self@.packages[id.0 as int].is_stdlib,
            ),
    {
        let ghost all = Seq::new(self@.packages.len(), |i: int| PackageId(i as u64));
        let ghost keep = |id: PackageId| !exclude_stdlib || !self@.packages[id.0 as int].is_stdlib;
        let mut r: Vec<PackageId> = Vec::new();
        let mut i: usize = 0;
        while i < self.packages.len()
            invariant
                i <= self.packages.len(),
                all == Seq::new(self@.packages.len(), |i: int| PackageId(i as u64)),
                keep == (|id: PackageId| !exclude_stdlib || !self@.packages[id.0 as int].is_stdlib),
                r@ == all.take(i as int).filter(keep),
            decreases self.packages.len() - i,
        {
            proof {
                assert(all.take(i + 1).drop_last() =~= all.take(i as int));
                reveal(Seq::filter);
            }
            if !exclude_stdlib || !self.packages[i].is_stdlib {
                r.push(PackageId(i as u64));
            }
            i = i + 1;
        }
        assert(all.take(self.packages.len() as int) =~= all);
        r
    }

    /// The number of packages.
    pub fn package_count(&self) -> (r: usize)
        ensures
            r == self@.packages.len(),
    {
        self.packages.len()
    }

    /// The fully qualified name of package `id`.
    pub fn fqn(&self, id: PackageId) -> (r: PackageFQN)
        requires
            valid_id(self@, id),
        ensures
            r.name@ == package_name(self@.packages[id.0 as int]),
    {
        self.packages[slot(id, self.packages.len())].fqn()
    }

    /// The package `moonbitlang/core/abort`, if discovery injected it.
    pub fn abort_pkg(&self) -> (r: Option<PackageId>)
        ensures
            r == self@.abort,
    {
        self.abort_pkg
    }

    /// Whether package `id` is part of the standard library.
    pub fn is_stdlib_package(&self, id: PackageId) -> (r: bool)
        requires
            valid_id(self@, id),
        ensures
            r == self@.packages[id.0 as int].is_stdlib,
    {
        self.packages[slot(id, self.packages.len())].is_stdlib
    }

    /// The source folder of the package named `pkg_path`.
    pub fn resolve_pkg_src(&self, pkg_path: &str) -> (r: String)
        requires
            self.wf(),
            self@.names.contains_key(pkg_path@),
        ensures
            r == self@.packages[self@.names[pkg_path@].0 as int].root_path,
    {
        proof {
            lemma_names_valid(*self, pkg_path@);
        }
        let id = self.get_package_id_by_name(pkg_path);
        match id {
            Some(id) => self.packages[slot(id, self.packages.len())].root_path.clone(),
            None => {
                proof {
                    assert(false);
                }
                String::new()
            },
        }
    }
}

} // verus!
