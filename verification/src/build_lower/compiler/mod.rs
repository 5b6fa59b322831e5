//! Command-line abstractions for the MoonBit compiler and its tools.

pub mod args;
pub mod build_common;
pub mod build_interface;
pub mod check;
pub mod bundle_core;
pub mod gen_test_driver;
pub mod legacy;
pub mod link_core;
pub mod moondoc;
pub mod mooninfo;
pub mod node_test_config;

use vstd::prelude::*;

use self::args::push_arg;
use crate::model::TargetKind;
use crate::text::{append_str, concat2, owned};

verus! {

/// The format of error reports from `moonc`.
///
/// Diagnostics are rendered by the build driver; `moonc` never renders them
/// to the user itself.
#[derive(Debug, Clone, Copy, PartialEq, Eq, Structural)]
pub enum ErrorFormat {
    /// A semi-structured format with only the location and message.
    Regular,
    /// A fully structured JSON format, which the driver renders.
    Json,
}

/// The fully qualified name of a package, as the compiler is given it.
#[derive(Clone, Debug, PartialEq, Eq)]
pub struct PackageFQN {
    /// The rendered name, such as `username/module/package`.
    pub name: String,
}

impl PackageFQN {
    /// The rendered name.
    pub fn to_string(&self) -> (r: String)
        ensures
            r@ == self.name@,
    {
        self.name.clone()
    }
}

/// `path:alias`, or `path:path` without an alias.
pub open spec fn mi_alias_arg(path: Seq<char>, alias: Option<Seq<char>>) -> Seq<char> {
    match alias {
        Some(a) => path + ":"@ + a,
        None => path + ":"@ + path,
    }
}

/// A dependency on the `.mi` (module interface) file of another package.
#[derive(Clone, Debug)]
pub struct MiDependency {
    /// The path to the `.mi` file of the dependency.
    pub path: String,
    /// An optional alias for the package, used when referencing symbols
    /// declared in it.
    pub alias: Option<String>,
}

impl MiDependency {
    /// The `-i` argument for this dependency: `path:alias`, or `path:path`
    /// without an alias.
    pub fn to_alias_arg(&self) -> (r: String)
        ensures
            r@ == mi_alias_arg(
                self.path@,
                match self.alias {
                    Some(a) => Some(a@),
                    None => None,
                },
            ),
    {
        let mut r = concat2(self.path.as_str(), ":");
        match &self.alias {
            Some(alias) => append_str(&mut r, alias.as_str()),
            None => append_str(&mut r, self.path.as_str()),
        }
        r
    }

    /// A dependency referenced through `alias`.
    pub fn new(path: String, alias: String) -> (r: MiDependency)
        ensures
            r == (MiDependency { path, alias: Some(alias) }),
    {
        MiDependency { path, alias: Some(alias) }
    }

    /// A dependency without an alias.
    pub fn no_alias(path: String) -> (r: MiDependency)
        ensures
            r == (MiDependency { path, alias: None }),
    {
        MiDependency { path, alias: None }
    }
}

/// The suffix that the compiler requires on a package name for a target kind:
/// blackbox tests are named after their package with `_blackbox_test`, so that
/// they can import every public declaration of it; every other kind keeps the
/// name.
pub open spec fn compiled_name_suffix(kind: TargetKind) -> Seq<char> {
    match kind {
        TargetKind::BlackboxTest => "_blackbox_test"@,
        _ => Seq::empty(),
    }
}

/// A package name passed to the compiler, with the suffix its target kind
/// requires.
///
/// This is not the file name of the compiler's artifacts, which differs for
/// every target kind.
#[derive(Clone, Debug)]
pub struct CompiledPackageName {
    pub fqn: PackageFQN,
    pub kind: TargetKind,
}

impl CompiledPackageName {
    pub fn new(fqn: PackageFQN, target_kind: TargetKind) -> (r: CompiledPackageName)
        ensures
            r == (CompiledPackageName { fqn, kind: target_kind }),
    {
        CompiledPackageName { fqn, kind: target_kind }
    }

    /// The rendered name: the package name and the suffix of its kind.
    pub fn to_string(&self) -> (r: String)
        ensures
            r@ == self.fqn.name@ + compiled_name_suffix(self.kind),
    {
        let mut r = owned(self.fqn.name.as_str());
        match self.kind {
            TargetKind::BlackboxTest => append_str(&mut r, "_blackbox_test"),
            _ => {},
        }
        assert(r@ =~= self.fqn.name@ + compiled_name_suffix(self.kind));
        r
    }
}

/// The mapping from a package name to its source directory.
#[derive(Clone, Debug)]
pub struct PackageSource {
    /// The package name.
    pub package_name: CompiledPackageName,
    /// The directory holding the package's source files and manifest.
    pub source_dir: String,
}

/// `name:dir`.
pub open spec fn name_and_dir(name: Seq<char>, dir: Seq<char>) -> Seq<char> {
    name + ":"@ + dir
}

impl PackageSource {
    /// The `-pkg-sources` argument: `name:dir`.
    pub fn to_arg(&self) -> (r: String)
        ensures
            r@ == name_and_dir(
                self.package_name.fqn.name@ + compiled_name_suffix(self.package_name.kind),
                self.source_dir@,
            ),
    {
        let mut r = self.package_name.to_string();
        append_str(&mut r, ":");
        append_str(&mut r, self.source_dir.as_str());
        r
    }
}

/// What specifies an implementation of a virtual package. All of it is about
/// the virtual package being implemented, not the implementing package.
#[derive(Clone, Debug)]
pub struct VirtualPackageImplementation {
    /// The path to the `.mi` file of the virtual package.
    pub mi_path: String,
    /// The name of the virtual package.
    pub package_name: PackageFQN,
    /// The virtual package's source directory.
    pub package_path: String,
}

/// Compilation flags that affect code generation.
#[derive(Clone, Copy, Debug, PartialEq, Eq, Structural)]
pub struct CompilationFlags {
    /// Disable optimization (adds `-O0`).
    pub no_opt: bool,
    /// Include debug symbols (adds `-g`).
    pub symbols: bool,
    /// Emit a source map for the backends that support one (JS and Wasm).
    pub source_map: bool,
    /// Instrument the output to track which code ran, with the standard
    /// library's coverage primitives.
    pub enable_coverage: bool,
    /// Use the package itself as the provider of the coverage primitives.
    pub self_coverage: bool,
    /// Instrument the output to trace the values of variables.
    pub enable_value_tracing: bool,
}

impl CompilationFlags {
    /// No flag set.
    pub open spec fn spec_none() -> CompilationFlags {
        CompilationFlags {
            no_opt: false,
            symbols: false,
            source_map: false,
            enable_coverage: false,
            self_coverage: false,
            enable_value_tracing: false,
        }
    }

    /// No flag set.
    pub fn none() -> (r: CompilationFlags)
        ensures
            r == CompilationFlags::spec_none(),
    {
        CompilationFlags {
            no_opt: false,
            symbols: false,
            source_map: false,
            enable_coverage: false,
            self_coverage: false,
            enable_value_tracing: false,
        }
    }
}

/// The configuration of either warnings or alerts.
#[derive(Clone, Debug)]
pub enum WarnAlertConfig {
    /// The compiler's default configuration.
    Default,
    /// A list of warnings or alerts passed to the compiler.
    List(String),
    /// Every warning or alert is an error.
    DenyAll,
    /// No warning or alert is shown.
    AllowAll,
    /// No optional warning or alert is reported; only the errors that prevent
    /// a successful compilation.
    Suppress,
}

/// The warning list that denies all warnings.
pub const MOONC_DENY_WARNING_SET: &'static str = "@a";

/// The warning list that suppresses all warnings.
pub const MOONC_SUPPRESS_WARNING_SET: &'static str = "-a";

/// The alert list that denies all alerts.
pub const MOONC_DENY_ALERT_SET: &'static str = "@all-raise-throw-unsafe+deprecated";

/// The warning list that allows all warnings.
pub const MOONC_ALLOW_WARNING_SET: &'static str = "-a";

/// The alert list that allows all alerts.
pub const MOONC_ALLOW_ALERT_SET: &'static str = "-all";

/// Building the command-line arguments of a tool invocation.
pub trait CmdlineAbstraction {
    /// The arguments, after the executable, that this invocation passes.
    spec fn args_view(&self) -> Seq<Seq<char>>;

    /// Appends this invocation's arguments.
    fn to_args(&self, args: &mut Vec<String>)
        ensures
            final(args).deep_view() == old(args).deep_view() + self.args_view(),
    ;

    /// The full command: the executable, then the arguments.
    fn build_command(&self, executable: &str) -> (r: Vec<String>)
        ensures
            r.deep_view() == seq![executable@] + self.args_view(),
    {
        let mut args: Vec<String> = Vec::new();
        push_arg(&mut args, executable);
        self.to_args(&mut args);
        args
    }
}

} // verus!
