//! The flat `moonc build-package` and `moonc link-core` invocations, laid out
//! in the argument order of the earlier build driver.

use vstd::prelude::*;

use super::args::{
    flag_if, lemma_append_assoc, lemma_arg_between, lemma_arg_inside, lemma_flag_if_contains, lemma_target_part, opt_pair, opt_view, push_all, push_arg, push_flag_if,
    push_opt_pair, push_pair,
};
use super::build_common::{
    error_format_args, list_args, mi_dep_args, push_mi_deps, push_virtual_impl, set_args_if,
    virtual_impl_args,
};
use super::{
    name_and_dir, CmdlineAbstraction, CompilationFlags, ErrorFormat, MiDependency, PackageFQN,
    VirtualPackageImplementation, WarnAlertConfig,
};
use crate::model::{backend_flag, TargetBackend};
use crate::text::{append_str, concat2, decimal, decimal_digits, join_sep, join_with};

verus! {

/// The warning list that denies all warnings but the two that are never
/// errors.
pub const LEGACY_DENY_WARNING_SET: &'static str = "@a-31-32";

/// The alert list that denies all alerts.
pub const LEGACY_DENY_ALERT_SET: &'static str = "@all-raise-throw-unsafe+deprecated";

/// The warning list that allows all warnings.
pub const LEGACY_ALLOW_WARNING_SET: &'static str = "-a";

/// The alert list that allows all alerts.
pub const LEGACY_ALLOW_ALERT_SET: &'static str = "-all";

/// The mapping from a package name to its source directory.
#[derive(Clone, Debug)]
pub struct PackageSource {
    pub package_name: PackageFQN,
    pub source_dir: String,
}

impl PackageSource {
    /// The `-pkg-sources` argument: `name:dir`.
    pub fn to_arg(&self) -> (r: String)
        ensures
            r@ == name_and_dir(self.package_name.name@, self.source_dir@),
    {
        let mut r = concat2(self.package_name.name.as_str(), ":");
        append_str(&mut r, self.source_dir.as_str());
        r
    }
}

/// The arguments that code-generation flags add, in order.
pub open spec fn compilation_flag_args(f: CompilationFlags) -> Seq<Seq<char>> {
    flag_if(f.symbols, "-g"@) + flag_if(f.no_opt, "-O0"@) + flag_if(f.source_map, "-source-map"@)
        + flag_if(f.enable_coverage, "-enable-coverage"@) + flag_if(
        f.self_coverage,
        "-coverage-package-override=@self"@,
    ) + flag_if(f.enable_value_tracing, "-enable-value-tracing"@)
}

/// `f` with coverage instrumentation switched to `on`.
pub open spec fn flags_with_coverage(f: CompilationFlags, on: bool) -> CompilationFlags {
    CompilationFlags { enable_coverage: on, ..f }
}

/// The code-generation flags of a build with coverage are those of the same
/// build without it, with `-enable-coverage` added once: coverage always
/// reaches the compiler, and nothing else changes with it.
pub proof fn law_coverage_flag(f: CompilationFlags)
    ensures
        f.enable_coverage ==> compilation_flag_args(f).contains("-enable-coverage"@),
        exists|k: int|
            #![trigger compilation_flag_args(flags_with_coverage(f, false)).insert(k, "-enable-coverage"@)]
            0 <= k <= compilation_flag_args(flags_with_coverage(f, false)).len()
                && compilation_flag_args(flags_with_coverage(f, true)) == compilation_flag_args(
                flags_with_coverage(f, false),
            ).insert(k, "-enable-coverage"@),
{
    let p = flag_if(f.symbols, "-g"@) + flag_if(f.no_opt, "-O0"@) + flag_if(f.source_map, "-source-map"@);
    let q = flag_if(f.self_coverage, "-coverage-package-override=@self"@) + flag_if(
        f.enable_value_tracing,
        "-enable-value-tracing"@,
    );
    lemma_arg_between(p, "-enable-coverage"@, q);
    assert(compilation_flag_args(flags_with_coverage(f, true)) =~= p + seq!["-enable-coverage"@] + q);
    assert(compilation_flag_args(flags_with_coverage(f, false)) =~= p + q);
    if f.enable_coverage {
        assert(flags_with_coverage(f, true) == f);
    }
}

/// Each code-generation flag gives its own argument, and only it does: the
/// arguments of `f` hold `-g`, `-O0`, `-source-map`, `-enable-coverage`,
/// `-coverage-package-override=@self` and `-enable-value-tracing` exactly
/// when debug symbols, no optimization, a source map, coverage, self
/// coverage and value tracing are asked for, each at most once.
pub proof fn law_compilation_flags(f: CompilationFlags)
    ensures
        compilation_flag_args(f).contains("-g"@) <==> f.symbols,
        compilation_flag_args(f).contains("-O0"@) <==> f.no_opt,
        compilation_flag_args(f).contains("-source-map"@) <==> f.source_map,
        compilation_flag_args(f).contains("-enable-coverage"@) <==> f.enable_coverage,
        compilation_flag_args(f).contains("-coverage-package-override=@self"@) <==> f.self_coverage,
        compilation_flag_args(f).contains("-enable-value-tracing"@) <==> f.enable_value_tracing,
        compilation_flag_args(f).no_duplicates(),
{
    reveal_strlit("-g");
    reveal_strlit("-O0");
    reveal_strlit("-source-map");
    reveal_strlit("-enable-coverage");
    reveal_strlit("-coverage-package-override=@self");
    reveal_strlit("-enable-value-tracing");
    let g = "-g"@;
    let o = "-O0"@;
    let m = "-source-map"@;
    let c = "-enable-coverage"@;
    let sc = "-coverage-package-override=@self"@;
    let vt = "-enable-value-tracing"@;
    assert(g.len() == 2 && o.len() == 3 && m.len() == 11 && c.len() == 16 && sc.len() == 32 && vt.len() == 21);
    let s0 = Seq::<Seq<char>>::empty();
    let s1 = s0 + flag_if(f.symbols, g);
    let s2 = s1 + flag_if(f.no_opt, o);
    let s3 = s2 + flag_if(f.source_map, m);
    let s4 = s3 + flag_if(f.enable_coverage, c);
    let s5 = s4 + flag_if(f.self_coverage, sc);
    let s6 = s5 + flag_if(f.enable_value_tracing, vt);
    assert(s0.no_duplicates());
    lemma_flag_if_contains(s0, f.symbols, g);
    lemma_flag_if_contains(s1, f.no_opt, o);
    lemma_flag_if_contains(s2, f.source_map, m);
    lemma_flag_if_contains(s3, f.enable_coverage, c);
    lemma_flag_if_contains(s4, f.self_coverage, sc);
    lemma_flag_if_contains(s5, f.enable_value_tracing, vt);
    assert(compilation_flag_args(f) =~= s6);
    assert forall|x: Seq<char>| !#[trigger] s0.contains(x) by {}
    assert(s6.contains(g) <==> f.symbols);
    assert(s6.contains(o) <==> f.no_opt);
    assert(s6.contains(m) <==> f.source_map);
    assert(s6.contains(c) <==> f.enable_coverage);
    assert(s6.contains(sc) <==> f.self_coverage);
    assert(s6.contains(vt) <==> f.enable_value_tracing);
}

/// Appends the arguments of code-generation flags.
pub fn push_compilation_flags(args: &mut Vec<String>, f: CompilationFlags)
    ensures
        final(args).deep_view() == old(args).deep_view() + compilation_flag_args(f),
{
    let ghost before = args.deep_view();
    push_flag_if(args, f.symbols, "-g");
    push_flag_if(args, f.no_opt, "-O0");
    push_flag_if(args, f.source_map, "-source-map");
    push_flag_if(args, f.enable_coverage, "-enable-coverage");
    push_flag_if(args, f.self_coverage, "-coverage-package-override=@self");
    push_flag_if(args, f.enable_value_tracing, "-enable-value-tracing");
    assert(args.deep_view() =~= before + compilation_flag_args(f));
}

/// The invocation of `moonc build-package`, with every option laid out flat.
#[derive(Debug)]
pub struct MooncBuildPackage {
    pub error_format: ErrorFormat,
    pub warn_config: WarnAlertConfig,
    pub alert_config: WarnAlertConfig,
    pub mbt_sources: Vec<String>,
    pub mi_deps: Vec<MiDependency>,
    pub core_out: String,
    pub mi_out: String,
    pub no_mi: bool,
    /// The name of the current package.
    pub package_name: PackageFQN,
    /// The source directory of the current package.
    pub package_source: String,
    pub is_main: bool,
    /// The standard library's core file; `None` for no standard library.
    pub stdlib_core_file: Option<String>,
    pub target_backend: TargetBackend,
    pub flags: CompilationFlags,
    pub extra_build_opts: Vec<String>,
    pub check_mi: Option<String>,
    pub virtual_implementation: Option<VirtualPackageImplementation>,
}

/// The command name, the error format and the deny-all lists.
pub open spec fn bp_head(c: MooncBuildPackage) -> Seq<Seq<char>> {
    seq!["build-package"@] + error_format_args(c.error_format) + set_args_if(
        c.warn_config,
        true,
        "-w"@,
        LEGACY_DENY_WARNING_SET@,
    ) + set_args_if(c.alert_config, true, "-alert"@, LEGACY_DENY_ALERT_SET@)
}

/// The sources, the custom lists and the allow-all lists.
pub open spec fn bp_inputs(c: MooncBuildPackage) -> Seq<Seq<char>> {
    c.mbt_sources.deep_view() + list_args("-w"@, c.warn_config) + list_args(
        "-alert"@,
        c.alert_config,
    ) + set_args_if(c.warn_config, false, "-w"@, LEGACY_ALLOW_WARNING_SET@) + set_args_if(
        c.alert_config,
        false,
        "-alert"@,
        LEGACY_ALLOW_ALERT_SET@,
    )
}

/// The output, the package name, `-is-main` and the standard library.
pub open spec fn bp_package(c: MooncBuildPackage) -> Seq<Seq<char>> {
    seq!["-o"@, c.core_out@, "-pkg"@, c.package_name.name@] + flag_if(c.is_main, "-is-main"@)
        + opt_pair("-std-path"@, opt_view(c.stdlib_core_file))
}

/// The package's source definition and the target backend.
pub open spec fn bp_source_target(c: MooncBuildPackage) -> Seq<Seq<char>> {
    seq![
        "-pkg-sources"@,
        name_and_dir(c.package_name.name@, c.package_source@),
        "-target"@,
        backend_flag(c.target_backend),
    ]
}

/// The virtual package check.
pub open spec fn bp_check(c: MooncBuildPackage) -> Seq<Seq<char>> {
    match c.check_mi {
        Some(p) => seq!["-check-mi"@, p@] + flag_if(c.no_mi, "-no-mi"@),
        None => Seq::empty(),
    }
}

/// The arguments of `moonc build-package` for `c`, in the earlier driver's
/// order.
pub open spec fn build_package_args(c: MooncBuildPackage) -> Seq<Seq<char>> {
    bp_head(c) + bp_inputs(c) + bp_package(c) + mi_dep_args(c.mi_deps@) + bp_source_target(c)
        + compilation_flag_args(c.flags) + c.extra_build_opts.deep_view() + bp_check(c)
        + virtual_impl_args(c.virtual_implementation, true)
}

/// `c` with coverage instrumentation switched to `on`.
pub open spec fn build_with_coverage(c: MooncBuildPackage, on: bool) -> MooncBuildPackage {
    MooncBuildPackage { flags: flags_with_coverage(c.flags, on), ..c }
}

/// The arguments of a build before its code-generation flags.
pub open spec fn bp_before_flags(c: MooncBuildPackage) -> Seq<Seq<char>> {
    bp_head(c) + bp_inputs(c) + bp_package(c) + mi_dep_args(c.mi_deps@) + bp_source_target(c)
}

/// The arguments of a build after its code-generation flags.
pub open spec fn bp_after_flags(c: MooncBuildPackage) -> Seq<Seq<char>> {
    c.extra_build_opts.deep_view() + bp_check(c) + virtual_impl_args(c.virtual_implementation, true)
}

proof fn lemma_build_package_parts(c: MooncBuildPackage)
    ensures
        build_package_args(c) == bp_before_flags(c) + compilation_flag_args(c.flags) + bp_after_flags(c),
{
    assert(build_package_args(c) =~= bp_before_flags(c) + compilation_flag_args(c.flags) + bp_after_flags(c));
}

proof fn lemma_coverage_keeps_parts(c: MooncBuildPackage, on: bool)
    ensures
        bp_before_flags(build_with_coverage(c, on)) == bp_before_flags(c),
        bp_after_flags(build_with_coverage(c, on)) == bp_after_flags(c),
{
    let d = build_with_coverage(c, on);
    assert(bp_head(d) == bp_head(c));
    assert(bp_inputs(d) == bp_inputs(c));
    assert(bp_package(d) == bp_package(c));
    assert(bp_source_target(d) == bp_source_target(c));
    assert(bp_check(d) == bp_check(c));
}

proof fn lemma_target_before_flags(c: MooncBuildPackage)
    ensures
        bp_before_flags(c).len() >= 2,
        bp_before_flags(c)[bp_before_flags(c).len() - 2] == "-target"@,
        bp_before_flags(c)[bp_before_flags(c).len() - 1] == backend_flag(c.target_backend),
{
}

/// The code-generation flags of a build change only their own arguments,
/// which stand right after the target backend: the same build with other
/// flags has the same arguments before and after them.
pub proof fn law_build_package_flags_slot(c: MooncBuildPackage, f: CompilationFlags)
    ensures
        build_package_args(MooncBuildPackage { flags: f, ..c }) == bp_before_flags(c) + compilation_flag_args(f)
            + bp_after_flags(c),
        bp_before_flags(c).len() >= 2,
        bp_before_flags(c)[bp_before_flags(c).len() - 2] == "-target"@,
        bp_before_flags(c)[bp_before_flags(c).len() - 1] == backend_flag(c.target_backend),
{
    let d = MooncBuildPackage { flags: f, ..c };
    lemma_build_package_parts(d);
    assert(bp_head(d) == bp_head(c));
    assert(bp_inputs(d) == bp_inputs(c));
    assert(bp_package(d) == bp_package(c));
    assert(bp_source_target(d) == bp_source_target(c));
    assert(bp_check(d) == bp_check(c));
    lemma_target_before_flags(c);
}

/// A build with coverage passes `-enable-coverage` to the compiler: its
/// arguments are those of the same build without coverage with that one
/// argument added, after the target backend.
#[verifier::rlimit(60)]
pub proof fn law_build_package_coverage(c: MooncBuildPackage)
    ensures
        c.flags.enable_coverage ==> build_package_args(c).contains("-enable-coverage"@),
        ({
            let off = build_package_args(build_with_coverage(c, false));
            let on = build_package_args(build_with_coverage(c, true));
            exists|j: int, k: int|
                #![trigger off[j], off.insert(k, "-enable-coverage"@)]
                0 <= j && j + 2 <= k <= off.len() && off[j] == "-target"@ && off[j + 1] == backend_flag(
                    c.target_backend,
                ) && on == off.insert(k, "-enable-coverage"@)
        }),
{
    let c0 = build_with_coverage(c, false);
    let c1 = build_with_coverage(c, true);
    lemma_build_package_parts(c0);
    lemma_build_package_parts(c1);
    lemma_coverage_keeps_parts(c, false);
    lemma_coverage_keeps_parts(c, true);
    lemma_target_before_flags(c);
    let f = c.flags;
    let p = flag_if(f.symbols, "-g"@) + flag_if(f.no_opt, "-O0"@) + flag_if(f.source_map, "-source-map"@);
    let q = flag_if(f.self_coverage, "-coverage-package-override=@self"@) + flag_if(
        f.enable_value_tracing,
        "-enable-value-tracing"@,
    );
    let e = "-enable-coverage"@;
    assert(compilation_flag_args(c1.flags) =~= p + seq![e] + q);
    assert(compilation_flag_args(c0.flags) =~= p + q);
    let a = bp_before_flags(c);
    let b = bp_after_flags(c);
    lemma_arg_inside(a, p, e, q, b);
    let off = build_package_args(c0);
    let on = build_package_args(c1);
    let k = (a.len() + p.len()) as int;
    let j = a.len() - 2;
    assert(off[j] == a[j]);
    assert(off[j + 1] == a[j + 1]);
    assert(on == off.insert(k, e));
    if c.flags.enable_coverage {
        assert(c1 == c);
        assert(on[k] == e);
    }
}

impl MooncBuildPackage {
    /// An invocation with the given inputs and outputs and every option at its
    /// default.
    pub fn new(
        mbt_sources: Vec<String>,
        core_out: String,
        mi_out: String,
        mi_deps: Vec<MiDependency>,
        package_name: PackageFQN,
        package_source: String,
        target_backend: TargetBackend,
    ) -> (r: MooncBuildPackage)
        ensures
            r.error_format == ErrorFormat::Regular,
            r.warn_config is Default,
            r.alert_config is Default,
            r.mbt_sources == mbt_sources,
            r.mi_deps == mi_deps,
            r.core_out == core_out,
            r.mi_out == mi_out,
            !r.no_mi,
            r.package_name == package_name,
            r.package_source == package_source,
            !r.is_main,
            r.stdlib_core_file is None,
            r.target_backend == target_backend,
            r.flags == CompilationFlags::spec_none(),
            r.extra_build_opts@.len() == 0,
            r.check_mi is None,
            r.virtual_implementation is None,
    {
        MooncBuildPackage {
            error_format: ErrorFormat::Regular,
            warn_config: WarnAlertConfig::Default,
            alert_config: WarnAlertConfig::Default,
            mbt_sources,
            mi_deps,
            core_out,
            mi_out,
            no_mi: false,
            package_name,
            package_source,
            is_main: false,
            stdlib_core_file: None,
            target_backend,
            flags: CompilationFlags::none(),
            extra_build_opts: Vec::new(),
            check_mi: None,
            virtual_implementation: None,
        }
    }

    fn push_head(&self, args: &mut Vec<String>)
        ensures
            final(args).deep_view() == old(args).deep_view() + bp_head(*self),
    {
        let ghost before = args.deep_view();
        push_arg(args, "build-package");
        if self.error_format == ErrorFormat::Json {
            push_pair(args, "-error-format", "json");
        }
        if let WarnAlertConfig::DenyAll = self.warn_config {
            push_pair(args, "-w", LEGACY_DENY_WARNING_SET);
        }
        if let WarnAlertConfig::DenyAll = self.alert_config {
            push_pair(args, "-alert", LEGACY_DENY_ALERT_SET);
        }
        assert(args.deep_view() =~= before + bp_head(*self));
    }

    fn push_inputs(&self, args: &mut Vec<String>)
        ensures
            final(args).deep_view() == old(args).deep_view() + bp_inputs(*self),
    {
        let ghost before = args.deep_view();
        push_all(args, &self.mbt_sources);
        if let WarnAlertConfig::List(w) = &self.warn_config {
            push_pair(args, "-w", w.as_str());
        }
        if let WarnAlertConfig::List(a) = &self.alert_config {
            push_pair(args, "-alert", a.as_str());
        }
        if let WarnAlertConfig::AllowAll = self.warn_config {
            push_pair(args, "-w", LEGACY_ALLOW_WARNING_SET);
        }
        if let WarnAlertConfig::AllowAll = self.alert_config {
            push_pair(args, "-alert", LEGACY_ALLOW_ALERT_SET);
        }
        assert(args.deep_view() =~= before + bp_inputs(*self));
    }

    fn push_package(&self, args: &mut Vec<String>)
        ensures
            final(args).deep_view() == old(args).deep_view() + bp_package(*self),
    {
        let ghost before = args.deep_view();
        push_pair(args, "-o", self.core_out.as_str());
        push_pair(args, "-pkg", self.package_name.name.as_str());
        push_flag_if(args, self.is_main, "-is-main");
        push_opt_pair(args, "-std-path", &self.stdlib_core_file);
        assert(args.deep_view() =~= before + bp_package(*self));
    }

    fn push_source_target(&self, args: &mut Vec<String>)
        ensures
            final(args).deep_view() == old(args).deep_view() + bp_source_target(*self),
    {
        let ghost before = args.deep_view();
        let mut src = concat2(self.package_name.name.as_str(), ":");
        append_str(&mut src, self.package_source.as_str());
        push_pair(args, "-pkg-sources", src.as_str());
        push_pair(args, "-target", self.target_backend.to_flag());
        assert(args.deep_view() =~= before + bp_source_target(*self));
    }

    fn push_check(&self, args: &mut Vec<String>)
        ensures
            final(args).deep_view() == old(args).deep_view() + bp_check(*self),
    {
        let ghost before = args.deep_view();
        if let Some(p) = &self.check_mi {
            push_pair(args, "-check-mi", p.as_str());
            push_flag_if(args, self.no_mi, "-no-mi");
        }
        assert(args.deep_view() =~= before + bp_check(*self));
    }

    /// Appends the arguments, in the earlier driver's order.
    pub fn to_args_legacy(&self, args: &mut Vec<String>)
        ensures
            final(args).deep_view() == old(args).deep_view() + build_package_args(*self),
    {
        let ghost before = args.deep_view();
        let ghost c = *self;
        self.push_head(args);
        self.push_inputs(args);
        proof {
            lemma_append_assoc(before, bp_head(c), bp_inputs(c));
        }
        let ghost p2 = bp_head(c) + bp_inputs(c);
        self.push_package(args);
        proof {
            lemma_append_assoc(before, p2, bp_package(c));
        }
        let ghost p3 = p2 + bp_package(c);
        push_mi_deps(args, &self.mi_deps);
        proof {
            lemma_append_assoc(before, p3, mi_dep_args(c.mi_deps@));
        }
        let ghost p4 = p3 + mi_dep_args(c.mi_deps@);
        self.push_source_target(args);
        proof {
            lemma_append_assoc(before, p4, bp_source_target(c));
        }
        let ghost p5 = p4 + bp_source_target(c);
        push_compilation_flags(args, self.flags);
        proof {
            lemma_append_assoc(before, p5, compilation_flag_args(c.flags));
        }
        let ghost p6 = p5 + compilation_flag_args(c.flags);
        push_all(args, &self.extra_build_opts);
        proof {
            lemma_append_assoc(before, p6, c.extra_build_opts.deep_view());
        }
        let ghost p7 = p6 + c.extra_build_opts.deep_view();
        self.push_check(args);
        proof {
            lemma_append_assoc(before, p7, bp_check(c));
        }
        let ghost p8 = p7 + bp_check(c);
        push_virtual_impl(args, &self.virtual_implementation, true);
        proof {
            lemma_append_assoc(before, p8, virtual_impl_args(c.virtual_implementation, true));
        }
    }
}

impl CmdlineAbstraction for MooncBuildPackage {
    open spec fn args_view(&self) -> Seq<Seq<char>> {
        build_package_args(*self)
    }

    fn to_args(&self, args: &mut Vec<String>) {
        self.to_args_legacy(args);
    }
}

/// The JavaScript module format of linked output.
#[derive(Debug, Clone, Copy, PartialEq, Eq, Structural)]
pub enum JsFormat {
    /// ECMAScript modules, the default.
    ESM,
    /// CommonJS.
    CJS,
    /// An immediately invoked function expression.
    IIFE,
}

/// The name of a JavaScript format on the command line.
pub open spec fn js_format_flag(f: JsFormat) -> Seq<char> {
    match f {
        JsFormat::ESM => "esm"@,
        JsFormat::CJS => "cjs"@,
        JsFormat::IIFE => "iife"@,
    }
}

impl JsFormat {
    /// The name of this format on the command line.
    pub fn to_flag(self) -> (r: &'static str)
        ensures
            r@ == js_format_flag(self),
    {
        match self {
            JsFormat::ESM => "esm",
            JsFormat::CJS => "cjs",
            JsFormat::IIFE => "iife",
        }
    }
}

impl Default for JsFormat {
    fn default() -> (r: JsFormat)
        ensures
            r == JsFormat::ESM,
    {
        JsFormat::ESM
    }
}

/// The memory that a WebAssembly module imports.
#[derive(Debug, Clone)]
pub struct ImportMemory {
    pub module: String,
    pub name: String,
}

/// The page limits of a WebAssembly memory.
#[derive(Debug, Clone, Copy, PartialEq, Eq, Structural)]
pub struct MemoryLimits {
    pub min: u32,
    pub max: u32,
}

/// WebAssembly-specific linking configuration.
#[derive(Debug)]
pub struct WasmConfig {
    pub exports: Option<Vec<String>>,
    pub export_memory_name: Option<String>,
    pub import_memory: Option<ImportMemory>,
    pub memory_limits: Option<MemoryLimits>,
    pub shared_memory: Option<bool>,
    pub heap_start_address: Option<u32>,
    pub link_flags: Option<Vec<String>>,
}

impl Default for WasmConfig {
    fn default() -> (r: WasmConfig)
        ensures
            r.exports is None,
            r.export_memory_name is None,
            r.import_memory is None,
            r.memory_limits is None,
            r.shared_memory is None,
            r.heap_start_address is None,
            r.link_flags is None,
    {
        WasmConfig {
            exports: None,
            export_memory_name: None,
            import_memory: None,
            memory_limits: None,
            shared_memory: None,
            heap_start_address: None,
            link_flags: None,
        }
    }
}

/// The export arguments: an empty argument for an empty export list, and
/// otherwise `-exported_functions=` with the names joined by commas.
pub open spec fn exports_args(e: Option<Vec<String>>) -> Seq<Seq<char>> {
    match e {
        Some(v) => if v@.len() == 0 {
            seq![Seq::empty()]
        } else {
            seq!["-exported_functions="@ + join_sep(v.deep_view(), ',')]
        },
        None => Seq::empty(),
    }
}

/// The exported and imported memory.
pub open spec fn wasm_memory_args(w: WasmConfig) -> Seq<Seq<char>> {
    opt_pair("-export-memory-name"@, opt_view(w.export_memory_name)) + match w.import_memory {
        Some(m) => seq!["-import-memory-module"@, m.module@, "-import-memory-name"@, m.name@],
        None => Seq::empty(),
    }
}

/// The memory limits and sharing.
pub open spec fn wasm_limit_args(w: WasmConfig) -> Seq<Seq<char>> {
    (match w.memory_limits {
        Some(l) => seq![
            "-memory-limits-min"@,
            decimal_digits(l.min as nat),
            "-memory-limits-max"@,
            decimal_digits(l.max as nat),
        ],
        None => Seq::empty(),
    }) + flag_if(w.shared_memory == Some(true), "-shared-memory"@)
}

/// The heap start and the extra link flags.
pub open spec fn wasm_tail_args(w: WasmConfig) -> Seq<Seq<char>> {
    (match w.heap_start_address {
        Some(a) => seq!["-heap-start-address"@, decimal_digits(a as nat)],
        None => Seq::empty(),
    }) + match w.link_flags {
        Some(v) => v.deep_view(),
        None => Seq::empty(),
    }
}

/// The arguments of WebAssembly linking configuration `w`.
pub open spec fn wasm_args(w: WasmConfig) -> Seq<Seq<char>> {
    exports_args(w.exports) + wasm_memory_args(w) + wasm_limit_args(w) + wasm_tail_args(w)
}

fn push_exports(args: &mut Vec<String>, w: &WasmConfig)
    ensures
        final(args).deep_view() == old(args).deep_view() + exports_args(w.exports),
{
    let ghost before = args.deep_view();
    if let Some(e) = &w.exports {
        if e.len() == 0 {
            proof {
                reveal_strlit("");
                assert(""@ =~= Seq::<char>::empty());
            }
            push_arg(args, "");
            assert(args.deep_view() =~= before + exports_args(w.exports));
        } else {
            let sl = e.as_slice();
            assert(sl.deep_view() =~= e.deep_view());
            let joined = join_with(sl, ',');
            let a = concat2("-exported_functions=", joined.as_str());
            push_arg(args, a.as_str());
            assert(args.deep_view() =~= before + exports_args(w.exports));
        }
    }
    assert(args.deep_view() =~= before + exports_args(w.exports));
}

fn push_memory(args: &mut Vec<String>, w: &WasmConfig)
    ensures
        final(args).deep_view() == old(args).deep_view() + wasm_memory_args(*w),
{
    let ghost before = args.deep_view();
    push_opt_pair(args, "-export-memory-name", &w.export_memory_name);
    if let Some(m) = &w.import_memory {
        push_pair(args, "-import-memory-module", m.module.as_str());
        push_pair(args, "-import-memory-name", m.name.as_str());
    }
    assert(args.deep_view() =~= before + wasm_memory_args(*w));
}

fn push_limits(args: &mut Vec<String>, w: &WasmConfig)
    ensures
        final(args).deep_view() == old(args).deep_view() + wasm_limit_args(*w),
{
    let ghost before = args.deep_view();
    if let Some(l) = w.memory_limits {
        let lo = decimal(l.min as u64);
        let hi = decimal(l.max as u64);
        push_pair(args, "-memory-limits-min", lo.as_str());
        push_pair(args, "-memory-limits-max", hi.as_str());
    }
    let shared = match w.shared_memory {
        Some(b) => b,
        None => false,
    };
    push_flag_if(args, shared, "-shared-memory");
    assert(args.deep_view() =~= before + wasm_limit_args(*w));
}

fn push_tail(args: &mut Vec<String>, w: &WasmConfig)
    ensures
        final(args).deep_view() == old(args).deep_view() + wasm_tail_args(*w),
{
    let ghost before = args.deep_view();
    if let Some(a) = w.heap_start_address {
        let d = decimal(a as u64);
        push_pair(args, "-heap-start-address", d.as_str());
    }
    if let Some(v) = &w.link_flags {
        push_all(args, v);
    }
    assert(args.deep_view() =~= before + wasm_tail_args(*w));
}

/// Appends the arguments of WebAssembly linking configuration `w`.
fn push_wasm_config(args: &mut Vec<String>, w: &WasmConfig)
    ensures
        final(args).deep_view() == old(args).deep_view() + wasm_args(*w),
{
    let ghost before = args.deep_view();
    push_exports(args, w);
    push_memory(args, w);
    proof {
        lemma_append_assoc(before, exports_args(w.exports), wasm_memory_args(*w));
    }
    push_limits(args, w);
    proof {
        lemma_append_assoc(
            before,
            exports_args(w.exports) + wasm_memory_args(*w),
            wasm_limit_args(*w),
        );
    }
    push_tail(args, w);
    proof {
        lemma_append_assoc(
            before,
            exports_args(w.exports) + wasm_memory_args(*w) + wasm_limit_args(*w),
            wasm_tail_args(*w),
        );
    }
}

/// The invocation of `moonc link-core`, in the earlier driver's exact argument
/// order.
#[derive(Debug)]
pub struct MooncLinkCore {
    /// The `.core` inputs.
    pub core_deps: Vec<String>,
    pub main_package: PackageFQN,
    pub output_path: String,
    pub pkg_config_path: String,
    pub package_sources: Vec<PackageSource>,
    /// The standard library's core source; `None` for no standard library.
    pub stdlib_core_source: Option<PackageSource>,
    pub target_backend: TargetBackend,
    /// Code generation flags; `symbols` gives `-g`, `no_opt` gives `-O0`.
    pub flags: CompilationFlags,
    pub wasm_config: WasmConfig,
    pub js_format: Option<JsFormat>,
    pub extra_link_opts: Vec<String>,
}

/// `-pkg-sources name:dir` for each package source.
pub open spec fn package_source_args(v: Seq<PackageSource>) -> Seq<Seq<char>>
    decreases v.len(),
{
    if v.len() == 0 {
        Seq::empty()
    } else {
        package_source_args(v.drop_last()) + seq![
            "-pkg-sources"@,
            name_and_dir(v.last().package_name.name@, v.last().source_dir@),
        ]
    }
}

/// The command name, the inputs, the main package, the output and the package
/// configuration.
pub open spec fn lc_head(c: MooncLinkCore) -> Seq<Seq<char>> {
    seq!["link-core"@] + c.core_deps.deep_view() + seq![
        "-main"@,
        c.main_package.name@,
        "-o"@,
        c.output_path@,
        "-pkg-config-path"@,
        c.pkg_config_path@,
    ]
}

/// The package sources, the standard library's last.
pub open spec fn lc_sources(c: MooncLinkCore) -> Seq<Seq<char>> {
    package_source_args(c.package_sources@) + match c.stdlib_core_source {
        Some(s) => seq!["-pkg-sources"@, name_and_dir(s.package_name.name@, s.source_dir@)],
        None => Seq::empty(),
    }
}

/// The target and the debug, optimization and source-map flags.
pub open spec fn lc_target(c: MooncLinkCore) -> Seq<Seq<char>> {
    seq!["-target"@, backend_flag(c.target_backend)] + flag_if(c.flags.symbols, "-g"@) + flag_if(
        c.flags.no_opt,
        "-O0"@,
    ) + flag_if(c.flags.source_map, "-source-map"@)
}

/// The WebAssembly configuration, for the WebAssembly backends.
pub open spec fn lc_wasm(c: MooncLinkCore) -> Seq<Seq<char>> {
    if c.target_backend == TargetBackend::Wasm || c.target_backend == TargetBackend::WasmGC {
        wasm_args(c.wasm_config)
    } else {
        Seq::empty()
    }
}

/// The JavaScript format, the default one when none is given, for the
/// JavaScript backend.
pub open spec fn lc_js(c: MooncLinkCore) -> Seq<Seq<char>> {
    if c.target_backend == TargetBackend::Js {
        seq![
            "-js-format"@,
            js_format_flag(
                match c.js_format {
                    Some(f) => f,
                    None => JsFormat::ESM,
                },
            ),
        ]
    } else {
        Seq::empty()
    }
}

/// The arguments of `moonc link-core` for `c`.
pub open spec fn link_core_args(c: MooncLinkCore) -> Seq<Seq<char>> {
    lc_head(c) + lc_sources(c) + lc_target(c) + lc_wasm(c) + lc_js(c) + c.extra_link_opts.deep_view()
}

/// The target part of a link names the target backend, then holds `-g`,
/// `-O0` and `-source-map` exactly when debug symbols, no optimization and a
/// source map are asked for, each once; and the flags of a link change only
/// that part of its arguments.
pub proof fn law_legacy_link_target_flags(c: MooncLinkCore, f: CompilationFlags)
    ensures
        lc_target(c)[0] == "-target"@,
        lc_target(c)[1] == backend_flag(c.target_backend),
        lc_target(c).contains("-g"@) <==> c.flags.symbols,
        lc_target(c).contains("-O0"@) <==> c.flags.no_opt,
        lc_target(c).contains("-source-map"@) <==> c.flags.source_map,
        lc_target(c).no_duplicates(),
        link_core_args(MooncLinkCore { flags: f, ..c }) == lc_head(c) + lc_sources(c) + lc_target(
            MooncLinkCore { flags: f, ..c },
        ) + lc_wasm(c) + lc_js(c) + c.extra_link_opts.deep_view(),
{
    lemma_target_part(c.target_backend, c.flags.symbols, c.flags.no_opt, c.flags.source_map);
    let d = MooncLinkCore { flags: f, ..c };
    assert(lc_head(d) == lc_head(c));
    assert(lc_sources(d) == lc_sources(c));
    assert(lc_wasm(d) == lc_wasm(c));
    assert(lc_js(d) == lc_js(c));
}

impl MooncLinkCore {
    /// An invocation with the given inputs and outputs and every option at its
    /// default.
    pub fn new(
        core_deps: Vec<String>,
        main_package: PackageFQN,
        output_path: String,
        pkg_config_path: String,
        package_sources: Vec<PackageSource>,
        target_backend: TargetBackend,
    ) -> (r: MooncLinkCore)
        ensures
            r.core_deps == core_deps,
            r.main_package == main_package,
            r.output_path == output_path,
            r.pkg_config_path == pkg_config_path,
            r.package_sources == package_sources,
            r.stdlib_core_source is None,
            r.target_backend == target_backend,
            r.flags == CompilationFlags::spec_none(),
            r.wasm_config.exports is None,
            r.wasm_config.export_memory_name is None,
            r.wasm_config.import_memory is None,
            r.wasm_config.memory_limits is None,
            r.wasm_config.shared_memory is None,
            r.wasm_config.heap_start_address is None,
            r.wasm_config.link_flags is None,
            r.js_format is None,
            r.extra_link_opts@.len() == 0,
    {
        MooncLinkCore {
            core_deps,
            main_package,
            output_path,
            pkg_config_path,
            package_sources,
            stdlib_core_source: None,
            target_backend,
            flags: CompilationFlags::none(),
            wasm_config: WasmConfig::default(),
            js_format: None,
            extra_link_opts: Vec::new(),
        }
    }

    fn push_head(&self, args: &mut Vec<String>)
        ensures
            final(args).deep_view() == old(args).deep_view() + lc_head(*self),
    {
        let ghost before = args.deep_view();
        push_arg(args, "link-core");
        push_all(args, &self.core_deps);
        push_pair(args, "-main", self.main_package.name.as_str());
        push_pair(args, "-o", self.output_path.as_str());
        push_pair(args, "-pkg-config-path", self.pkg_config_path.as_str());
        assert(args.deep_view() =~= before + lc_head(*self));
    }

    fn push_sources(&self, args: &mut Vec<String>)
        ensures
            final(args).deep_view() == old(args).deep_view() + lc_sources(*self),
    {
        let ghost before = args.deep_view();
        let mut i: usize = 0;
        while i < self.package_sources.len()
            invariant
                i <= self.package_sources.len(),
                args.deep_view() == before + package_source_args(self.package_sources@.take(i as int)),
            decreases self.package_sources.len() - i,
        {
            let a = self.package_sources[i].to_arg();
            push_pair(args, "-pkg-sources", a.as_str());
            proof {
                let t = self.package_sources@.take(i + 1);
                assert(t.drop_last() =~= self.package_sources@.take(i as int));
                assert(args.deep_view() =~= before + package_source_args(t));
            }
            i = i + 1;
        }
        assert(self.package_sources@.take(self.package_sources@.len() as int) =~= self.package_sources@);
        let ghost mid = args.deep_view();
        if let Some(s) = &self.stdlib_core_source {
            let a = s.to_arg();
            push_pair(args, "-pkg-sources", a.as_str());
        }
        assert(args.deep_view() =~= before + lc_sources(*self));
    }

    fn push_target(&self, args: &mut Vec<String>)
        ensures
            final(args).deep_view() == old(args).deep_view() + lc_target(*self),
    {
        let ghost before = args.deep_view();
        push_pair(args, "-target", self.target_backend.to_flag());
        push_flag_if(args, self.flags.symbols, "-g");
        push_flag_if(args, self.flags.no_opt, "-O0");
        push_flag_if(args, self.flags.source_map, "-source-map");
        assert(args.deep_view() =~= before + lc_target(*self));
    }

    fn push_backend_specific(&self, args: &mut Vec<String>)
        ensures
            final(args).deep_view() == old(args).deep_view() + lc_wasm(*self) + lc_js(*self),
    {
        let ghost before = args.deep_view();
        if self.target_backend == TargetBackend::Wasm || self.target_backend == TargetBackend::WasmGC {
            push_wasm_config(args, &self.wasm_config);
        }
        let ghost mid = args.deep_view();
        assert(mid =~= before + lc_wasm(*self));
        if self.target_backend == TargetBackend::Js {
            let f = match self.js_format {
                Some(f) => f,
                None => JsFormat::default(),
            };
            push_pair(args, "-js-format", f.to_flag());
        }
        assert(args.deep_view() =~= mid + lc_js(*self));
    }

    /// Appends the arguments, in the earlier driver's exact order.
    pub fn to_args_legacy(&self, args: &mut Vec<String>)
        ensures
            final(args).deep_view() == old(args).deep_view() + link_core_args(*self),
    {
        let ghost before = args.deep_view();
        let ghost c = *self;
        self.push_head(args);
        self.push_sources(args);
        proof {
            lemma_append_assoc(before, lc_head(c), lc_sources(c));
        }
        let ghost p2 = lc_head(c) + lc_sources(c);
        self.push_target(args);
        proof {
            lemma_append_assoc(before, p2, lc_target(c));
        }
        let ghost p3 = p2 + lc_target(c);
        self.push_backend_specific(args);
        proof {
            lemma_append_assoc(before, p3, lc_wasm(c));
            lemma_append_assoc(before, p3 + lc_wasm(c), lc_js(c));
        }
        let ghost p5 = p3 + lc_wasm(c) + lc_js(c);
        push_all(args, &self.extra_link_opts);
        proof {
            lemma_append_assoc(before, p5, c.extra_link_opts.deep_view());
        }
    }
}

impl CmdlineAbstraction for MooncLinkCore {
    open spec fn args_view(&self) -> Seq<Seq<char>> {
        link_core_args(*self)
    }

    fn to_args(&self, args: &mut Vec<String>) {
        self.to_args_legacy(args);
    }
}

} // verus!
