//! The `moonc link-core` invocation, with test mode, exports and the
//! JavaScript configuration, in the compiler's exact argument order.

use vstd::prelude::*;

use super::args::{
    flag_if, lemma_append_assoc, lemma_arg_inside, lemma_target_part, opt_pair, opt_view, push_all, push_arg, push_flag_if,
    push_opt_pair, push_pair,
};
use super::legacy::{js_format_flag, ImportMemory, MemoryLimits};
use super::{
    compiled_name_suffix, name_and_dir, CmdlineAbstraction, CompilationFlags, CompiledPackageName,
    PackageFQN, PackageSource,
};
use crate::build_lower::target_options::{is_test_kind, kind_is_test, JsConfig};
use crate::model::{backend_flag, TargetBackend, TargetKind};
use crate::text::{concat2, decimal, decimal_digits, join_sep, join_with, owned};

verus! {

/// The functions a test driver exports, joined by commas.
pub const TEST_DRIVER_EXPORTS: &'static str = "moonbit_test_driver_internal_execute,moonbit_test_driver_finish";

/// WebAssembly-specific linking configuration.
#[derive(Debug)]
pub struct WasmConfig {
    /// The name of the exported memory, if any.
    pub export_memory_name: Option<String>,
    /// The imported memory, if any.
    pub import_memory: Option<ImportMemory>,
    /// The memory's page limits, if any.
    pub memory_limits: Option<MemoryLimits>,
    /// Whether the memory is shared.
    pub shared_memory: Option<bool>,
    /// Where the heap starts in linear memory.
    pub heap_start_address: Option<u32>,
    /// Extra flags for the WebAssembly linker.
    pub link_flags: Option<Vec<String>>,
}

impl Default for WasmConfig {
    fn default() -> (r: WasmConfig)
        ensures
            r.export_memory_name is None,
            r.import_memory is None,
            r.memory_limits is None,
            r.shared_memory is None,
            r.heap_start_address is None,
            r.link_flags is None,
    {
        WasmConfig {
            export_memory_name: None,
            import_memory: None,
            memory_limits: None,
            shared_memory: None,
            heap_start_address: None,
            link_flags: None,
        }
    }
}

/// The invocation of `moonc link-core`.
#[derive(Debug)]
pub struct MooncLinkCore {
    /// The `.core` inputs, in the order in which their initializers run.
    pub core_deps: Vec<String>,
    /// The package holding the entry point.
    pub main_package: CompiledPackageName,
    /// The linked output.
    pub output_path: String,
    /// The manifest of the main package.
    pub pkg_config_path: String,
    /// The source directory of every package involved.
    pub package_sources: Vec<PackageSource>,
    /// The standard library's core source; `None` for no standard library.
    pub stdlib_core_source: Option<PackageSource>,
    pub target_backend: TargetBackend,
    /// Code generation flags; `symbols` gives `-g`, `no_opt` gives `-O0`.
    pub flags: CompilationFlags,
    /// Whether the output is linked to run tests.
    pub test_mode: bool,
    /// The functions to export, outside test mode.
    pub exports: Option<Vec<String>>,
    pub wasm_config: WasmConfig,
    pub js_config: Option<JsConfig>,
    /// Extra options from the user's configuration.
    pub extra_link_opts: Vec<String>,
    /// Whether an LLVM link names the MSVC target explicitly, as it must on a
    /// Windows host whose native toolchain uses the MSVC ABI.
    pub msvc_llvm_target: bool,
}

/// The name the compiler is given for `n`.
pub open spec fn compiled_name(n: CompiledPackageName) -> Seq<char> {
    n.fqn.name@ + compiled_name_suffix(n.kind)
}

/// The `-pkg-sources` argument of `s`.
pub open spec fn source_arg(s: PackageSource) -> Seq<char> {
    name_and_dir(compiled_name(s.package_name), s.source_dir@)
}

/// `-pkg-sources name:dir` for each package source.
pub open spec fn source_args(v: Seq<PackageSource>) -> Seq<Seq<char>>
    decreases v.len(),
{
    if v.len() == 0 {
        Seq::empty()
    } else {
        source_args(v.drop_last()) + seq!["-pkg-sources"@, source_arg(v.last())]
    }
}

/// The command name, the inputs, the main package, the output, test mode and
/// the package configuration.
pub open spec fn lk_head(c: MooncLinkCore) -> Seq<Seq<char>> {
    seq!["link-core"@] + c.core_deps.deep_view() + seq![
        "-main"@,
        compiled_name(c.main_package),
        "-o"@,
        c.output_path@,
    ] + flag_if(c.test_mode, "-test-mode"@) + seq!["-pkg-config-path"@, c.pkg_config_path@]
}

/// The package sources, the standard library's last, then the test driver's
/// exports in test mode.
pub open spec fn lk_sources(c: MooncLinkCore) -> Seq<Seq<char>> {
    source_args(c.package_sources@) + (match c.stdlib_core_source {
        Some(s) => seq!["-pkg-sources"@, source_arg(s)],
        None => Seq::empty(),
    }) + (if c.test_mode {
        seq!["-exported_functions"@, TEST_DRIVER_EXPORTS@]
    } else {
        Seq::empty()
    })
}

/// The JavaScript format and declaration switch, when configured.
pub open spec fn lk_js(c: MooncLinkCore) -> Seq<Seq<char>> {
    match c.js_config {
        Some(j) => opt_pair(
            "-js-format"@,
            match j.format {
                Some(f) => Some(js_format_flag(f)),
                None => None,
            },
        ) + flag_if(j.no_dts, "-no-dts"@),
        None => Seq::empty(),
    }
}

/// The target and the debug, optimization and source-map flags.
pub open spec fn lk_target(c: MooncLinkCore) -> Seq<Seq<char>> {
    seq!["-target"@, backend_flag(c.target_backend)] + flag_if(c.flags.symbols, "-g"@) + flag_if(
        c.flags.no_opt,
        "-O0"@,
    ) + flag_if(c.flags.source_map, "-source-map"@)
}

/// The exported functions, outside test mode and when there are any.
pub open spec fn lk_exports(c: MooncLinkCore) -> Seq<Seq<char>> {
    match c.exports {
        Some(v) => if v@.len() > 0 && !c.test_mode {
            seq!["-exported_functions="@ + join_sep(v.deep_view(), ',')]
        } else {
            Seq::empty()
        },
        None => Seq::empty(),
    }
}

/// The exported and imported memory.
pub open spec fn wc_memory(w: WasmConfig) -> Seq<Seq<char>> {
    opt_pair("-export-memory-name"@, opt_view(w.export_memory_name)) + match w.import_memory {
        Some(m) => seq!["-import-memory-module"@, m.module@, "-import-memory-name"@, m.name@],
        None => Seq::empty(),
    }
}

/// The memory limits and sharing.
pub open spec fn wc_limits(w: WasmConfig) -> Seq<Seq<char>> {
    (match w.memory_limits {
        Some(l) => seq![
            "-memory-limits-min"@,
            decimal_digits(l.min as nat),
            "-memory-limits-max"@,
            decimal_digits(l.max as nat),
        ],
        None => Seq::empty(),
    }) + flag_if(w.shared_memory == Some(true), "-shared-memory"@)
}

/// The heap start and the extra linker flags.
pub open spec fn wc_tail(w: WasmConfig) -> Seq<Seq<char>> {
    (match w.heap_start_address {
        Some(a) => seq!["-heap-start-address"@, decimal_digits(a as nat)],
        None => Seq::empty(),
    }) + match w.link_flags {
        Some(v) => v.deep_view(),
        None => Seq::empty(),
    }
}

/// The WebAssembly memory and linker configuration `w`.
pub open spec fn wasm_config_args(w: WasmConfig) -> Seq<Seq<char>> {
    wc_memory(w) + wc_limits(w) + wc_tail(w)
}

/// The WebAssembly configuration, for the WebAssembly backends.
pub open spec fn lk_wasm(c: MooncLinkCore) -> Seq<Seq<char>> {
    if c.target_backend == TargetBackend::Wasm || c.target_backend == TargetBackend::WasmGC {
        wasm_config_args(c.wasm_config)
    } else {
        Seq::empty()
    }
}

/// The explicit MSVC target of an LLVM link, when asked for.
pub open spec fn lk_llvm_target(c: MooncLinkCore) -> Seq<Seq<char>> {
    if c.msvc_llvm_target && c.target_backend == TargetBackend::LLVM {
        seq!["-llvm-target"@, "x86_64-pc-windows-msvc"@]
    } else {
        Seq::empty()
    }
}

/// The arguments of `moonc link-core` for `c`.
pub open spec fn link_core_args(c: MooncLinkCore) -> Seq<Seq<char>> {
    lk_head(c) + lk_sources(c) + lk_js(c) + lk_target(c) + lk_exports(c) + lk_wasm(c)
        + c.extra_link_opts.deep_view() + lk_llvm_target(c)
}

fn push_wc_memory(args: &mut Vec<String>, w: &WasmConfig)
    ensures
        final(args).deep_view() == old(args).deep_view() + wc_memory(*w),
{
    let ghost before = args.deep_view();
    push_opt_pair(args, "-export-memory-name", &w.export_memory_name);
    if let Some(m) = &w.import_memory {
        push_pair(args, "-import-memory-module", m.module.as_str());
        push_pair(args, "-import-memory-name", m.name.as_str());
    }
    assert(args.deep_view() =~= before + wc_memory(*w));
}

fn push_wc_limits(args: &mut Vec<String>, w: &WasmConfig)
    ensures
        final(args).deep_view() == old(args).deep_view() + wc_limits(*w),
{
    let ghost before = args.deep_view();
    if let Some(l) = w.memory_limits {
        let lo = decimal(l.min as u64);
        let hi = decimal(l.max as u64);
        push_pair(args, "-memory-limits-min", lo.as_str());
        push_pair(args, "-memory-limits-max", hi.as_str());
    }
    let shared = match w.shared_memory {
        Some(b) => b,
        None => false,
    };
    push_flag_if(args, shared, "-shared-memory");
    assert(args.deep_view() =~= before + wc_limits(*w));
}

fn push_wc_tail(args: &mut Vec<String>, w: &WasmConfig)
    ensures
        final(args).deep_view() == old(args).deep_view() + wc_tail(*w),
{
    let ghost before = args.deep_view();
    if let Some(a) = w.heap_start_address {
        let d = decimal(a as u64);
        push_pair(args, "-heap-start-address", d.as_str());
    }
    if let Some(v) = &w.link_flags {
        push_all(args, v);
    }
    assert(args.deep_view() =~= before + wc_tail(*w));
}

/// `c` with the source map switched to `on`.
pub open spec fn link_with_source_map(c: MooncLinkCore, on: bool) -> MooncLinkCore {
    MooncLinkCore { flags: CompilationFlags { source_map: on, ..c.flags }, ..c }
}

/// The arguments of a link before its target.
pub open spec fn lk_before_target(c: MooncLinkCore) -> Seq<Seq<char>> {
    lk_head(c) + lk_sources(c) + lk_js(c)
}

/// The arguments of a link after its target and code-generation flags.
pub open spec fn lk_after_target(c: MooncLinkCore) -> Seq<Seq<char>> {
    lk_exports(c) + lk_wasm(c) + c.extra_link_opts.deep_view() + lk_llvm_target(c)
}

proof fn lemma_link_parts(c: MooncLinkCore)
    ensures
        link_core_args(c) == lk_before_target(c) + lk_target(c) + lk_after_target(c),
{
    assert(link_core_args(c) =~= lk_before_target(c) + lk_target(c) + lk_after_target(c));
}

proof fn lemma_source_map_keeps_parts(c: MooncLinkCore, on: bool)
    ensures
        lk_before_target(link_with_source_map(c, on)) == lk_before_target(c),
        lk_after_target(link_with_source_map(c, on)) == lk_after_target(c),
{
    let d = link_with_source_map(c, on);
    assert(lk_head(d) == lk_head(c));
    assert(lk_sources(d) == lk_sources(c));
    assert(lk_js(d) == lk_js(c));
    assert(lk_exports(d) == lk_exports(c));
    assert(lk_wasm(d) == lk_wasm(c));
    assert(lk_llvm_target(d) == lk_llvm_target(c));
}

/// A link with a source map asks the compiler for one: its arguments are
/// those of the same link without it with `-source-map` added once, right
/// after the target (and the debug and optimization switches).
#[verifier::rlimit(60)]
pub proof fn law_link_core_source_map(c: MooncLinkCore)
    ensures
        c.flags.source_map ==> link_core_args(c).contains("-source-map"@),
        ({
            let off = link_core_args(link_with_source_map(c, false));
            let on = link_core_args(link_with_source_map(c, true));
            exists|j: int, k: int|
                #![trigger off[j], off.insert(k, "-source-map"@)]
                0 <= j && j + 2 <= k <= j + 4 && k <= off.len() && off[j] == "-target"@ && off[j + 1]
                    == backend_flag(c.target_backend) && on == off.insert(k, "-source-map"@)
        }),
{
    let c0 = link_with_source_map(c, false);
    let c1 = link_with_source_map(c, true);
    lemma_link_parts(c0);
    lemma_link_parts(c1);
    lemma_source_map_keeps_parts(c, false);
    lemma_source_map_keeps_parts(c, true);
    let f = c.flags;
    let p = seq!["-target"@, backend_flag(c.target_backend)] + flag_if(f.symbols, "-g"@) + flag_if(f.no_opt, "-O0"@);
    let e = "-source-map"@;
    let q = Seq::<Seq<char>>::empty();
    assert(lk_target(c1) =~= p + seq![e] + q);
    assert(lk_target(c0) =~= p + q);
    let a = lk_before_target(c);
    let b = lk_after_target(c);
    lemma_arg_inside(a, p, e, q, b);
    let off = link_core_args(c0);
    let on = link_core_args(c1);
    let k = (a.len() + p.len()) as int;
    let j = a.len() as int;
    assert(off[j] == (p + q)[0]);
    assert(off[j + 1] == (p + q)[1]);
    assert(on == off.insert(k, e));
    if c.flags.source_map {
        assert(c1 == c);
        assert(on[k] == e);
    }
}

/// The target part of a link names the target backend, then holds `-g`,
/// `-O0` and `-source-map` exactly when debug symbols, no optimization and a
/// source map are asked for, each once; and the flags of a link change only
/// that part of its arguments.
pub proof fn law_link_core_target_flags(c: MooncLinkCore, f: CompilationFlags)
    ensures
        lk_target(c)[0] == "-target"@,
        lk_target(c)[1] == backend_flag(c.target_backend),
        lk_target(c).contains("-g"@) <==> c.flags.symbols,
        lk_target(c).contains("-O0"@) <==> c.flags.no_opt,
        lk_target(c).contains("-source-map"@) <==> c.flags.source_map,
        lk_target(c).no_duplicates(),
        link_core_args(MooncLinkCore { flags: f, ..c }) == lk_before_target(c) + lk_target(
            MooncLinkCore { flags: f, ..c },
        ) + lk_after_target(c),
{
    lemma_target_part(c.target_backend, c.flags.symbols, c.flags.no_opt, c.flags.source_map);
    let d = MooncLinkCore { flags: f, ..c };
    lemma_link_parts(d);
    assert(lk_head(d) == lk_head(c));
    assert(lk_sources(d) == lk_sources(c));
    assert(lk_js(d) == lk_js(c));
    assert(lk_exports(d) == lk_exports(c));
    assert(lk_wasm(d) == lk_wasm(c));
    assert(lk_llvm_target(d) == lk_llvm_target(c));
}

/// Appends the WebAssembly configuration `w`.
fn push_wasm_config(args: &mut Vec<String>, w: &WasmConfig)
    ensures
        final(args).deep_view() == old(args).deep_view() + wasm_config_args(*w),
{
    let ghost before = args.deep_view();
    push_wc_memory(args, w);
    push_wc_limits(args, w);
    proof {
        lemma_append_assoc(before, wc_memory(*w), wc_limits(*w));
    }
    push_wc_tail(args, w);
    proof {
        lemma_append_assoc(before, wc_memory(*w) + wc_limits(*w), wc_tail(*w));
    }
}

impl MooncLinkCore {
    fn push_head(&self, args: &mut Vec<String>)
        ensures
            final(args).deep_view() == old(args).deep_view() + lk_head(*self),
    {
        let ghost before = args.deep_view();
        push_arg(args, "link-core");
        push_all(args, &self.core_deps);
        let main = self.main_package.to_string();
        push_pair(args, "-main", main.as_str());
        push_pair(args, "-o", self.output_path.as_str());
        push_flag_if(args, self.test_mode, "-test-mode");
        push_pair(args, "-pkg-config-path", self.pkg_config_path.as_str());
        assert(args.deep_view() =~= before + lk_head(*self));
    }

    fn push_sources(&self, args: &mut Vec<String>)
        ensures
            final(args).deep_view() == old(args).deep_view() + lk_sources(*self),
    {
        let ghost before = args.deep_view();
        let mut i: usize = 0;
        while i < self.package_sources.len()
            invariant
                i <= self.package_sources.len(),
                args.deep_view() == before + source_args(self.package_sources@.take(i as int)),
            decreases self.package_sources.len() - i,
        {
            let a = self.package_sources[i].to_arg();
            push_pair(args, "-pkg-sources", a.as_str());
            proof {
                let t = self.package_sources@.take(i + 1);
                assert(t.drop_last() =~= self.package_sources@.take(i as int));
                assert(args.deep_view() =~= before + source_args(t));
            }
            i = i + 1;
        }
        assert(self.package_sources@.take(self.package_sources@.len() as int) =~= self.package_sources@);
        if let Some(s) = &self.stdlib_core_source {
            let a = s.to_arg();
            push_pair(args, "-pkg-sources", a.as_str());
        }
        if self.test_mode {
            push_pair(args, "-exported_functions", TEST_DRIVER_EXPORTS);
        }
        assert(args.deep_view() =~= before + lk_sources(*self));
    }

    fn push_js(&self, args: &mut Vec<String>)
        ensures
            final(args).deep_view() == old(args).deep_view() + lk_js(*self),
    {
        let ghost before = args.deep_view();
        if let Some(j) = self.js_config {
            if let Some(f) = j.format {
                push_pair(args, "-js-format", f.to_flag());
            }
            push_flag_if(args, j.no_dts, "-no-dts");
        }
        assert(args.deep_view() =~= before + lk_js(*self));
    }

    fn push_target(&self, args: &mut Vec<String>)
        ensures
            final(args).deep_view() == old(args).deep_view() + lk_target(*self),
    {
        let ghost before = args.deep_view();
        push_pair(args, "-target", self.target_backend.to_flag());
        push_flag_if(args, self.flags.symbols, "-g");
        push_flag_if(args, self.flags.no_opt, "-O0");
        push_flag_if(args, self.flags.source_map, "-source-map");
        assert(args.deep_view() =~= before + lk_target(*self));
    }

    fn push_js_and_target(&self, args: &mut Vec<String>)
        ensures
            final(args).deep_view() == old(args).deep_view() + (lk_js(*self) + lk_target(*self)),
    {
        let ghost before = args.deep_view();
        self.push_js(args);
        self.push_target(args);
        proof {
            lemma_append_assoc(before, lk_js(*self), lk_target(*self));
        }
    }

    fn push_exports_and_wasm(&self, args: &mut Vec<String>)
        ensures
            final(args).deep_view() == old(args).deep_view() + (lk_exports(*self) + lk_wasm(*self)),
    {
        let ghost before = args.deep_view();
        if let Some(e) = &self.exports {
            if e.len() > 0 && !self.test_mode {
                let sl = e.as_slice();
                assert(sl.deep_view() =~= e.deep_view());
                let joined = join_with(sl, ',');
                let a = concat2("-exported_functions=", joined.as_str());
                push_arg(args, a.as_str());
            }
        }
        let ghost mid = args.deep_view();
        assert(mid =~= before + lk_exports(*self));
        if self.target_backend == TargetBackend::Wasm || self.target_backend == TargetBackend::WasmGC {
            push_wasm_config(args, &self.wasm_config);
        }
        assert(args.deep_view() =~= before + (lk_exports(*self) + lk_wasm(*self)));
    }

    /// Appends the arguments, in the compiler's exact order.
    pub fn to_args_legacy(&self, args: &mut Vec<String>)
        ensures
            final(args).deep_view() == old(args).deep_view() + link_core_args(*self),
    {
        let ghost before = args.deep_view();
        let ghost c = *self;
        self.push_head(args);
        self.push_sources(args);
        proof {
            lemma_append_assoc(before, lk_head(c), lk_sources(c));
        }
        let ghost p2 = lk_head(c) + lk_sources(c);
        self.push_js_and_target(args);
        proof {
            lemma_append_assoc(before, p2, lk_js(c) + lk_target(c));
            assert(p2 + (lk_js(c) + lk_target(c)) =~= p2 + lk_js(c) + lk_target(c));
        }
        let ghost p4 = p2 + lk_js(c) + lk_target(c);
        self.push_exports_and_wasm(args);
        proof {
            lemma_append_assoc(before, p4, lk_exports(c) + lk_wasm(c));
            assert(p4 + (lk_exports(c) + lk_wasm(c)) =~= p4 + lk_exports(c) + lk_wasm(c));
        }
        let ghost p6 = p4 + lk_exports(c) + lk_wasm(c);
        push_all(args, &self.extra_link_opts);
        proof {
            lemma_append_assoc(before, p6, c.extra_link_opts.deep_view());
        }
        let ghost p7 = p6 + c.extra_link_opts.deep_view();
        if self.msvc_llvm_target && self.target_backend == TargetBackend::LLVM {
            proof {
                reveal_strlit("-llvm-target");
                reveal_strlit("x86_64-pc-windows-msvc");
            }
            push_pair(args, "-llvm-target", "x86_64-pc-windows-msvc");
        }
        assert(args.deep_view() =~= before + (p7 + lk_llvm_target(c)));
    }
}

impl CmdlineAbstraction for MooncLinkCore {
    open spec fn args_view(&self) -> Seq<Seq<char>> {
        link_core_args(*self)
    }

    fn to_args(&self, args: &mut Vec<String>) {
        self.to_args_legacy(args);
    }
}

/// A package of the link, in link order: its name, the kind of its target,
/// its source directory and the `.core` file its compilation produced.
#[derive(Clone, Debug)]
pub struct LinkedPackage {
    pub fqn: PackageFQN,
    pub kind: TargetKind,
    pub root_path: String,
    pub core_path: String,
}

/// The standard library of a link: its source directory and its two `.core`
/// bundles, the abort package's and the rest's.
#[derive(Clone, Debug)]
pub struct StdlibCores {
    pub path: String,
    pub abort_core: String,
    pub core_core: String,
}

/// The `.core` inputs of a link: the standard library's bundles first (the
/// abort bundle only when no package overrides abort), then each linked
/// package's, in link order.
pub open spec fn link_core_inputs(linked: Seq<LinkedPackage>, stdlib: Option<StdlibCores>, abort_overridden: bool) -> Seq<
    Seq<char>,
> {
    (match stdlib {
        Some(s) => if abort_overridden {
            seq![s.core_core@]
        } else {
            seq![s.abort_core@, s.core_core@]
        },
        None => Seq::empty(),
    }) + Seq::new(linked.len(), |i: int| linked[i].core_path@)
}

/// The name of the standard library's package.
pub open spec fn core_package_name() -> Seq<char> {
    "moonbitlang/core"@
}

/// Whether `s` is the source of the linked package `p`.
pub open spec fn is_source_of(s: PackageSource, p: LinkedPackage) -> bool {
    s.package_name.fqn.name@ == p.fqn.name@ && s.package_name.kind == p.kind && s.source_dir@ == p.root_path@
}

/// The `moonc link-core` invocation for a target of kind `kind` of the
/// package `main`, linking `linked` (in link order) into `output_path`: the
/// standard library's bundles lead the inputs, every linked package and the
/// standard library give a source directory, test kinds link in test mode,
/// and the backend, flags, WebAssembly and JavaScript configuration, exports
/// and extra options are passed through.
pub fn link_core_command(
    linked: &Vec<LinkedPackage>,
    stdlib: &Option<StdlibCores>,
    abort_overridden: bool,
    main: PackageFQN,
    kind: TargetKind,
    output_path: String,
    pkg_config_path: String,
    target_backend: TargetBackend,
    flags: CompilationFlags,
    wasm_config: WasmConfig,
    js_config: Option<JsConfig>,
    exports: Option<Vec<String>>,
    extra_link_opts: Vec<String>,
    msvc_llvm_target: bool,
) -> (r: MooncLinkCore)
    ensures
        r.core_deps.deep_view() == link_core_inputs(linked@, *stdlib, abort_overridden),
        r.main_package == (CompiledPackageName { fqn: main, kind }),
        r.output_path == output_path,
        r.pkg_config_path == pkg_config_path,
        r.package_sources@.len() == linked@.len() + (if stdlib is Some { 1int } else { 0int }),
        forall|i: int| 0 <= i < linked@.len() ==> is_source_of(#[trigger] r.package_sources@[i], linked@[i]),
        stdlib matches Some(s) ==> {
            let src = r.package_sources@[linked@.len() as int];
            &&& src.package_name.fqn.name@ == core_package_name()
            &&& src.package_name.kind == TargetKind::Source
            &&& src.source_dir@ == s.path@
        },
        r.stdlib_core_source is None,
        r.target_backend == target_backend,
        r.flags == flags,
        r.test_mode == is_test_kind(kind),
        r.exports == exports,
        r.wasm_config == wasm_config,
        r.js_config == js_config,
        r.extra_link_opts == extra_link_opts,
        r.msvc_llvm_target == msvc_llvm_target,
{
    let mut core_deps: Vec<String> = Vec::new();
    if let Some(s) = stdlib {
        if !abort_overridden {
            core_deps.push(s.abort_core.clone());
        }
        core_deps.push(s.core_core.clone());
    }
    let ghost lead = core_deps.deep_view();
    assert(lead =~= link_core_inputs(Seq::empty(), *stdlib, abort_overridden));
    let mut package_sources: Vec<PackageSource> = Vec::new();
    let mut i: usize = 0;
    while i < linked.len()
        invariant
            i <= linked.len(),
            lead == link_core_inputs(Seq::empty(), *stdlib, abort_overridden),
            core_deps.deep_view() == lead + Seq::new(i as nat, |j: int| linked@[j].core_path@),
            package_sources@.len() == i,
            forall|j: int| 0 <= j < i ==> is_source_of(#[trigger] package_sources@[j], linked@[j]),
        decreases linked.len() - i,
    {
        let p = &linked[i];
        let ghost prev = core_deps.deep_view();
        let cp = p.core_path.clone();
        assert(cp@ == linked@[i as int].core_path@);
        core_deps.push(cp);
        assert(core_deps.deep_view() =~= prev.push(linked@[i as int].core_path@));
        let name = CompiledPackageName::new(PackageFQN { name: p.fqn.name.clone() }, p.kind);
        package_sources.push(PackageSource { package_name: name, source_dir: p.root_path.clone() });
        assert(core_deps.deep_view() =~= lead + Seq::new((i + 1) as nat, |j: int| linked@[j].core_path@));
        i = i + 1;
    }
    assert(core_deps.deep_view() =~= link_core_inputs(linked@, *stdlib, abort_overridden));
    if let Some(s) = stdlib {
        proof {
            reveal_strlit("moonbitlang/core");
        }
        let name = CompiledPackageName::new(PackageFQN { name: owned("moonbitlang/core") }, TargetKind::Source);
        package_sources.push(PackageSource { package_name: name, source_dir: s.path.clone() });
    }
    MooncLinkCore {
        core_deps,
        main_package: CompiledPackageName::new(main, kind),
        output_path,
        pkg_config_path,
        package_sources,
        stdlib_core_source: None,
        target_backend,
        flags,
        test_mode: kind_is_test(kind),
        exports,
        wasm_config,
        js_config,
        extra_link_opts,
        msvc_llvm_target,
    }
}

} // verus!
