//! The per-target options of lowering: code generation flags, coverage,
//! WASI linking and the JavaScript output format.

use vstd::prelude::*;

use super::compiler::legacy::JsFormat;
use super::compiler::CompilationFlags;
use crate::model::{OptLevel, RunMode, TargetBackend, TargetKind};

verus! {

/// Whether a target is a test: a whitebox, blackbox or inline test.
pub open spec fn is_test_kind(k: TargetKind) -> bool {
    k == TargetKind::WhiteboxTest || k == TargetKind::BlackboxTest || k == TargetKind::InlineTest
}

/// Whether a target of kind `k` is a test.
pub fn kind_is_test(k: TargetKind) -> (r: bool)
    ensures
        r == is_test_kind(k),
{
    match k {
        TargetKind::WhiteboxTest | TargetKind::BlackboxTest | TargetKind::InlineTest => true,
        TargetKind::Source | TargetKind::SubPackage => false,
    }
}

/// The code generation flags of a build: no optimization in debug builds,
/// debug symbols when asked for, and a source map with them on backends that
/// support one (`supports_source_map`). Coverage and value tracing are set
/// per target later.
pub fn set_flags(opt_level: OptLevel, debug_symbols: bool, supports_source_map: bool) -> (r: CompilationFlags)
    ensures
        r.no_opt == (opt_level == OptLevel::Debug),
        r.symbols == debug_symbols,
        r.source_map == (supports_source_map && debug_symbols),
        !r.enable_coverage && !r.self_coverage && !r.enable_value_tracing,
{
    CompilationFlags {
        no_opt: match opt_level {
            OptLevel::Debug => true,
            OptLevel::Release => false,
        },
        symbols: debug_symbols,
        source_map: supports_source_map && debug_symbols,
        enable_coverage: false,
        self_coverage: false,
        enable_value_tracing: false,
    }
}

/// Whether coverage instrumentation applies to a target, and whether the
/// package provides the coverage primitives itself: coverage is on when the
/// build asks for it, the target is not a blackbox test being built (such
/// tests only need to know of coverage), the package is not exempt
/// (`skip_coverage`) and its module is one of the build's own (not
/// `third_party`); the package provides its own primitives when it is the
/// coverage library (`self_coverage_lib`).
pub fn get_coverage_flags(
    enable_coverage: bool,
    kind: TargetKind,
    is_build: bool,
    skip_coverage: bool,
    third_party: bool,
    self_coverage_lib: bool,
) -> (r: (bool, bool))
    ensures
        r.0 == (enable_coverage && (!is_build || kind != TargetKind::BlackboxTest) && !skip_coverage && !third_party),
        r.1 == (r.0 && self_coverage_lib),
{
    let blackbox = match kind {
        TargetKind::BlackboxTest => true,
        _ => false,
    };
    let enabled = enable_coverage && (!is_build || !blackbox) && !skip_coverage && !third_party;
    (enabled, enabled && self_coverage_lib)
}

/// Whether a WebAssembly link includes WASI (`wasi_link` for backends that
/// link it): always when running, testing or benchmarking; when building,
/// for the source or sub-package target of a main package; never otherwise.
pub fn should_link_wasi(wasi_link: bool, action: RunMode, kind: TargetKind, is_main: bool) -> (r: bool)
    ensures
        r == (wasi_link && match action {
            RunMode::Run | RunMode::Test | RunMode::Bench => true,
            RunMode::Build => (kind == TargetKind::Source || kind == TargetKind::SubPackage) && is_main,
            RunMode::Check | RunMode::Prove | RunMode::Bundle | RunMode::Format => false,
        }),
{
    if !wasi_link {
        return false;
    }
    match action {
        RunMode::Run | RunMode::Test | RunMode::Bench => true,
        RunMode::Build => {
            let source_like = match kind {
                TargetKind::Source | TargetKind::SubPackage => true,
                _ => false,
            };
            source_like && is_main
        },
        RunMode::Check | RunMode::Prove | RunMode::Bundle | RunMode::Format => false,
    }
}

/// JavaScript-specific linking configuration.
#[derive(Clone, Copy, Debug, PartialEq, Eq, Structural)]
pub struct JsConfig {
    /// The output format, when one is given.
    pub format: Option<JsFormat>,
    /// Whether to skip TypeScript declaration files.
    pub no_dts: bool,
}

/// The JavaScript linking configuration of a target, on the JavaScript
/// backend only: tests are linked as CommonJS without declarations; other
/// targets take the format of the package's JavaScript link options
/// (`link_js` is `Some(format)` when the package has such options, the
/// format defaulting to ES modules), and none when it has none.
pub fn get_js_config(backend: TargetBackend, kind: TargetKind, link_js: Option<Option<JsFormat>>) -> (r: Option<
    JsConfig,
>)
    ensures
        backend != TargetBackend::Js ==> r is None,
        backend == TargetBackend::Js && is_test_kind(kind) ==> r == Some(
            JsConfig { format: Some(JsFormat::CJS), no_dts: true },
        ),
        backend == TargetBackend::Js && !is_test_kind(kind) ==> r == Some(
            JsConfig {
                format: match link_js {
                    Some(Some(f)) => Some(f),
                    Some(None) => Some(JsFormat::ESM),
                    None => None,
                },
                no_dts: false,
            },
        ),
{
    match backend {
        TargetBackend::Js => {},
        _ => {
            return None;
        },
    }
    if kind_is_test(kind) {
        return Some(JsConfig { format: Some(JsFormat::CJS), no_dts: true });
    }
    let format = match link_js {
        Some(Some(f)) => Some(f),
        Some(None) => Some(JsFormat::ESM),
        None => None,
    };
    Some(JsConfig { format, no_dts: false })
}

} // verus!
