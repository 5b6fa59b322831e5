use moonbuild_rupes_recta::build_lower::compiler::legacy::JsFormat;
use moonbuild_rupes_recta::build_lower::target_options::{
    get_coverage_flags, get_js_config, kind_is_test, set_flags, should_link_wasi, JsConfig,
};
use moonbuild_rupes_recta::model::{OptLevel, RunMode, TargetBackend, TargetKind};

#[test]
fn flags_follow_optimization_and_debug_symbols() {
    let debug = set_flags(OptLevel::Debug, true, true);
    assert!(debug.no_opt && debug.symbols && debug.source_map);
    let release = set_flags(OptLevel::Release, true, false);
    assert!(!release.no_opt && release.symbols && !release.source_map);
    assert!(!release.enable_coverage && !release.self_coverage && !release.enable_value_tracing);
}

#[test]
fn coverage_skips_blackbox_builds_exempt_and_third_party_packages() {
    assert_eq!(get_coverage_flags(true, TargetKind::Source, true, false, false, false), (true, false));
    assert_eq!(get_coverage_flags(true, TargetKind::BlackboxTest, true, false, false, false), (false, false));
    assert_eq!(get_coverage_flags(true, TargetKind::BlackboxTest, false, false, false, false), (true, false));
    assert_eq!(get_coverage_flags(true, TargetKind::Source, true, true, false, false), (false, false));
    assert_eq!(get_coverage_flags(true, TargetKind::Source, true, false, true, true), (false, false));
    assert_eq!(get_coverage_flags(true, TargetKind::Source, true, false, false, true), (true, true));
    assert_eq!(get_coverage_flags(false, TargetKind::Source, true, false, false, true), (false, false));
}

#[test]
fn wasi_is_linked_for_runs_and_main_package_builds() {
    assert!(should_link_wasi(true, RunMode::Test, TargetKind::BlackboxTest, false));
    assert!(should_link_wasi(true, RunMode::Build, TargetKind::Source, true));
    assert!(!should_link_wasi(true, RunMode::Build, TargetKind::Source, false));
    assert!(!should_link_wasi(true, RunMode::Build, TargetKind::WhiteboxTest, true));
    assert!(!should_link_wasi(true, RunMode::Check, TargetKind::Source, true));
    assert!(!should_link_wasi(false, RunMode::Run, TargetKind::Source, true));
}

#[test]
fn js_config_depends_on_target_kind_and_link_options() {
    assert_eq!(get_js_config(TargetBackend::WasmGC, TargetKind::Source, Some(None)), None);
    assert_eq!(
        get_js_config(TargetBackend::Js, TargetKind::InlineTest, None),
        Some(JsConfig { format: Some(JsFormat::CJS), no_dts: true })
    );
    assert_eq!(
        get_js_config(TargetBackend::Js, TargetKind::Source, Some(None)),
        Some(JsConfig { format: Some(JsFormat::ESM), no_dts: false })
    );
    assert_eq!(
        get_js_config(TargetBackend::Js, TargetKind::Source, Some(Some(JsFormat::IIFE))),
        Some(JsConfig { format: Some(JsFormat::IIFE), no_dts: false })
    );
    assert_eq!(get_js_config(TargetBackend::Js, TargetKind::Source, None), Some(JsConfig { format: None, no_dts: false }));
    assert!(kind_is_test(TargetKind::WhiteboxTest) && !kind_is_test(TargetKind::SubPackage));
}
