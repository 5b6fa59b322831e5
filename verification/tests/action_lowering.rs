use moonbuild_rupes_recta::build_lower::action_lowering::{
    action_external_inputs, action_outputs, cache_eligible, finish_action, observes_stdlib_interfaces,
    observes_toolchain_headers, package_link_flags_empty, ActionKind, CacheFacts, ExecutableLinkMode,
};
use moonbuild_rupes_recta::execution_plan::plan::ExecutionAction;
use moonbuild_rupes_recta::execution_plan::{ExternalInput, LoweredCommand};
use moonbuild_rupes_recta::model::{BuildPlanNode, BuildTarget, PackageId, TargetBackend, TargetKind};

fn facts() -> CacheFacts {
    CacheFacts {
        module_compile_flags_empty: true,
        stub_cc_flags_empty: true,
        stub_static_archive: false,
        stub_link_flags_empty: true,
        module_link_flags_empty: true,
        package_link_flags_empty: true,
        exe_c_flags_empty: true,
        exe_link_flags_empty: true,
        exe_mode: ExecutableLinkMode::CompileAndLinkGeneratedC,
    }
}

fn strs(v: &[&str]) -> Vec<String> {
    v.iter().map(|s| s.to_string()).collect()
}

#[test]
fn cache_eligibility_follows_user_flags() {
    let f = facts();
    assert!(cache_eligible(ActionKind::BuildCore, f));
    assert!(!cache_eligible(ActionKind::BuildCore, CacheFacts { module_compile_flags_empty: false, ..f }));
    assert!(!cache_eligible(ActionKind::Prove, f));
    assert!(!cache_eligible(ActionKind::RunPrebuild, f));
    assert!(!cache_eligible(ActionKind::BuildDocs, f));
    assert!(cache_eligible(ActionKind::GenerateMbti, f));
    let linked = CacheFacts { stub_link_flags_empty: false, ..f };
    assert!(!cache_eligible(ActionKind::ArchiveOrLinkCStubs, linked));
    assert!(cache_eligible(ActionKind::ArchiveOrLinkCStubs, CacheFacts { stub_static_archive: true, ..linked }));
    let flags = CacheFacts { exe_c_flags_empty: false, ..f };
    assert!(!cache_eligible(ActionKind::MakeExecutable, flags));
    assert!(cache_eligible(
        ActionKind::MakeExecutable,
        CacheFacts { exe_mode: ExecutableLinkMode::LinkDirectObject, ..flags }
    ));
    assert!(cache_eligible(
        ActionKind::MakeExecutable,
        CacheFacts { exe_mode: ExecutableLinkMode::WriteTccRunResponseFile, exe_link_flags_empty: false, ..flags }
    ));
    assert!(!cache_eligible(ActionKind::LinkCore, CacheFacts { package_link_flags_empty: false, ..f }));
    assert!(!package_link_flags_empty(TargetBackend::Wasm, &Some(strs(&["-x"])), &None));
    assert!(package_link_flags_empty(TargetBackend::WasmGC, &Some(strs(&["-x"])), &Some(vec![])));
    assert!(package_link_flags_empty(TargetBackend::Js, &Some(strs(&["-x"])), &None));
}

#[test]
fn observations_follow_the_action_kind() {
    assert!(observes_stdlib_interfaces(ActionKind::BuildVirtual));
    assert!(!observes_stdlib_interfaces(ActionKind::LinkCore));
    assert!(observes_toolchain_headers(ActionKind::BuildCStub, false, ExecutableLinkMode::Llvm));
    assert!(!observes_toolchain_headers(ActionKind::BuildRuntimeLib, false, ExecutableLinkMode::Llvm));
    assert!(observes_toolchain_headers(ActionKind::BuildRuntimeLib, true, ExecutableLinkMode::Llvm));
    assert!(!observes_toolchain_headers(ActionKind::MakeExecutable, false, ExecutableLinkMode::LinkDirectObject));

    let inputs = action_external_inputs(
        ActionKind::BuildCore,
        vec![ExternalInput::File("moonc".to_string())],
        &strs(&["moonc", "/lib/libmoonbitrun.o"]),
        &Some("/core/bundle".to_string()),
        &strs(&["/inc/moonbit.h"]),
        false,
        ExecutableLinkMode::Llvm,
        "/lib",
        &strs(&["a.mi"]),
    );
    assert_eq!(
        inputs,
        vec![
            ExternalInput::File("moonc".to_string()),
            ExternalInput::StandardLibraryInterfaces("/core/bundle".to_string()),
            ExternalInput::File("/lib/libmoonbitrun.o".to_string()),
            ExternalInput::File("a.mi".to_string()),
        ]
    );
    let stub = action_external_inputs(
        ActionKind::BuildCStub,
        vec![],
        &strs(&["cc"]),
        &Some("/core/bundle".to_string()),
        &strs(&["/inc/moonbit.h"]),
        false,
        ExecutableLinkMode::Llvm,
        "/lib",
        &vec![],
    );
    assert_eq!(stub, vec![ExternalInput::File("/inc/moonbit.h".to_string())]);
}

#[test]
fn declared_outputs_follow_the_action_kind() {
    let none = String::new();
    assert_eq!(
        action_outputs(ActionKind::GenerateDsym, strs(&["a.exe"]), &"a.exe.dSYM".to_string(), &vec![], &none),
        strs(&["a.exe", "a.exe.dSYM"])
    );
    assert_eq!(
        action_outputs(ActionKind::RunPrebuild, vec![], &none, &strs(&["x.mbt", "y.mbt"]), &none),
        strs(&["x.mbt", "y.mbt"])
    );
    assert_eq!(
        action_outputs(ActionKind::RunMoonLexPrebuild, vec![], &none, &vec![], &"lex.mbt".to_string()),
        strs(&["lex.mbt"])
    );
    assert_eq!(action_outputs(ActionKind::BuildCore, strs(&["a.core"]), &none, &vec![], &none), strs(&["a.core"]));

    let action = ExecutionAction::new(
        vec![],
        strs(&["a.core"]),
        LoweredCommand::from_args(strs(&["moonc"])),
        "f".to_string(),
        "d".to_string(),
    );
    let done = finish_action(action, ActionKind::Check, facts(), Some("u/m/p".to_string()));
    assert!(done.cache_eligible && done.can_dirty_on_output);
    assert_eq!(done.error_package, Some("u/m/p".to_string()));
}

#[test]
fn plan_nodes_map_to_their_action_kinds() {
    let t = BuildTarget { package: PackageId(0), kind: TargetKind::Source };
    assert_eq!(ActionKind::of_node(BuildPlanNode::LinkCore(t)), ActionKind::LinkCore);
    assert_eq!(ActionKind::of_node(BuildPlanNode::RunPrebuild(PackageId(0), 1)), ActionKind::RunPrebuild);
    assert_eq!(ActionKind::of_node(BuildPlanNode::BuildRuntimeLib), ActionKind::BuildRuntimeLib);
}
