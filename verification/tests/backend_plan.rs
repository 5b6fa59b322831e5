use moonbuild_rupes_recta::build_lower::compiler::PackageFQN;
use moonbuild_rupes_recta::build_plan::backend_plan::{
    planned_action, BackendPlan, BuildAction, BuildPlanActionKey, LinkCoreInfo, PlannedAction,
};
use moonbuild_rupes_recta::build_plan::package_prebuild::{PackagePrebuildKey, PackagePrebuildPlan};
use moonbuild_rupes_recta::build_plan::native_exec::plan_native_executable;
use moonbuild_rupes_recta::model::{BuildPlanNode, BuildTarget, ModuleId, OperatingSystem, PackageId, TargetBackend, TargetKind};

fn t(p: u64) -> BuildTarget {
    BuildTarget { package: PackageId(p), kind: TargetKind::Source }
}

fn plan() -> BackendPlan<(), ()> {
    let exe = plan_native_executable(
        PackageFQN { name: "u/m/main".to_string() },
        t(1),
        vec![t(1)],
        vec![],
        None,
        None,
        None,
        TargetBackend::Native,
        false,
        OperatingSystem::Linux,
        false,
    )
    .unwrap();
    BackendPlan {
        build_target_infos: vec![],
        c_stubs_info: vec![(PackageId(3), ())],
        link_core_info: vec![
            (t(0), LinkCoreInfo { linked_order: vec![t(0)], c_stub_deps: vec![], abort_overridden: false }),
            (t(1), LinkCoreInfo { linked_order: vec![t(1)], c_stub_deps: vec![], abort_overridden: true }),
        ],
        make_executable_info: vec![(t(1), exe)],
        dsymutil: None,
        virtual_contract_inputs: vec![(PackageId(4), "v.mbti".to_string())],
        bundle_info: vec![(ModuleId(0), vec![t(0)]), (ModuleId(7), vec![t(1)])],
        runtime_info: Some(()),
    }
}

#[test]
fn backend_nodes_hydrate_with_the_positions_of_their_metadata() {
    let p = plan();
    assert_eq!(
        p.action(BuildPlanNode::LinkCore(t(0))),
        BuildAction::LinkCore { target: t(0), info: 0, make_executable_info: None }
    );
    assert_eq!(
        p.action(BuildPlanNode::LinkCore(t(1))),
        BuildAction::LinkCore { target: t(1), info: 1, make_executable_info: Some(0) }
    );
    assert_eq!(p.action(BuildPlanNode::MakeExecutable(t(1))), BuildAction::MakeExecutable { target: t(1), info: 0 });
    assert_eq!(p.action(BuildPlanNode::Bundle(ModuleId(7))), BuildAction::Bundle { module: ModuleId(7), targets: 1 });
    assert_eq!(
        p.action(BuildPlanNode::BuildVirtual(PackageId(4))),
        BuildAction::BuildVirtual { package: PackageId(4), input: 0 }
    );
    assert_eq!(
        p.action(BuildPlanNode::BuildCStub(PackageId(3), 2)),
        BuildAction::BuildCStub { package: PackageId(3), index: 2, info: 0 }
    );
    assert_eq!(p.action(BuildPlanNode::BuildRuntimeLib), BuildAction::BuildRuntimeLib);
    assert_eq!(p.action(BuildPlanNode::GenerateMbti(t(2))), BuildAction::GenerateMbti { target: t(2) });
}

#[test]
fn action_keys_hydrate_backend_and_prebuild_actions() {
    let p = plan();
    let mut pre = PackagePrebuildPlan::new();
    pre.insert_moonlex(PackageId(0), "a.mbl".to_string(), "a.mbt".to_string());
    pre.insert_moonyacc(PackageId(0), "b.mby".to_string(), "b.mbt".to_string());
    let key = BuildPlanActionKey::PackagePrebuild(PackagePrebuildKey::MoonYacc {
        package: PackageId(0),
        input: "b.mby".to_string(),
    });
    assert_eq!(planned_action(&p, &pre, &key), PlannedAction::Prebuild { index: 1 });
    assert_eq!(
        planned_action(&p, &pre, &BuildPlanActionKey::Backend(BuildPlanNode::BuildDocs(ModuleId(0)))),
        PlannedAction::Backend(BuildAction::BuildDocs { module: ModuleId(0) })
    );
}
