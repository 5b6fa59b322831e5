use moonbuild_rupes_recta::build_action_plan::view::BuildActionPlan;
use moonbuild_rupes_recta::build_action_plan::BuildActionId;
use moonbuild_rupes_recta::build_plan::artifact::ArtifactKey;
use moonbuild_rupes_recta::model::{BuildPlanNode, BuildTarget, PackageId, TargetKind};

fn source(package: u64) -> BuildTarget {
    BuildTarget { package: PackageId(package), kind: TargetKind::Source }
}

fn plan() -> BuildActionPlan {
    let ids = |v: &[usize]| v.iter().map(|&i| BuildActionId(i)).collect::<Vec<_>>();
    BuildActionPlan {
        action_nodes: vec![
            BuildPlanNode::BuildCore(source(1)),
            BuildPlanNode::BuildRuntimeLib,
            BuildPlanNode::BuildCore(source(0)),
            BuildPlanNode::LinkCore(source(0)),
            BuildPlanNode::BuildCStub(PackageId(2), 0),
            BuildPlanNode::Check(source(0)),
        ],
        dependencies: vec![ids(&[1]), ids(&[]), ids(&[0]), ids(&[2, 1]), ids(&[]), ids(&[0])],
        requested_artifacts: vec![
            (
                ArtifactKey::LinkedCore { package: PackageId(0), target_kind: TargetKind::Source },
                BuildActionId(3),
            ),
            (ArtifactKey::RuntimeLibrary, BuildActionId(3)),
            (
                ArtifactKey::CheckMi { package: PackageId(0), target_kind: TargetKind::Source },
                BuildActionId(5),
            ),
        ],
    }
}

#[test]
fn standalone_partition_separates_dependency_closure_from_script_work() {
    let plan = plan();
    let (dependencies, script) = plan.partition_standalone_actions(PackageId(0));
    assert_eq!(dependencies, vec![BuildActionId(0), BuildActionId(1), BuildActionId(4)]);
    assert_eq!(script, vec![BuildActionId(2), BuildActionId(3), BuildActionId(5)]);
}

#[test]
fn action_view_queries() {
    let plan = plan();
    assert_eq!(plan.action_ids().len(), 6);
    assert_eq!(plan.root_action_ids(), vec![BuildActionId(3), BuildActionId(5)]);
    assert_eq!(plan.id_for_node(BuildPlanNode::LinkCore(source(0))), BuildActionId(3));
    assert_eq!(plan.build_plan_node(BuildActionId(1)), BuildPlanNode::BuildRuntimeLib);
    assert_eq!(plan.dependency_action_ids(BuildActionId(3)), &vec![BuildActionId(2), BuildActionId(1)]);
    assert!(plan.can_dirty_on_output(BuildActionId(5)));
    assert!(!plan.can_dirty_on_output(BuildActionId(2)));
    assert_eq!(plan.package_for_error(BuildActionId(3)), Some(source(0)));
    assert_eq!(plan.package_for_error(BuildActionId(4)), None);
}

fn node_set(plan: &BuildActionPlan, ids: Vec<BuildActionId>) -> std::collections::HashSet<BuildPlanNode> {
    ids.into_iter().map(|id| plan.build_plan_node(id)).collect()
}

#[test]
fn standalone_projection_uses_dependency_closure_for_shared_actions() {
    let script_package = PackageId(1);
    let dependency_package = PackageId(2);
    let script_node = BuildPlanNode::MakeExecutable(source(1));
    let dependency_node = BuildPlanNode::ArchiveOrLinkCStubs(dependency_package);
    let runtime_node = BuildPlanNode::BuildRuntimeLib;
    let action_plan = BuildActionPlan {
        action_nodes: vec![script_node, dependency_node, runtime_node],
        dependencies: vec![
            vec![BuildActionId(1), BuildActionId(2)],
            vec![BuildActionId(2)],
            vec![],
        ],
        requested_artifacts: vec![],
    };

    let (dependency_actions, script_actions) =
        action_plan.partition_standalone_actions(script_package);
    let dependency_nodes = node_set(&action_plan, dependency_actions);
    let script_nodes = node_set(&action_plan, script_actions);

    assert_eq!(
        dependency_nodes,
        std::collections::HashSet::from([dependency_node, runtime_node])
    );
    assert_eq!(script_nodes, std::collections::HashSet::from([script_node]));
}

#[test]
fn standalone_projection_keeps_script_only_shared_actions_with_script() {
    let script_package = PackageId(1);
    let script_node = BuildPlanNode::MakeExecutable(source(1));
    let runtime_node = BuildPlanNode::BuildRuntimeLib;
    let action_plan = BuildActionPlan {
        action_nodes: vec![script_node, runtime_node],
        dependencies: vec![vec![BuildActionId(1)], vec![]],
        requested_artifacts: vec![],
    };

    let (dependency_actions, script_actions) =
        action_plan.partition_standalone_actions(script_package);
    let script_nodes = node_set(&action_plan, script_actions);

    assert!(dependency_actions.is_empty());
    assert_eq!(
        script_nodes,
        std::collections::HashSet::from([script_node, runtime_node])
    );
}
