use std::collections::HashSet;

use moonbuild_rupes_recta::build_plan::artifact::ArtifactKey;
use moonbuild_rupes_recta::build_plan::artifact_plan::ArtifactPlan;
use moonbuild_rupes_recta::model::{BuildPlanNode, PackageId, TargetKind};

#[test]
fn multiple_artifacts_can_share_one_provider() {
    let package = PackageId(1);
    let target = package.build_target(TargetKind::Source);
    let provider = BuildPlanNode::BuildCore(target);
    let build_mi = ArtifactKey::BuildMi {
        package,
        target_kind: TargetKind::Source,
    };
    let core_ir = ArtifactKey::CoreIr {
        package,
        target_kind: TargetKind::Source,
    };

    let mut plan = ArtifactPlan::new();
    plan.provide(provider, build_mi.clone());
    plan.provide(provider, core_ir.clone());

    assert_eq!(plan.provider(&build_mi), Some(provider));
    assert_eq!(plan.provider(&core_ir), Some(provider));
    assert_eq!(plan.providers.len(), 2);
}

#[test]
fn requirements_name_artifacts_without_providers() {
    let dependency = PackageId(1);
    let consumer = BuildPlanNode::BuildVirtual(PackageId(2));
    let check_mi = ArtifactKey::CheckMi {
        package: dependency,
        target_kind: TargetKind::Source,
    };
    let build_mi = ArtifactKey::BuildMi {
        package: dependency,
        target_kind: TargetKind::Source,
    };

    let mut plan = ArtifactPlan::new();
    plan.require(consumer, build_mi.clone());

    assert_eq!(
        plan.requirements().into_iter().collect::<HashSet<_>>(),
        HashSet::from([(consumer, build_mi.clone())])
    );
    assert_eq!(plan.provider(&build_mi), None);
    assert_ne!(check_mi, build_mi);
}

#[test]
fn dependencies_pair_requirements_with_providers_in_order() {
    let p = PackageId(1);
    let target = p.build_target(TargetKind::Source);
    let core = BuildPlanNode::BuildCore(target);
    let check = BuildPlanNode::Check(target);
    let link = BuildPlanNode::LinkCore(target);
    let core_ir = ArtifactKey::CoreIr { package: p, target_kind: TargetKind::Source };
    let check_mi = ArtifactKey::CheckMi { package: p, target_kind: TargetKind::Source };

    let mut plan = ArtifactPlan::new();
    plan.require(link, core_ir.clone());
    plan.require(link, check_mi.clone());
    plan.require(link, core_ir.clone());
    assert!(!plan.is_fully_provided());
    plan.provide(core, core_ir.clone());
    plan.provide(check, check_mi.clone());
    plan.provide(core, core_ir.clone());
    assert!(plan.is_fully_provided());
    plan.validate();

    assert_eq!(
        plan.dependencies(link),
        vec![(core, core_ir.clone()), (check, check_mi.clone())]
    );
    assert_eq!(plan.provided_by(core), vec![core_ir]);
    assert_eq!(plan.provided_by(link), vec![]);
    assert_eq!(plan.requirements().len(), 2);
}
