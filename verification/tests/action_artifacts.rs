use moonbuild_rupes_recta::build_lower::action_artifacts::{ActionArtifacts, RealizedArtifact};
use moonbuild_rupes_recta::build_plan::artifact::ArtifactKey;
use moonbuild_rupes_recta::model::{PackageId, TargetKind};

fn realized(artifact: ArtifactKey, paths: &[&str]) -> RealizedArtifact {
    RealizedArtifact { artifact, paths: paths.iter().map(|p| p.to_string()).collect() }
}

fn artifacts() -> ActionArtifacts {
    ActionArtifacts {
        outputs: vec![
            realized(ArtifactKey::CoreIr { package: PackageId(0), target_kind: TargetKind::Source }, &["main.core"]),
            realized(ArtifactKey::BuildMi { package: PackageId(0), target_kind: TargetKind::Source }, &[]),
        ],
        dependencies: vec![
            realized(ArtifactKey::CStubObject { package: PackageId(1), source: "a.c".into() }, &["a.o"]),
            realized(ArtifactKey::RuntimeLibrary, &["libmoonbitrun.a"]),
            realized(ArtifactKey::CStubObject { package: PackageId(2), source: "b.c".into() }, &["b.o", "b2.o"]),
        ],
    }
}

#[test]
fn outputs_are_selected_by_artifact() {
    let a = artifacts();
    assert_eq!(
        a.single_output_path_matching(|k: &ArtifactKey| matches!(k, ArtifactKey::CoreIr { .. })),
        "main.core"
    );
    assert_eq!(
        a.optional_single_output_path_matching(|k: &ArtifactKey| matches!(k, ArtifactKey::BuildMi { .. })),
        None
    );
    assert_eq!(
        a.optional_single_output_path_matching(|k: &ArtifactKey| matches!(k, ArtifactKey::DocsDir { .. })),
        None
    );
    let single = ActionArtifacts { outputs: vec![a.outputs[0].clone()], dependencies: Vec::new() };
    assert_eq!(single.single_output_path(), "main.core");
}

#[test]
fn dependencies_are_selected_by_artifact() {
    let a = artifacts();
    assert_eq!(
        a.single_dependency_path_matching(|k: &ArtifactKey| matches!(k, ArtifactKey::RuntimeLibrary)),
        "libmoonbitrun.a"
    );
    assert_eq!(
        a.dependency_paths_matching(|k: &ArtifactKey| matches!(k, ArtifactKey::CStubObject { .. })),
        vec!["a.o".to_string(), "b.o".to_string(), "b2.o".to_string()]
    );
    assert!(a
        .dependency_paths_matching(|k: &ArtifactKey| matches!(k, ArtifactKey::BundleResult { .. }))
        .is_empty());
}
