use moonbuild_rupes_recta::build_lower::action_artifacts::{ActionArtifacts, RealizedArtifact};
use moonbuild_rupes_recta::build_lower::link_inputs::native_executable_dependency_paths;
use moonbuild_rupes_recta::build_plan::artifact::ArtifactKey;
use moonbuild_rupes_recta::model::{PackageId, TargetKind};

fn realized(artifact: ArtifactKey, paths: &[&str]) -> RealizedArtifact {
    RealizedArtifact { artifact, paths: paths.iter().map(|p| p.to_string()).collect() }
}

fn artifacts() -> ActionArtifacts {
    ActionArtifacts {
        outputs: Vec::new(),
        dependencies: vec![
            realized(ArtifactKey::LinkedCore { package: PackageId(0), target_kind: TargetKind::Source }, &["main.c"]),
            realized(ArtifactKey::CStubLibrary { package: PackageId(2) }, &["libstub2.a"]),
            realized(ArtifactKey::RuntimeLibrary, &["libruntime.a"]),
            realized(ArtifactKey::CStubLibrary { package: PackageId(1) }, &["libstub1.a"]),
        ],
    }
}

#[test]
fn native_link_lists_core_then_stubs_then_runtime() {
    let paths = native_executable_dependency_paths(&artifacts(), &vec![PackageId(1), PackageId(2)], true);
    assert_eq!(paths, vec!["main.c", "libstub1.a", "libstub2.a", "libruntime.a"]);
}

#[test]
fn shared_runtime_link_lists_runtime_first_without_core() {
    let paths = native_executable_dependency_paths(&artifacts(), &vec![PackageId(2)], false);
    assert_eq!(paths, vec!["libruntime.a", "libstub2.a"]);
}
