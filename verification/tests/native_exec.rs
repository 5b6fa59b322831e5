use moonbuild_rupes_recta::build_lower::compiler::PackageFQN;
use moonbuild_rupes_recta::build_plan::artifact::ArtifactKey;
use moonbuild_rupes_recta::build_plan::native_exec::{plan_c_stub_flags, plan_native_executable, split_flags};
use moonbuild_rupes_recta::build_plan::prebuild::BuildPlanConstructError;
use moonbuild_rupes_recta::model::{BuildTarget, OperatingSystem, PackageId, TargetBackend, TargetKind};

fn fqn() -> PackageFQN {
    PackageFQN { name: "u/m/main".to_string() }
}

fn target(p: u64) -> BuildTarget {
    BuildTarget { package: PackageId(p), kind: TargetKind::Source }
}

#[test]
fn split_flags_splits_like_a_shell() {
    assert_eq!(split_flags(&None), Some(vec![]));
    assert_eq!(
        split_flags(&Some("-O2  -I'a b' \"-DX=1\"".to_string())),
        Some(vec!["-O2".to_string(), "-Ia b".to_string(), "-DX=1".to_string()])
    );
    assert_eq!(split_flags(&Some("-I'unterminated".to_string())), None);
}

#[test]
fn native_executable_plan_lists_needs_flags_and_link_packages() {
    let plan = plan_native_executable(
        fqn(),
        target(2),
        vec![target(0), target(1)],
        vec![PackageId(1)],
        Some("clang".to_string()),
        Some("-O2 -g".to_string()),
        Some("-lm".to_string()),
        TargetBackend::LLVM,
        true,
        OperatingSystem::MacOS,
        false,
    )
    .unwrap();
    assert_eq!(
        plan.required,
        vec![
            ArtifactKey::LinkedCore { package: PackageId(2), target_kind: TargetKind::Source },
            ArtifactKey::CStubLibrary { package: PackageId(1) },
            ArtifactKey::RuntimeLibrary,
        ]
    );
    assert_eq!(plan.c_flags, vec!["-O2".to_string(), "-g".to_string()]);
    assert_eq!(plan.link_flags, vec!["-lm".to_string()]);
    assert_eq!(plan.link_packages, vec![PackageId(0), PackageId(1), PackageId(2)]);
    assert_eq!(plan.cc, Some("clang".to_string()));
    assert_eq!(
        plan.dsym_requires,
        Some(ArtifactKey::Executable { package: PackageId(2), target_kind: TargetKind::Source })
    );

    let linux = plan_native_executable(
        fqn(),
        target(0),
        vec![target(0)],
        vec![],
        None,
        None,
        None,
        TargetBackend::Native,
        true,
        OperatingSystem::Linux,
        false,
    )
    .unwrap();
    assert_eq!(linux.link_packages, vec![PackageId(0)]);
    assert!(linux.c_flags.is_empty() && linux.link_flags.is_empty());
    assert_eq!(linux.dsym_requires, None);
}

#[test]
fn malformed_native_flags_are_refused_compiler_flags_first() {
    let err = plan_native_executable(
        fqn(),
        target(0),
        vec![],
        vec![],
        None,
        Some("\"open".to_string()),
        Some("'open".to_string()),
        TargetBackend::Native,
        false,
        OperatingSystem::Linux,
        false,
    )
    .unwrap_err();
    assert!(matches!(err, BuildPlanConstructError::MalformedCCFlags { package } if package.name == "u/m/main"));
    let err = plan_native_executable(
        fqn(),
        target(0),
        vec![],
        vec![],
        None,
        Some("-O2".to_string()),
        Some("'open".to_string()),
        TargetBackend::Native,
        false,
        OperatingSystem::Linux,
        false,
    )
    .unwrap_err();
    assert!(matches!(err, BuildPlanConstructError::MalformedCCLinkFlags { .. }));

    let stub = plan_c_stub_flags(fqn(), Some("tcc".to_string()), Some("-a b".to_string()), None).unwrap();
    assert_eq!(stub.cc_flags, vec!["-a".to_string(), "b".to_string()]);
    assert!(stub.link_flags.is_empty());
    assert!(matches!(
        plan_c_stub_flags(fqn(), None, Some("'x".to_string()), None),
        Err(BuildPlanConstructError::MalformedStubCCFlags { .. })
    ));
    assert!(matches!(
        plan_c_stub_flags(fqn(), None, None, Some("'x".to_string())),
        Err(BuildPlanConstructError::MalformedStubCCLinkFlags { .. })
    ));
}
