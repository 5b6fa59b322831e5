use moonbuild_rupes_recta::build_plan::artifact::ArtifactKey;
use moonbuild_rupes_recta::execution_plan::plan::{
    ExecutionAction, ExecutionPlan, ExecutionPlanBuilder, ExecutionPlanMergeError,
};
use moonbuild_rupes_recta::execution_plan::{ActionId, LoweredCommand};
use moonbuild_rupes_recta::model::PackageId;

fn execution_action(
    inputs: Vec<String>,
    semantic_outputs: Vec<(ArtifactKey, Vec<String>)>,
    declared_outputs: Vec<String>,
    command: &str,
) -> (ExecutionAction, Vec<(ArtifactKey, Vec<String>)>) {
    let outputs = semantic_outputs
        .iter()
        .flat_map(|(_, paths)| paths.iter().cloned())
        .chain(declared_outputs)
        .collect();
    (
        ExecutionAction::new(
            inputs,
            outputs,
            LoweredCommand::from_args(vec![command.to_string()]),
            command.to_string(),
            command.to_string(),
        ),
        semantic_outputs,
    )
}

fn producer_and_consumer_plan() -> (ExecutionPlan, ActionId, ActionId) {
    let mut builder = ExecutionPlanBuilder::new();
    let (action, outputs) = execution_action(
        Vec::new(),
        vec![(
            ArtifactKey::RuntimeLibrary,
            vec!["build/libmoonbitrun.a".to_string()],
        )],
        Vec::new(),
        "archive-runtime",
    );
    let producer = builder.add_action(action, outputs);
    let (action, outputs) = execution_action(
        vec!["build/libmoonbitrun.a".to_string()],
        Vec::new(),
        vec!["build/app.dSYM".to_string()],
        "generate-debug-symbols",
    );
    let consumer = builder.add_action(action, outputs);
    let plan = builder.finish(vec![ArtifactKey::RuntimeLibrary]);
    (plan, producer, consumer)
}

#[test]
fn artifact_edges_and_physical_only_outputs_have_distinct_identity() {
    let (plan, producer, consumer) = producer_and_consumer_plan();

    let input = plan
        .declared_output(&plan.action(consumer).inputs()[0])
        .expect("action input should resolve to a declared output");
    assert_eq!(input.artifact(), Some(&ArtifactKey::RuntimeLibrary));
    assert_eq!(input.producer(), producer);
    assert_eq!(input.path(), "build/libmoonbitrun.a");

    let debug_output = plan
        .declared_output(&plan.action(consumer).outputs()[0])
        .expect("action output should be declared");
    assert_eq!(debug_output.producer(), consumer);
    assert_eq!(debug_output.path(), "build/app.dSYM");
    assert_eq!(debug_output.artifact(), None);
}

#[test]
fn merge_reuses_an_identical_physical_provider_and_remaps_consumers() {
    let (first, producer, consumer) = producer_and_consumer_plan();
    let (second, _, _) = producer_and_consumer_plan();
    let mut composed = ExecutionPlan::empty();

    assert_eq!(
        composed.merge(&first).expect("first plan should merge"),
        [producer, consumer]
    );
    assert_eq!(
        composed.merge(&second).expect("second plan should merge"),
        [producer, consumer]
    );
    assert_eq!(composed.action_ids().len(), 2);
    assert_eq!(
        composed
            .declared_output("build/libmoonbitrun.a")
            .expect("the shared output should be declared")
            .producer(),
        producer
    );
}

#[test]
fn merge_rejects_different_actions_for_the_same_physical_output() {
    let (mut first, _, _) = producer_and_consumer_plan();
    let (mut second, _, _) = producer_and_consumer_plan();
    second.actions[0].description = "different archive command".to_string();

    let err = first
        .merge(&second)
        .expect_err("incompatible producers should be rejected");
    match err {
        ExecutionPlanMergeError::ConflictingOutput { path } => {
            assert_eq!(path, "build/libmoonbitrun.a");
        }
    }
}

#[test]
fn merge_remaps_plan_local_action_ids() {
    let (first, _, _) = producer_and_consumer_plan();
    let mut builder = ExecutionPlanBuilder::new();
    let (action, outputs) = execution_action(
        Vec::new(),
        Vec::new(),
        vec!["build/other-output".to_string()],
        "other-command",
    );
    builder.add_action(action, outputs);
    let second = builder.finish(vec![]);
    let mut composed = ExecutionPlan::empty();

    composed.merge(&first).expect("first plan should merge");
    let remapped = composed.merge(&second).expect("second plan should merge");

    assert_eq!(remapped, [ActionId(2)]);
}

#[test]
fn finish_requests_each_artifact_once_with_its_paths() {
    let mut builder = ExecutionPlanBuilder::new();
    let mi = ArtifactKey::BuildMi {
        package: PackageId(7),
        target_kind: moonbuild_rupes_recta::model::TargetKind::Source,
    };
    let (action, outputs) = execution_action(
        Vec::new(),
        vec![
            (mi.clone(), vec!["pkg.mi".to_string()]),
            (ArtifactKey::RuntimeLibrary, vec!["rt.a".to_string(), "rt.h".to_string()]),
        ],
        Vec::new(),
        "build",
    );
    builder.add_action(action, outputs);
    let plan = builder.finish(vec![
        ArtifactKey::RuntimeLibrary,
        mi.clone(),
        ArtifactKey::RuntimeLibrary,
    ]);

    assert_eq!(
        plan.requested_artifact_paths(),
        &vec![
            (
                ArtifactKey::RuntimeLibrary,
                vec!["rt.a".to_string(), "rt.h".to_string()]
            ),
            (mi, vec!["pkg.mi".to_string()]),
        ]
    );
}

#[test]
fn merge_appends_requested_artifacts_and_keeps_existing_actions() {
    let (first, producer, _) = producer_and_consumer_plan();
    let mut composed = ExecutionPlan::empty();
    composed.merge(&first).unwrap();
    composed.merge(&first).unwrap();
    assert_eq!(composed.requested_artifact_paths().len(), 2);
    assert_eq!(composed.action(producer).description(), "archive-runtime");
    assert_eq!(composed.action_ids(), vec![ActionId(0), ActionId(1)]);
}

#[test]
fn merge_conflict_keeps_the_actions_composed_before_it() {
    let (first, _, _) = producer_and_consumer_plan();
    let mut builder = ExecutionPlanBuilder::new();
    let (action, outputs) = execution_action(
        Vec::new(),
        Vec::new(),
        vec!["build/fresh".to_string()],
        "fresh",
    );
    builder.add_action(action, outputs);
    let (action, outputs) = execution_action(
        Vec::new(),
        Vec::new(),
        vec!["build/app.dSYM".to_string()],
        "other-symbols",
    );
    builder.add_action(action, outputs);
    let second = builder.finish(vec![]);

    let mut composed = ExecutionPlan::empty();
    composed.merge(&first).unwrap();
    let err = composed.merge(&second).unwrap_err();
    match err {
        ExecutionPlanMergeError::ConflictingOutput { path } => assert_eq!(path, "build/app.dSYM"),
    }
    assert_eq!(composed.action_ids().len(), 3);
    assert!(composed.declared_output("build/fresh").is_some());
}

#[test]
fn selected_consumer_keeps_an_omitted_producer_artifact_as_an_input() {
    let (plan, _, consumer) = producer_and_consumer_plan();
    let (builds, _) = plan.to_n2_graph(&vec![consumer]);

    assert_eq!(builds.len(), 1);
    let build = builds.first().expect("consumer build should be present");
    assert_eq!(build.ins, vec!["build/libmoonbitrun.a".to_string()]);
    assert!(
        builds
            .iter()
            .all(|b| !b.outs.contains(&"build/libmoonbitrun.a".to_string())),
        "the omitted producer is expected to run in an earlier execution phase"
    );
}

#[test]
fn n2_projection_retains_build_to_action_provenance() {
    let (plan, producer, consumer) = producer_and_consumer_plan();
    let adapted = plan.adapt_to_n2(&vec![producer, consumer]);

    for (index, expected) in [producer, consumer].into_iter().enumerate() {
        assert_eq!(adapted.action_for_build(index), Some(expected));
    }
    assert_eq!(adapted.action_for_build(2), None);
}

#[test]
fn n2_edges_sort_inputs_and_record_argv_per_output() {
    let mut builder = ExecutionPlanBuilder::new();
    let action = ExecutionAction::new(
        vec!["src/z.mbt".to_string(), "src/a.mbt".to_string()],
        vec!["out/one".to_string(), "out/two".to_string()],
        LoweredCommand::from_args(vec!["tool".to_string(), "run".to_string()]),
        "loc".to_string(),
        "describe".to_string(),
    )
    .with_external_inputs(vec![
        moonbuild_rupes_recta::execution_plan::ExternalInput::File("src/m.mbt".to_string()),
        moonbuild_rupes_recta::execution_plan::ExternalInput::StandardLibraryInterfaces(
            "core".to_string(),
        ),
    ]);
    builder.add_action(action, Vec::new());
    let plan = builder.finish(Vec::new());

    let (builds, args) = plan.all_to_n2_graph();
    assert_eq!(builds.len(), 1);
    assert_eq!(
        builds[0].ins,
        vec![
            "src/a.mbt".to_string(),
            "src/m.mbt".to_string(),
            "src/z.mbt".to_string()
        ]
    );
    assert_eq!(builds[0].outs, vec!["out/one".to_string(), "out/two".to_string()]);
    assert_eq!(builds[0].cmdline, "tool run");
    assert!(builds[0].rspfile.is_none());
    assert_eq!(builds[0].desc, "describe");
    assert_eq!(builds[0].fileloc, "loc");
    let argv = vec!["tool".to_string(), "run".to_string()];
    assert_eq!(args.get("out/one"), Some(&argv));
    assert_eq!(args.get("out//two"), Some(&argv));
    assert_eq!(args.get("out/three"), None);
}

#[test]
fn merging_the_same_plan_twice_returns_the_same_ids() {
    let (first, _, _) = producer_and_consumer_plan();
    let (base, _, _) = producer_and_consumer_plan();
    let mut composed = base;
    let ids = composed.merge(&first).expect("first merge");
    let again = composed.merge(&first).expect("second merge");
    assert_eq!(ids, again);
    assert_eq!(composed.action_ids().len(), 2);
}
