use moonbuild_rupes_recta::build_action_plan::BuildActionId;
use moonbuild_rupes_recta::build_lower::lowered_action::{
    LoweredAction, LoweredArtifact, LoweredExternalInput,
};
use moonbuild_rupes_recta::build_lower::n2_adapter::lowered_actions_to_n2_graph;
use moonbuild_rupes_recta::build_plan::artifact::ArtifactKey;
use moonbuild_rupes_recta::execution_plan::n2_adapter::CommandArgMap;
use moonbuild_rupes_recta::execution_plan::{LoweredCommand, LoweredResponseFile};
use moonbuild_rupes_recta::model::PackageId;

fn lowered(id: usize, deps: Vec<LoweredArtifact>, output: &str, args: Vec<String>) -> LoweredAction {
    LoweredAction {
        id: BuildActionId(id),
        dependencies: deps,
        external_inputs: vec![LoweredExternalInput::File("src/main.mbt".to_string())],
        outputs: vec![LoweredArtifact {
            producer: BuildActionId(id),
            artifact: ArtifactKey::PrebuildOutput {
                package: PackageId(0),
                path: output.to_string(),
            },
            paths: vec![output.to_string()],
        }],
        command: LoweredCommand::from_args(args),
        cache_eligible: true,
        fileloc: "build main".to_string(),
        description: "build main".to_string(),
        can_dirty_on_output: true,
        error_package: None,
    }
}

#[test]
fn preserves_lowered_action_data_in_n2() {
    let command_args = vec!["moonc".to_string(), "build-package".to_string()];
    let mut action = lowered(0, Vec::new(), "build/main.core", command_args.clone());
    action.command = action.command.with_response_file(
        "moonc -rsp-file build/main.core.rsp".to_string(),
        LoweredResponseFile {
            path: "build/main.core.rsp".to_string(),
            content: "build-package\n".to_string(),
        },
    );

    let (graph, command_args_by_output) = lowered_actions_to_n2_graph(&vec![action]);

    let build = &graph[0];
    assert_eq!(build.cmdline.as_str(), "moonc -rsp-file build/main.core.rsp");
    let rspfile = build.rspfile.as_ref().expect("response file should remain");
    assert_eq!(rspfile.path, "build/main.core.rsp");
    assert_eq!(rspfile.content, "build-package\n");
    assert!(build.can_dirty_on_output);
    assert_eq!(
        command_args_by_output.get("build/main.core"),
        Some(&command_args)
    );
}

#[test]
fn lowered_edges_take_dependency_paths_as_inputs_and_later_argv_wins() {
    let first = lowered(0, Vec::new(), "build/a.core", vec!["first".to_string()]);
    let dep = LoweredArtifact {
        producer: BuildActionId(0),
        artifact: ArtifactKey::RuntimeLibrary,
        paths: vec!["build/z.a".to_string(), "build/b.a".to_string()],
    };
    let second = lowered(1, vec![dep], "build/a.core", vec!["second".to_string()]);

    let (graph, args) = lowered_actions_to_n2_graph(&vec![first, second]);
    assert_eq!(graph.len(), 2);
    assert_eq!(
        graph[1].ins,
        vec![
            "build/b.a".to_string(),
            "build/z.a".to_string(),
            "src/main.mbt".to_string()
        ]
    );
    assert_eq!(graph[1].outs, vec!["build/a.core".to_string()]);
    assert_eq!(args.get("build/a.core"), Some(&vec!["second".to_string()]));
    assert_eq!(args.entries.len(), 1);
}

#[test]
fn command_arg_map_replaces_equal_paths() {
    let mut map = CommandArgMap::new();
    map.insert("a/b".to_string(), vec!["x".to_string()]);
    map.insert("a/./b".to_string(), vec!["y".to_string()]);
    map.insert("a/c".to_string(), vec!["z".to_string()]);
    assert_eq!(map.entries.len(), 2);
    assert_eq!(map.get("a/b"), Some(&vec!["y".to_string()]));
    assert_eq!(map.get("a/c"), Some(&vec!["z".to_string()]));
    assert_eq!(map.get("a"), None);
}
