use moonbuild_rupes_recta::build_lower::command::BuildCommand;
use moonbuild_rupes_recta::build_lower::lowered_action::{
    BuildCommand as ArtifactBuildCommand, LoweredArtifact, LoweredExternalInput,
};
use moonbuild_rupes_recta::build_action_plan::BuildActionId;
use moonbuild_rupes_recta::build_plan::artifact::ArtifactKey;
use moonbuild_rupes_recta::execution_plan::{
    ExternalInput, LoweredCommand, LoweredCommandExecution, LoweredResponseFile,
};

fn transported_command(executable: &str) -> LoweredCommand {
    LoweredCommand::from_args(vec![executable.to_string(), "build-package".to_string()])
        .with_response_file(
            "transported-command @command.rsp".to_string(),
            LoweredResponseFile {
                path: "command.rsp".to_string(),
                content: "build-package".to_string(),
            },
        )
}

#[test]
fn command_structured_executable_is_derived_from_original_args_and_inputs_are_canonical() {
    let executable = "toolchain/bin/moonc".to_string();
    let commandline = transported_command(&executable);
    let (commandline, inputs) = BuildCommand {
        extra_inputs: vec![
            "z.mbt".to_string(),
            executable.clone(),
            "a.mbt".to_string(),
        ],
        commandline,
    }
    .into_lowered_parts(&vec![]);

    assert_eq!(
        inputs,
        vec![
            ExternalInput::File("a.mbt".to_string()),
            ExternalInput::File(executable),
            ExternalInput::File("z.mbt".to_string()),
        ]
    );
    assert!(matches!(
        commandline.execution(),
        LoweredCommandExecution::ResponseFile { .. }
    ));
}

#[test]
fn lowered_action_structured_executable_is_derived_from_original_args_and_inputs_are_canonical() {
    let executable = "toolchain/bin/moonc".to_string();
    let commandline = transported_command(&executable);
    let (commandline, external_inputs) = ArtifactBuildCommand {
        extra_inputs: vec![
            "z.mbt".to_string(),
            executable.clone(),
            "a.mbt".to_string(),
            executable.clone(),
        ],
        commandline,
    }
    .into_lowered_parts(&vec![]);

    assert_eq!(commandline.executable(), Some(executable.as_str()));
    assert_eq!(
        external_inputs,
        vec![
            LoweredExternalInput::File("a.mbt".to_string()),
            LoweredExternalInput::File(executable),
            LoweredExternalInput::File("z.mbt".to_string()),
        ]
    );
}

#[test]
fn executable_provided_by_a_dependency_is_not_an_external_input() {
    let executable = "build/tool.exe".to_string();
    let dependency = LoweredArtifact {
        producer: BuildActionId(3),
        artifact: ArtifactKey::RuntimeLibrary,
        paths: vec!["build/./tool.exe".to_string()],
    };
    let (_, external_inputs) = ArtifactBuildCommand {
        extra_inputs: vec!["b.txt".to_string(), executable.clone(), "a.txt".to_string()],
        commandline: LoweredCommand::from_args(vec![executable.clone()]),
    }
    .into_lowered_parts(&vec![dependency]);

    assert_eq!(
        external_inputs,
        vec![
            LoweredExternalInput::File("a.txt".to_string()),
            LoweredExternalInput::File("b.txt".to_string()),
        ]
    );
}

#[test]
fn executable_provided_by_a_dependency_path_is_dropped() {
    let (_, inputs) = BuildCommand {
        extra_inputs: vec!["b.txt".to_string(), "bin/tool".to_string()],
        commandline: LoweredCommand::from_args(vec!["bin/tool".to_string()]),
    }
    .into_lowered_parts(&vec!["bin/tool".to_string()]);

    assert_eq!(inputs, vec![ExternalInput::File("b.txt".to_string())]);
}

#[test]
fn lowered_inputs_paths_and_executor_paths() {
    let file = LoweredExternalInput::File("a.mbt".to_string());
    let tree = LoweredExternalInput::StandardLibraryInterfaces("core".to_string());
    assert_eq!(file.path(), "a.mbt");
    assert_eq!(file.n2_path(), Some("a.mbt"));
    assert_eq!(tree.path(), "core");
    assert_eq!(tree.n2_path(), None);
}

#[test]
fn build_command_with_cwd_and_env_updates_its_commandline() {
    let cmd = BuildCommand {
        extra_inputs: vec![],
        commandline: LoweredCommand::from_args(vec!["moonc".to_string()]),
    }
    .with_cwd("work".to_string())
    .with_env(vec![("A".to_string(), "1".to_string())]);
    assert_eq!(cmd.commandline.cwd(), Some("work"));
    assert_eq!(cmd.commandline.env(), &vec![("A".to_string(), "1".to_string())]);
}
