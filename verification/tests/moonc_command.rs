use moonbuild_rupes_recta::build_lower::moonc_command::{
    encode, lower, lower_rendered, RESPONSE_FILE_THRESHOLD,
};
use moonbuild_rupes_recta::build_lower::LoweringError;
use moonbuild_rupes_recta::execution_plan::LoweredCommandExecution;

#[test]
fn rejects_arguments_changed_by_moonc_response_file_parsing() {
    for arg in [
        "",
        " leading",
        "trailing ",
        "line\nbreak",
        "#comment",
        "-rsp-file",
    ] {
        assert!(encode(&[arg.to_owned()]).is_err(), "accepted {arg:?}");
    }
}

#[test]
fn preserves_logical_args_while_selecting_execution_transport() {
    let output = "build/pkg.core";
    let short = vec!["moonc".to_owned(), "build-package".to_owned()];
    let lowered = lower(short.clone(), output).expect("short command should lower");
    match lowered.execution() {
        LoweredCommandExecution::Inline(command) => {
            assert_eq!(shlex::split(command).unwrap(), short);
        }
        LoweredCommandExecution::ResponseFile { .. } => panic!("short command should be inline"),
    }

    let long = vec![
        "moonc".to_owned(),
        "build-package".to_owned(),
        "x".repeat(RESPONSE_FILE_THRESHOLD),
    ];
    let lowered = lower(long.clone(), output).expect("oversized command should lower");
    assert_eq!(lowered.args(), &long);
    match lowered.execution() {
        LoweredCommandExecution::ResponseFile { command, file } => {
            assert_eq!(
                shlex::split(command).unwrap(),
                [
                    "moonc".to_owned(),
                    "-rsp-file".to_owned(),
                    file.path.clone(),
                ]
            );
            assert_eq!(file.path, "build/pkg.core.rsp");
            assert_eq!(file.content.lines().collect::<Vec<_>>(), long[1..]);
        }
        LoweredCommandExecution::Inline(_) => {
            panic!("oversized command should use a response file")
        }
    }
}

#[test]
fn encode_puts_one_argument_per_line() {
    let content = encode(&["a".to_owned(), "b c".to_owned()]).expect("plain arguments encode");
    assert_eq!(content, "a\nb c\n");
    assert_eq!(encode(&[]).expect("no arguments encode"), "\n");
}

#[test]
fn encode_reports_the_first_rejected_argument_and_why() {
    let err = encode(&["ok".to_owned(), "#x".to_owned(), "".to_owned()]).unwrap_err();
    match err {
        LoweringError::MooncResponseFile { index, reason } => {
            assert_eq!(index, 1);
            assert_eq!(reason, "the argument would be parsed as a comment");
        }
    }
    let reasons = [
        ("", "the argument is empty"),
        ("\u{3000}x", "leading or trailing whitespace would be trimmed"),
        ("a\rb", "line breaks delimit arguments"),
        ("-rsp-file", "nested response files are not supported"),
    ];
    for (arg, expected) in reasons {
        match encode(&[arg.to_owned()]).unwrap_err() {
            LoweringError::MooncResponseFile { index, reason } => {
                assert_eq!(index, 0);
                assert_eq!(reason, expected);
            }
        }
    }
}

#[test]
fn lowering_error_message_names_the_argument() {
    let err = LoweringError::MooncResponseFile {
        index: 12,
        reason: "the argument is empty",
    };
    assert_eq!(
        err.message(),
        "moonc response files cannot represent argument 12: the argument is empty"
    );
}

#[test]
fn threshold_is_measured_in_utf8_bytes() {
    let args = vec!["moonc".to_owned(), "x".to_owned()];
    // 16383 bytes stays inline, 16384 bytes selects a response file.
    let below = "é".repeat(8191) + "a";
    assert_eq!(below.len(), RESPONSE_FILE_THRESHOLD - 1);
    let lowered = lower_rendered(args.clone(), below.clone(), "out.core").unwrap();
    assert!(matches!(lowered.execution(), LoweredCommandExecution::Inline(c) if *c == below));

    let at = "é".repeat(8192);
    assert_eq!(at.len(), RESPONSE_FILE_THRESHOLD);
    let lowered = lower_rendered(args, at, "out.core").unwrap();
    match lowered.execution() {
        LoweredCommandExecution::ResponseFile { file, .. } => {
            assert_eq!(file.path, "out.core.rsp");
            assert_eq!(file.content, "x\n");
        }
        _ => panic!("a command of the threshold's length uses a response file"),
    }
}

#[test]
fn long_command_with_rejected_argument_fails_at_its_index() {
    let args = vec!["moonc".to_owned(), "ok".to_owned(), " bad".to_owned()];
    let inline = "y".repeat(RESPONSE_FILE_THRESHOLD);
    match lower_rendered(args, inline, "out.core") {
        Err(LoweringError::MooncResponseFile { index, reason }) => {
            assert_eq!(index, 1);
            assert_eq!(reason, "leading or trailing whitespace would be trimmed");
        }
        Ok(_) => panic!("a leading space cannot be carried by a response file"),
    }
}
