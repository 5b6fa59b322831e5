use moonbuild_rupes_recta::build_lower::utils::{command_tool_inputs, command_tool_inputs_with_extra};

fn moon_tools() -> Vec<String> {
    [
        "moon", "moonc", "mooncake", "moon-ide", "moondoc", "moonfmt", "mooninfo", "moonlex",
        "moonrun", "moonyacc", "moon_cram", "moon_cove_report",
    ]
    .iter()
    .map(|name| format!("/toolchain/bin/{name}"))
    .collect()
}

fn expected_trackable_tools(tools: &[&str]) -> Vec<String> {
    let mut tools = tools
        .iter()
        .filter(|path| std::path::Path::new(path).is_absolute() || std::path::Path::new(path).components().count() > 1)
        .map(|s| s.to_string())
        .collect::<Vec<_>>();
    tools.sort_by(|a, b| std::path::Path::new(a).cmp(std::path::Path::new(b)));
    tools
}

#[test]
fn command_tool_inputs_ignores_external_programs() {
    let inputs = command_tool_inputs(
        &vec![
            "/toolchain/bin/cc".to_string(),
            "/tmp/source".to_string(),
            "/tmp/output".to_string(),
        ],
        &moon_tools(),
    );

    assert!(inputs.is_empty());
}

#[test]
fn command_tool_inputs_ignores_bare_external_programs() {
    let inputs = command_tool_inputs(
        &vec![
            "cp".to_string(),
            "/tmp/source".to_string(),
            "/tmp/output".to_string(),
        ],
        &moon_tools(),
    );

    assert!(inputs.is_empty());
}

#[test]
fn command_tool_inputs_tracks_toolchain_programs() {
    let inputs = command_tool_inputs(
        &vec![
            "/toolchain/bin/moonfmt".to_string(),
            "/tmp/source.mbt".to_string(),
            "-o".to_string(),
            "/tmp/output.mbt".to_string(),
        ],
        &moon_tools(),
    );

    assert_eq!(inputs, expected_trackable_tools(&["/toolchain/bin/moonfmt"]));
}

#[test]
fn command_tool_inputs_tracks_known_toolchain_payloads() {
    let inputs = command_tool_inputs(
        &vec![
            "/toolchain/bin/moonrun".to_string(),
            "/toolchain/bin/moonlex".to_string(),
            "--".to_string(),
        ],
        &moon_tools(),
    );

    assert_eq!(
        inputs,
        expected_trackable_tools(&["/toolchain/bin/moonrun", "/toolchain/bin/moonlex"])
    );
}

#[test]
fn command_tool_inputs_accepts_wrapper_tools() {
    let inputs = command_tool_inputs_with_extra(
        &vec![
            "/toolchain/bin/moon".to_string(),
            "tool".to_string(),
            "format-and-diff".to_string(),
        ],
        &vec!["/toolchain/bin/moonfmt".to_string()],
        &moon_tools(),
    );

    assert_eq!(
        inputs,
        expected_trackable_tools(&["/toolchain/bin/moon", "/toolchain/bin/moonfmt"])
    );
}

#[test]
fn command_tool_inputs_ignores_external_wrapper_tools() {
    let inputs = command_tool_inputs_with_extra(
        &vec![
            "/toolchain/bin/moon".to_string(),
            "tool".to_string(),
            "format-workspace".to_string(),
        ],
        &vec!["/usr/bin/git".to_string()],
        &moon_tools(),
    );

    assert_eq!(inputs, expected_trackable_tools(&["/toolchain/bin/moon"]));
}

#[test]
fn bare_toolchain_overrides_are_not_tracked() {
    let tools = vec!["moonc".to_string(), "/toolchain/bin/moonrun".to_string()];
    let inputs = command_tool_inputs(
        &vec!["moonc".to_string(), "/toolchain/bin/moonrun".to_string()],
        &tools,
    );

    assert_eq!(inputs, vec!["/toolchain/bin/moonrun".to_string()]);
}

#[test]
fn repeated_tools_are_kept_once_in_path_order() {
    let tools = vec!["/b/moonc".to_string(), "/a/moonrun".to_string()];
    let inputs = command_tool_inputs(
        &vec![
            "/b/moonc".to_string(),
            "/a/moonrun".to_string(),
            "/b//moonc".to_string(),
        ],
        &tools,
    );

    assert_eq!(inputs, vec!["/a/moonrun".to_string(), "/b/moonc".to_string()]);
}
