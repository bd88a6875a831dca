use rooq::subprocess::{onas_args, CommandArg, OnasCommand};
use rooq::subprocess::{
    exit_result, locate_executable, next_wait_action, temp_file_name, Found, Probe,
    SubprocessError, WaitAction, WaitObservation,
};

#[test]
fn missing_binary_reports_all_tried_locations() {
    let probes = vec![
        Probe::EnvVar(None),
        Probe::NextToExe(Some(("/opt/rooq/test-tool".to_string(), false))),
        Probe::Path(vec![false, false]),
    ];
    match locate_executable("test-tool", "rooq_test_tool_that_does_not_exist", "hint", &probes) {
        Err(SubprocessError::BinaryNotFound { tool, tried, hint }) => {
            assert_eq!(tool, "test-tool");
            assert_eq!(hint, "hint");
            assert_eq!(
                tried,
                "/opt/rooq/test-tool, rooq_test_tool_that_does_not_exist on PATH"
            );
        }
        other => panic!("unexpected: {:?}", other.map(|f| f.probe)),
    }
}

#[test]
fn environment_variable_wins_when_it_names_a_file() {
    let probes = vec![
        Probe::EnvVar(Some(("C:/tools/onas.exe".to_string(), true))),
        Probe::NextToExe(Some(("C:/rooq/onas.exe".to_string(), true))),
        Probe::Path(vec![true]),
    ];
    let found = locate_executable("onas", "onas.exe", "hint", &probes).unwrap();
    assert_eq!(found, Found { probe: 0, candidate: 0 });
}

#[test]
fn first_path_directory_with_the_binary_wins() {
    let probes = vec![
        Probe::EnvVar(Some(("/nowhere/ffmpeg".to_string(), false))),
        Probe::Path(vec![false, true, true]),
        Probe::NextToExe(Some(("/rooq/ffmpeg".to_string(), true))),
    ];
    let found = locate_executable("ffmpeg", "ffmpeg", "hint", &probes).unwrap();
    assert_eq!(found, Found { probe: 1, candidate: 1 });
}

#[test]
fn unset_variable_and_unknown_exe_dir_are_not_listed() {
    let probes = vec![Probe::EnvVar(None), Probe::NextToExe(None)];
    match locate_executable("onas", "onas", "set ROOQ_ONAS", &probes) {
        Err(SubprocessError::BinaryNotFound { tried, .. }) => assert_eq!(tried, ""),
        other => panic!("unexpected: {:?}", other.map(|f| f.probe)),
    }
}

#[test]
fn temp_file_names_follow_the_pattern() {
    let name = temp_file_name("ffmpeg", 4242, 7, "png");
    assert_eq!(name, "rooq_ffmpeg_4242_7.png");
    assert!(name.starts_with("rooq_ffmpeg_"));
    assert_ne!(temp_file_name("onas", 1, 0, "png"), temp_file_name("onas", 1, 1, "png"));
    assert_eq!(temp_file_name("onas", 0, 1234567890123, "png"), "rooq_onas_0_1234567890123.png");
}

#[test]
fn exit_status_decides_the_report() {
    assert!(exit_result("onas", true, String::from("noise")).is_ok());
    match exit_result("onas", false, String::from("Error: bad input")) {
        Err(SubprocessError::ProcessFailed { tool, stderr }) => {
            assert_eq!(tool, "onas");
            assert_eq!(stderr, "Error: bad input");
        }
        other => panic!("unexpected: {:?}", other.is_ok()),
    }
}

#[test]
fn waiting_kills_only_after_the_timeout() {
    assert_eq!(next_wait_action(WaitObservation::Exited { success: false }), WaitAction::Finish { success: false });
    assert_eq!(next_wait_action(WaitObservation::Running { past_timeout: false }), WaitAction::Poll);
    assert_eq!(next_wait_action(WaitObservation::Running { past_timeout: true }), WaitAction::Kill);
}

#[test]
fn timeout_is_reported_with_tool_and_budget() {
    match rooq::subprocess::timeout_result("ffmpeg", std::time::Duration::from_secs(30)) {
        Err(rooq::subprocess::SubprocessError::Timeout { tool, timeout }) => {
            assert_eq!(tool, "ffmpeg");
            assert_eq!(timeout, std::time::Duration::from_secs(30));
        }
        other => panic!("unexpected {:?}", other),
    }
}

fn render(args: &[CommandArg]) -> Vec<String> {
    args.iter()
        .map(|a| match a {
            CommandArg::Text(t) => t.to_string(),
            CommandArg::InputPath => "<in>".to_string(),
            CommandArg::OutputPath => "<out>".to_string(),
        })
        .collect()
}

#[test]
fn ffmpeg_extracts_one_frame_quietly() {
    assert_eq!(
        render(&rooq::subprocess::ffmpeg_frame_args()),
        vec!["-y", "-nostdin", "-hide_banner", "-loglevel", "error", "-i", "<in>", "-frames:v", "1", "<out>"]
    );
}

#[test]
fn onas_takes_subcommand_input_and_output() {
    assert_eq!(render(&onas_args(OnasCommand::ConvertImage)), vec!["image", "<in>", "<out>"]);
    assert_eq!(render(&onas_args(OnasCommand::ExtractFrame)), vec!["frame", "<in>", "<out>"]);
}
