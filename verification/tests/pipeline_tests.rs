use danmaku::convert::{classify_conversion, converter_invocation, ConversionError, ConverterOutcome};
use danmaku::pipeline::{
    on_host_event, run_start, run_step_artifact, run_step_conversion, run_step_install,
    run_step_tracks, run_step_write, HostEvent, LoopDirective, LoopState, RunCommand, RunOutcome,
    RunPhase,
};
use danmaku::reconcile::SubtitleTrack;

#[test]
fn event_loop_transitions() {
    assert_eq!(on_host_event(LoopState::Idle, HostEvent::FileLoaded),
        (LoopState::Idle, LoopDirective::StartRun));
    assert_eq!(on_host_event(LoopState::Idle, HostEvent::Shutdown),
        (LoopState::Terminated, LoopDirective::Quit));
    assert_eq!(on_host_event(LoopState::Idle, HostEvent::Other),
        (LoopState::Idle, LoopDirective::Ignore));
    assert_eq!(on_host_event(LoopState::Terminated, HostEvent::FileLoaded),
        (LoopState::Terminated, LoopDirective::Quit));
}

#[test]
fn converter_command_line() {
    let (program, args) = converter_invocation("https://www.bilibili.com/video/BV1xx411c7mD");
    assert_eq!(program, "danmu2ass");
    assert_eq!(args, vec!["--no-web", "-o", "-", "https://www.bilibili.com/video/BV1xx411c7mD"]);
}

#[test]
fn conversion_outcomes_are_classified() {
    assert!(matches!(
        classify_conversion(ConverterOutcome::SpawnFailed),
        Err(ConversionError::SpawnFailed)
    ));
    match classify_conversion(ConverterOutcome::Finished { success: false, stdout: vec![1, 2] }) {
        Err(ConversionError::ToolFailed(out)) => assert_eq!(out, vec![1, 2]),
        _ => panic!("expected a tool failure"),
    }
    assert_eq!(
        classify_conversion(ConverterOutcome::Finished { success: true, stdout: vec![3] }).unwrap(),
        vec![3]
    );
}

#[test]
fn full_run_scenario() {
    let (phase, cmd) = run_start("https://www.bilibili.com/video/BV1xx411c7mD");
    assert!(matches!(cmd, RunCommand::ListTracks));

    let tracks = vec![
        SubtitleTrack {
            kind: Some("video".to_string()),
            lang: None,
            title: None,
            id: Some("1".to_string()),
        },
        SubtitleTrack {
            kind: Some("sub".to_string()),
            lang: Some("danmaku".to_string()),
            title: Some("xml".to_string()),
            id: Some("3".to_string()),
        },
    ];
    let (phase, cmd) = run_step_tracks(phase, &tracks);
    let file_name = match cmd {
        RunCommand::CreateArtifact { file_name, remove_first } => {
            assert_eq!(remove_first, Some(3));
            assert_eq!(file_name, "BV1xx411c7mD.ass");
            file_name
        },
        _ => panic!("expected an artifact request"),
    };

    let artifact_path = format!("/tmp/scope/{file_name}");
    let (phase, cmd) = run_step_artifact(phase, Some(artifact_path.clone()));
    match &cmd {
        RunCommand::RunConverter { program, args } => {
            assert_eq!(program, "danmu2ass");
            assert_eq!(
                args,
                &vec!["--no-web", "-o", "-", "https://www.bilibili.com/video/BV1xx411c7mD"]
            );
        },
        _ => panic!("expected a converter run"),
    }

    let bytes = b"[Script Info]\n".to_vec();
    let (phase, cmd) = run_step_conversion(
        phase,
        ConverterOutcome::Finished { success: true, stdout: bytes.clone() },
    );
    match &cmd {
        RunCommand::WriteArtifact { path, bytes: b } => {
            assert_eq!(path, &artifact_path);
            assert_eq!(b, &bytes);
        },
        _ => panic!("expected a write"),
    }

    let (phase, cmd) = run_step_write(phase, true);
    match &cmd {
        RunCommand::InstallSubtitle { path, sub_auto, title, lang } => {
            assert_eq!(path, &artifact_path);
            assert_eq!(sub_auto, "exact");
            assert_eq!(title, "danmaku");
            assert_eq!(lang, "chs");
        },
        _ => panic!("expected an install"),
    }

    let (phase, cmd) = run_step_install(phase, true);
    assert!(matches!(phase, RunPhase::Done { outcome: RunOutcome::Installed }));
    assert!(matches!(cmd, RunCommand::Finish { outcome: RunOutcome::Installed }));
}

#[test]
fn skip_finishes_immediately() {
    let (phase, cmd) = run_start("https://example.com/movie.mkv");
    assert!(matches!(phase, RunPhase::Done { outcome: RunOutcome::Skipped }));
    assert!(matches!(cmd, RunCommand::Finish { outcome: RunOutcome::Skipped }));
}

#[test]
fn codec_domain_error_aborts_run() {
    let (phase, cmd) = run_start("https://www.bilibili.com/video/av4503599627370496");
    assert!(matches!(phase, RunPhase::Done { outcome: RunOutcome::Aborted }));
    assert!(matches!(cmd, RunCommand::Finish { outcome: RunOutcome::Aborted }));
}

#[test]
fn failed_conversion_aborts_run() {
    let (phase, _) = run_start("https://www.bilibili.com/video/BV1xx411c7mD");
    let (phase, _) = run_step_tracks(phase, &Vec::new());
    let (phase, _) = run_step_artifact(phase, Some("/tmp/scope/BV1xx411c7mD.ass".to_string()));
    let (phase, cmd) = run_step_conversion(
        phase,
        ConverterOutcome::Finished { success: false, stdout: b"no data".to_vec() },
    );
    assert!(matches!(phase, RunPhase::Done { outcome: RunOutcome::Aborted }));
    assert!(matches!(cmd, RunCommand::Finish { outcome: RunOutcome::Aborted }));
}

#[test]
fn spawn_failure_aborts_run() {
    let (phase, _) = run_start("https://www.bilibili.com/video/BV1xx411c7mD");
    let (phase, _) = run_step_tracks(phase, &Vec::new());
    let (phase, _) = run_step_artifact(phase, Some("/tmp/scope/BV1xx411c7mD.ass".to_string()));
    let (phase, cmd) = run_step_conversion(phase, ConverterOutcome::SpawnFailed);
    assert!(matches!(cmd, RunCommand::Finish { outcome: RunOutcome::Aborted }));
    assert!(matches!(phase, RunPhase::Done { outcome: RunOutcome::Aborted }));
}

#[test]
fn artifact_failure_aborts_run() {
    let (phase, _) = run_start("https://www.bilibili.com/video/BV1xx411c7mD");
    let (phase, _) = run_step_tracks(phase, &Vec::new());
    let (phase, cmd) = run_step_artifact(phase, None);
    assert!(matches!(phase, RunPhase::Done { outcome: RunOutcome::Aborted }));
    assert!(matches!(cmd, RunCommand::Finish { outcome: RunOutcome::Aborted }));
}

#[test]
fn failed_install_aborts_run() {
    let (phase, _) = run_start("https://www.bilibili.com/video/BV1xx411c7mD");
    let (phase, _) = run_step_tracks(phase, &Vec::new());
    let (phase, _) = run_step_artifact(phase, Some("/tmp/scope/BV1xx411c7mD.ass".to_string()));
    let (phase, _) = run_step_conversion(
        phase,
        ConverterOutcome::Finished { success: true, stdout: b"x".to_vec() },
    );
    let (phase, _) = run_step_write(phase, true);
    let (phase, cmd) = run_step_install(phase, false);
    assert!(matches!(phase, RunPhase::Done { outcome: RunOutcome::Aborted }));
    assert!(matches!(cmd, RunCommand::Finish { outcome: RunOutcome::Aborted }));
}
