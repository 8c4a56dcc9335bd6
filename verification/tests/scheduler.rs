use enhanced_terminal::scheduler::{
    accumulate_preview, background_step, decide_status, default_async_threshold, default_cwd,
    default_output_limit, default_shell, execute_precheck, foreground_step, BackgroundStep,
    ForegroundStep, Precheck, ReadEvent, SchedulerConfig, TerminalExecutionInput,
};
use enhanced_terminal::jobs::JobStatus;

fn cfg(force_sync: bool, threshold_ms: u64, timeout_ms: Option<u64>) -> SchedulerConfig {
    SchedulerConfig {
        force_sync,
        async_threshold_ms: threshold_ms,
        timeout_ms,
        output_limit: 16384,
    }
}

#[test]
fn defaults_match_the_contract() {
    assert_eq!(default_cwd(), ".");
    assert_eq!(default_shell(), "bash");
    assert_eq!(default_output_limit(), 16384);
    assert_eq!(default_async_threshold(), 50);
    let input = TerminalExecutionInput::with_defaults("ls".to_string());
    assert_eq!(input.command, "ls");
    assert_eq!(input.cwd, ".");
    assert_eq!(input.shell, "bash");
    assert_eq!(input.output_limit, 16384);
    assert_eq!(input.timeout_secs, None);
    assert_eq!(input.async_threshold_secs, 50);
    assert!(!input.force_sync);
    assert!(!input.stream);
}

#[test]
fn config_normalizes_timeout_and_threshold() {
    let mut input = TerminalExecutionInput::with_defaults("ls".to_string());
    input.async_threshold_secs = 2;
    input.timeout_secs = Some(3);
    let c = SchedulerConfig::from_input(&input);
    assert_eq!(c.async_threshold_ms, 2_000);
    assert_eq!(c.timeout_ms, Some(3_000));

    // timeout absent or zero means no deadline at all
    input.timeout_secs = Some(0);
    assert_eq!(SchedulerConfig::from_input(&input).timeout_ms, None);
    input.timeout_secs = None;
    assert_eq!(SchedulerConfig::from_input(&input).timeout_ms, None);
}

#[test]
fn stream_mode_is_a_zero_threshold() {
    let mut input = TerminalExecutionInput::with_defaults("tail -f log".to_string());
    input.async_threshold_secs = 50;
    input.stream = true;
    let c = SchedulerConfig::from_input(&input);
    assert_eq!(c.async_threshold_ms, 0);
}

#[test]
fn no_timeout_never_kills_foreground() {
    let c = cfg(true, 0, None);
    for elapsed in [0u64, 1, 100, 1_000_000] {
        for ev in [ReadEvent::Idle, ReadEvent::Eof, ReadEvent::Data(vec![1])] {
            assert!(foreground_step(&c, elapsed, &ev) != ForegroundStep::KillOnTimeout);
        }
    }
}

#[test]
fn zero_threshold_hands_off_after_first_poll() {
    let c = cfg(false, 0, Some(60_000));
    assert_eq!(
        foreground_step(&c, 100, &ReadEvent::Data(vec![1, 2])),
        ForegroundStep::SwitchToAsync
    );
    assert_eq!(foreground_step(&c, 1, &ReadEvent::Idle), ForegroundStep::SwitchToAsync);
}

#[test]
fn force_sync_ignores_the_threshold() {
    let c = cfg(true, 0, None);
    assert_eq!(foreground_step(&c, 999_999, &ReadEvent::Idle), ForegroundStep::KeepPolling);
    assert_eq!(foreground_step(&c, 999_999, &ReadEvent::Eof), ForegroundStep::Finalize);
}

#[test]
fn timeout_fires_before_events_are_read() {
    let c = cfg(true, 0, Some(3_000));
    assert_eq!(
        foreground_step(&c, 3_001, &ReadEvent::Data(vec![1])),
        ForegroundStep::KillOnTimeout
    );
    assert_eq!(foreground_step(&c, 3_000, &ReadEvent::Idle), ForegroundStep::KeepPolling);
}

#[test]
fn foreground_finalizes_on_eof_error_and_disconnect() {
    let c = cfg(false, 50_000, None);
    assert_eq!(foreground_step(&c, 10, &ReadEvent::Eof), ForegroundStep::Finalize);
    assert_eq!(foreground_step(&c, 10, &ReadEvent::ReadError), ForegroundStep::Finalize);
    assert_eq!(foreground_step(&c, 10, &ReadEvent::Disconnected), ForegroundStep::Finalize);
    assert_eq!(foreground_step(&c, 10, &ReadEvent::Idle), ForegroundStep::KeepPolling);
}

#[test]
fn background_steps_mirror_the_monitor() {
    assert_eq!(background_step(None, 10, &ReadEvent::Idle), BackgroundStep::KeepPolling);
    assert_eq!(
        background_step(None, 10, &ReadEvent::Data(vec![0])),
        BackgroundStep::KeepPolling
    );
    assert_eq!(background_step(None, 10, &ReadEvent::Eof), BackgroundStep::FinalizeOnExit);
    assert_eq!(
        background_step(None, 10, &ReadEvent::ReadError),
        BackgroundStep::FinalizeFailed
    );
    assert_eq!(
        background_step(None, 10, &ReadEvent::Disconnected),
        BackgroundStep::FinalizeFailed
    );
    assert_eq!(
        background_step(Some(1_000), 1_001, &ReadEvent::Data(vec![0])),
        BackgroundStep::KillOnTimeout
    );
}

#[test]
fn status_derivation() {
    assert_eq!(decide_status(true, Some(0)), JobStatus::TimedOut);
    assert_eq!(decide_status(false, Some(0)), JobStatus::Completed);
    assert_eq!(decide_status(false, Some(2)), JobStatus::Failed);
    assert_eq!(decide_status(false, None), JobStatus::Failed);
}

#[test]
fn preview_accumulates_up_to_the_limit() {
    let mut preview: Vec<u8> = Vec::new();
    let mut truncated = false;
    accumulate_preview(&mut preview, &mut truncated, b"0123", 6);
    assert_eq!(preview, b"0123".to_vec());
    assert!(!truncated);
    accumulate_preview(&mut preview, &mut truncated, b"4567", 6);
    assert_eq!(preview, b"012345".to_vec());
    assert!(truncated);
    // once truncated the preview is frozen
    accumulate_preview(&mut preview, &mut truncated, b"89", 100);
    assert_eq!(preview, b"012345".to_vec());
    assert!(truncated);
}

#[test]
fn precheck_trims_and_accepts() {
    match execute_precheck("  echo hi  ", &[]) {
        Precheck::Proceed(c) => assert_eq!(c, "echo hi"),
        _ => panic!("expected Proceed"),
    }
}

#[test]
fn precheck_rejects_empty_commands() {
    assert!(matches!(execute_precheck("   ", &[]), Precheck::EmptyCommand));
    assert!(matches!(execute_precheck("", &[]), Precheck::EmptyCommand));
}

#[test]
fn precheck_denies_with_the_matched_pattern() {
    match execute_precheck("rm -rf /", &[]) {
        Precheck::Denied(p) => assert_eq!(p, "rm -rf /"),
        _ => panic!("expected Denied"),
    }
    let custom = vec!["docker rm".to_string()];
    match execute_precheck("docker rm -f c", &custom) {
        Precheck::Denied(p) => assert_eq!(p, "docker rm"),
        _ => panic!("expected Denied"),
    }
}
