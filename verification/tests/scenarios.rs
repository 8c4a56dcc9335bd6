//! End-to-end scenarios driven at the model level: the registry and the
//! scheduler decisions are exercised exactly as the execution loop drives
//! them, with scripted reader events in place of a live PTY.

use enhanced_terminal::jobs::{JobManager, JobStatus};
use enhanced_terminal::report::{execute_result_text, ExecutionResult};
use enhanced_terminal::scheduler::{
    accumulate_preview, background_step, decide_status, execute_precheck, foreground_step,
    BackgroundStep, ForegroundStep, Precheck, ReadEvent, SchedulerConfig, TerminalExecutionInput,
};

fn contains_bytes(haystack: &[u8], needle: &[u8]) -> bool {
    haystack.windows(needle.len()).any(|w| w == needle)
}

/// Scenario: `echo hello` with force_sync completes with exit code 0 and
/// its output holds "hello".
#[test]
fn force_sync_echo_completes() {
    let mut input = TerminalExecutionInput::with_defaults("echo hello".to_string());
    input.force_sync = true;
    let cfg = SchedulerConfig::from_input(&input);

    let mut m = JobManager::new();
    let cmd = match execute_precheck(&input.command, &input.custom_denylist) {
        Precheck::Proceed(c) => c,
        _ => panic!("echo hello must pass the precheck"),
    };
    let id = m.new_job_id();
    m.register_job(id.clone(), cmd.clone(), input.shell.clone(), "/tmp".into(), Some(11), 0);

    let mut preview: Vec<u8> = Vec::new();
    let mut truncated = false;
    // poll 1: data arrives
    assert_eq!(
        foreground_step(&cfg, 10, &ReadEvent::Data(b"hello\n".to_vec())),
        ForegroundStep::KeepPolling
    );
    accumulate_preview(&mut preview, &mut truncated, b"hello\n", cfg.output_limit);
    m.append_output(&id, b"hello\n", cfg.output_limit);
    // poll 2: end of file
    assert_eq!(foreground_step(&cfg, 20, &ReadEvent::Eof), ForegroundStep::Finalize);
    let status = decide_status(false, Some(0));
    assert_eq!(status, JobStatus::Completed);
    m.complete_job(&id, Some(0), status, 25);

    let job = m.get_job(&id).unwrap();
    assert_eq!(job.status, JobStatus::Completed);
    assert_eq!(job.exit_code, Some(0));
    assert!(contains_bytes(&job.full_output, b"hello"));

    let result = ExecutionResult::finished(
        id,
        cmd,
        "/tmp".to_string(),
        Some(0),
        String::from_utf8(preview).unwrap(),
        truncated,
        false,
        25,
        false,
    );
    let text = execute_result_text(&result, false);
    assert!(text.contains("Status: COMPLETED"));
    assert!(text.contains("Exit Code: 0"));
    assert!(text.contains("hello"));
}

/// Scenario: a slow command with a zero async threshold backgrounds at the
/// first poll; a later incremental read returns its output, and a second
/// one returns nothing.
#[test]
fn zero_threshold_backgrounds_then_streams() {
    let mut input = TerminalExecutionInput::with_defaults("sleep 2 && echo done".to_string());
    input.async_threshold_secs = 0;
    let cfg = SchedulerConfig::from_input(&input);

    let mut m = JobManager::new();
    let id = m.new_job_id();
    m.register_job(id.clone(), input.command.clone(), "bash".into(), "/".into(), Some(12), 0);

    // first poll: nothing read yet, but the threshold has passed
    assert_eq!(foreground_step(&cfg, 100, &ReadEvent::Idle), ForegroundStep::SwitchToAsync);

    // the background monitor now owns the job
    assert_eq!(
        background_step(None, 2_000, &ReadEvent::Data(b"done\n".to_vec())),
        BackgroundStep::KeepPolling
    );
    m.append_output(&id, b"done\n", cfg.output_limit);
    assert_eq!(background_step(None, 2_100, &ReadEvent::Eof), BackgroundStep::FinalizeOnExit);
    m.complete_job(&id, Some(0), decide_status(false, Some(0)), 2_200);

    let (bytes, running) = m.get_incremental_output(&id).unwrap();
    assert_eq!(bytes, b"done\n".to_vec());
    assert!(!running);
    let (bytes, _) = m.get_incremental_output(&id).unwrap();
    assert!(bytes.is_empty());
}

/// Scenario: an endless producer with a small output limit backgrounds,
/// then times out; the preview is exactly the limit, the capture longer.
#[test]
fn bounded_output_then_timeout() {
    let mut input = TerminalExecutionInput::with_defaults("yes".to_string());
    input.output_limit = 1024;
    input.async_threshold_secs = 1;
    input.timeout_secs = Some(3);
    let cfg = SchedulerConfig::from_input(&input);
    assert_eq!(cfg.timeout_ms, Some(3_000));

    let mut m = JobManager::new();
    let id = m.new_job_id();
    m.register_job(id.clone(), "yes".into(), "bash".into(), "/".into(), Some(13), 0);

    let chunk = vec![b'y'; 4096];
    assert_eq!(
        foreground_step(&cfg, 500, &ReadEvent::Data(chunk.clone())),
        ForegroundStep::KeepPolling
    );
    m.append_output(&id, &chunk, cfg.output_limit);
    // threshold passes: hand off to the monitor
    assert_eq!(
        foreground_step(&cfg, 1_100, &ReadEvent::Data(chunk.clone())),
        ForegroundStep::SwitchToAsync
    );
    // the monitor keeps draining, then the deadline fires
    assert_eq!(
        background_step(Some(1_900), 800, &ReadEvent::Data(chunk.clone())),
        BackgroundStep::KeepPolling
    );
    m.append_output(&id, &chunk, cfg.output_limit);
    assert_eq!(
        background_step(Some(1_900), 2_000, &ReadEvent::Idle),
        BackgroundStep::KillOnTimeout
    );
    m.complete_job(&id, None, JobStatus::TimedOut, 3_100);

    let job = m.get_job(&id).unwrap();
    assert_eq!(job.status, JobStatus::TimedOut);
    assert_eq!(job.exit_code, None);
    assert!(job.truncated);
    assert_eq!(job.output.len(), 1024);
    assert!(job.full_output.len() > 1024);
}

/// Scenario: a denied command opens no PTY and registers no job.
#[test]
fn denied_command_registers_nothing() {
    let input = TerminalExecutionInput::with_defaults("rm -rf /".to_string());
    let m = JobManager::new();
    match execute_precheck(&input.command, &input.custom_denylist) {
        Precheck::Denied(pattern) => {
            assert_eq!(pattern, "rm -rf /");
            let r = ExecutionResult::denied_result(input.command.clone(), Some(pattern));
            assert!(r.denied);
            assert_eq!(r.exit_code, None);
            assert!(r.denial_reason.unwrap().contains("rm -rf /"));
        }
        _ => panic!("rm -rf / must be denied"),
    }
    // nothing was registered
    assert!(m.list_jobs().is_empty());
}

/// Scenario: a backgrounded job is canceled; a later end-of-file must not
/// flip the status back to Completed or Failed.
#[test]
fn cancel_sticks_against_late_eof() {
    let mut m = JobManager::new();
    let id = m.new_job_id();
    m.register_job(id.clone(), "sleep 30".into(), "bash".into(), "/".into(), None, 0);

    // the job backgrounds immediately
    let cfg = SchedulerConfig {
        force_sync: false,
        async_threshold_ms: 0,
        timeout_ms: None,
        output_limit: 16384,
    };
    assert_eq!(foreground_step(&cfg, 100, &ReadEvent::Idle), ForegroundStep::SwitchToAsync);

    // the cancellation transitions the running job
    m.complete_job(&id, None, JobStatus::Canceled, 500);
    assert_eq!(m.get_job(&id).unwrap().status, JobStatus::Canceled);

    // the monitor later sees EOF and tries to finalize; the registry
    // ignores the late completion
    assert_eq!(background_step(None, 600, &ReadEvent::Eof), BackgroundStep::FinalizeOnExit);
    m.complete_job(&id, Some(0), decide_status(false, Some(0)), 700);
    let job = m.get_job(&id).unwrap();
    assert_eq!(job.status, JobStatus::Canceled);
    assert_eq!(job.finished_at, Some(500));
    assert_eq!(job.exit_code, None);
}

/// Scenario: listing by status sees the job while it runs and loses it
/// once it is canceled.
#[test]
fn list_filter_follows_cancellation() {
    let mut m = JobManager::new();
    let id = m.new_job_id();
    m.register_job(id.clone(), "sleep 30".into(), "bash".into(), "/".into(), None, 0);

    let running = m.list_jobs_filtered(Some(&[JobStatus::Running]), None, None);
    assert_eq!(running.len(), 1);
    assert_eq!(running[0].job_id, id);

    m.complete_job(&id, None, JobStatus::Canceled, 100);

    let running = m.list_jobs_filtered(Some(&[JobStatus::Running]), None, None);
    assert!(running.is_empty());
    let canceled = m.list_jobs_filtered(Some(&[JobStatus::Canceled]), None, None);
    assert_eq!(canceled.len(), 1);
}
