use enhanced_terminal::jobs::{JobError, JobManager, JobStatus};

fn register(m: &mut JobManager, now: u64) -> String {
    let id = m.new_job_id();
    m.register_job(
        id.clone(),
        "echo hello".to_string(),
        "bash".to_string(),
        "/tmp".to_string(),
        Some(4242),
        now,
    );
    id
}

#[test]
fn job_ids_are_unique_and_sequential() {
    let mut m = JobManager::new();
    let a = m.new_job_id();
    let b = m.new_job_id();
    let c = m.new_job_id();
    assert_eq!(a, "job-1");
    assert_eq!(b, "job-2");
    assert_eq!(c, "job-3");
    assert!(a != b && b != c && a != c);
}

#[test]
fn register_then_get() {
    let mut m = JobManager::new();
    let id = register(&mut m, 1_000);
    let job = m.get_job(&id).unwrap();
    assert_eq!(job.job_id, id);
    assert_eq!(job.command, "echo hello");
    assert_eq!(job.shell, "bash");
    assert_eq!(job.cwd, "/tmp");
    assert_eq!(job.status, JobStatus::Running);
    assert_eq!(job.started_at, 1_000);
    assert_eq!(job.finished_at, None);
    assert_eq!(job.exit_code, None);
    assert!(job.output.is_empty());
    assert!(job.full_output.is_empty());
    assert!(!job.truncated);
    assert_eq!(job.last_read_position, 0);
    assert_eq!(job.pid, Some(4242));
    assert_eq!(job.summary, "echo hello");
}

#[test]
fn summary_elides_long_commands() {
    let mut m = JobManager::new();
    let id = m.new_job_id();
    let long: String = "x".repeat(150);
    m.register_job(id.clone(), long.clone(), "sh".into(), "/".into(), None, 0);
    let job = m.get_job(&id).unwrap();
    assert_eq!(job.summary.chars().count(), 100);
    assert_eq!(job.summary, format!("{}...", "x".repeat(97)));
}

#[test]
fn capture_round_trip() {
    // register; append b1; append b2; complete; the capture reads b1 + b2.
    let mut m = JobManager::new();
    let id = register(&mut m, 5);
    m.append_output(&id, b"hello ", 1024);
    m.append_output(&id, b"world", 1024);
    m.complete_job(&id, Some(0), JobStatus::Completed, 9);
    let job = m.get_job(&id).unwrap();
    assert_eq!(job.full_output, b"hello world".to_vec());
    assert_eq!(job.output, b"hello world".to_vec());
    assert!(!job.truncated);
    assert_eq!(job.status, JobStatus::Completed);
    assert_eq!(job.exit_code, Some(0));
    assert_eq!(job.finished_at, Some(9));
}

#[test]
fn incremental_reads_return_only_new_bytes() {
    let mut m = JobManager::new();
    let id = register(&mut m, 0);
    m.append_output(&id, b"first", 1024);
    let (bytes, running) = m.get_incremental_output(&id).unwrap();
    assert_eq!(bytes, b"first".to_vec());
    assert!(running);
    m.append_output(&id, b"second", 1024);
    let (bytes, running) = m.get_incremental_output(&id).unwrap();
    assert_eq!(bytes, b"second".to_vec());
    assert!(running);
    let (bytes, _) = m.get_incremental_output(&id).unwrap();
    assert!(bytes.is_empty());
}

#[test]
fn reset_cursor_replays_everything() {
    let mut m = JobManager::new();
    let id = register(&mut m, 0);
    m.append_output(&id, b"abc", 16);
    let _ = m.get_incremental_output(&id).unwrap();
    m.reset_read_position(&id);
    let (bytes, _) = m.get_incremental_output(&id).unwrap();
    assert_eq!(bytes, b"abc".to_vec());
}

#[test]
fn preview_is_a_prefix_and_truncation_is_exact() {
    let mut m = JobManager::new();
    let id = register(&mut m, 0);
    m.append_output(&id, b"0123456789", 4);
    let job = m.get_job(&id).unwrap();
    assert_eq!(job.output, b"0123".to_vec());
    assert_eq!(job.full_output, b"0123456789".to_vec());
    assert!(job.truncated);
    assert!(job.full_output.starts_with(&job.output));
    // truncated holds exactly when a byte is missing from the preview
    assert_eq!(job.truncated, job.full_output.len() > job.output.len());
}

#[test]
fn zero_limit_keeps_preview_empty_and_marks_truncated() {
    let mut m = JobManager::new();
    let id = register(&mut m, 0);
    m.append_output(&id, b"x", 0);
    let job = m.get_job(&id).unwrap();
    assert!(job.output.is_empty());
    assert!(job.truncated);
    m.append_output(&id, b"more", 0);
    let job = m.get_job(&id).unwrap();
    assert!(job.output.is_empty());
    assert_eq!(job.full_output, b"xmore".to_vec());
}

#[test]
fn complete_is_only_honoured_once() {
    let mut m = JobManager::new();
    let id = register(&mut m, 0);
    m.complete_job(&id, None, JobStatus::Canceled, 7);
    // a late completion must not overwrite the terminal status
    m.complete_job(&id, Some(0), JobStatus::Completed, 8);
    let job = m.get_job(&id).unwrap();
    assert_eq!(job.status, JobStatus::Canceled);
    assert_eq!(job.exit_code, None);
    assert_eq!(job.finished_at, Some(7));
}

#[test]
fn appends_do_not_reach_terminal_jobs() {
    let mut m = JobManager::new();
    let id = register(&mut m, 0);
    m.append_output(&id, b"live", 64);
    m.complete_job(&id, Some(0), JobStatus::Completed, 1);
    m.append_output(&id, b"late", 64);
    let job = m.get_job(&id).unwrap();
    assert_eq!(job.full_output, b"live".to_vec());
}

#[test]
fn unknown_job_operations_fail_cleanly() {
    let mut m = JobManager::new();
    assert!(m.get_job("job-9").is_none());
    assert!(m.get_incremental_output("job-9").is_none());
    assert!(m.get_output_range("job-9", 0, 10).is_none());
    assert_eq!(m.add_tags("job-9", vec![]), Err(JobError::NotFound));
    assert_eq!(m.delete_job("job-9"), Err(JobError::NotFound));
    assert_eq!(m.cancel_job("job-9", 0), Err(JobError::NotFound));
}

#[test]
fn output_range_slices_and_reports_more() {
    let mut m = JobManager::new();
    let id = register(&mut m, 0);
    m.append_output(&id, b"0123456789", 4);
    let (slice, has_more, total) = m.get_output_range(&id, 2, 3).unwrap();
    assert_eq!(slice, b"234".to_vec());
    assert!(has_more);
    assert_eq!(total, 10);
    let (slice, has_more, total) = m.get_output_range(&id, 7, 100).unwrap();
    assert_eq!(slice, b"789".to_vec());
    assert!(!has_more);
    assert_eq!(total, 10);
}

#[test]
fn output_range_past_the_end_is_empty() {
    let mut m = JobManager::new();
    let id = register(&mut m, 0);
    m.append_output(&id, b"abcde", 64);
    let (slice, has_more, total) = m.get_output_range(&id, 5, 10).unwrap();
    assert!(slice.is_empty());
    assert!(!has_more);
    assert_eq!(total, 5);
    let (slice, has_more, _) = m.get_output_range(&id, 100, 1).unwrap();
    assert!(slice.is_empty());
    assert!(!has_more);
}

#[test]
fn tags_are_deduplicated_in_order() {
    let mut m = JobManager::new();
    let id = m.new_job_id();
    m.register_job_with_tags(
        id.clone(),
        "make".into(),
        "sh".into(),
        "/".into(),
        None,
        vec!["build".into(), "ci".into(), "build".into()],
        0,
    );
    let job = m.get_job(&id).unwrap();
    assert_eq!(job.tags, vec!["build".to_string(), "ci".to_string()]);
    m.add_tags(&id, vec!["ci".into(), "nightly".into()]).unwrap();
    let job = m.get_job(&id).unwrap();
    assert_eq!(
        job.tags,
        vec!["build".to_string(), "ci".to_string(), "nightly".to_string()]
    );
}

#[test]
fn delete_removes_the_job() {
    let mut m = JobManager::new();
    let id = register(&mut m, 0);
    assert!(m.delete_job(&id).is_ok());
    assert!(m.get_job(&id).is_none());
}

#[test]
fn cancel_requires_a_pid() {
    let mut m = JobManager::new();
    let id = m.new_job_id();
    m.register_job(id.clone(), "sleep 30".into(), "sh".into(), "/".into(), None, 0);
    assert_eq!(m.cancel_job(&id, 5), Err(JobError::MissingPid));
    assert_eq!(m.get_job(&id).unwrap().status, JobStatus::Running);
}

#[test]
fn cancel_with_dead_pid_reports_signal_failure() {
    let mut m = JobManager::new();
    let id = m.new_job_id();
    // a pid far above the kernel's pid_max, so no process can own it
    m.register_job(
        id.clone(),
        "sleep 30".into(),
        "sh".into(),
        "/".into(),
        Some(999_999_999),
        0,
    );
    match m.cancel_job(&id, 5) {
        Err(JobError::SignalFailed(_)) => {}
        other => panic!("expected SignalFailed, got {:?}", other),
    }
    // signal delivery failed, so the job was not transitioned
    assert_eq!(m.get_job(&id).unwrap().status, JobStatus::Running);
}

#[test]
fn cancel_refuses_finished_jobs() {
    let mut m = JobManager::new();
    let id = register(&mut m, 0);
    m.complete_job(&id, Some(0), JobStatus::Completed, 1);
    assert_eq!(m.cancel_job(&id, 5), Err(JobError::NotRunning));
}

#[test]
fn duration_and_duration_string() {
    let mut m = JobManager::new();
    let id = register(&mut m, 1_000);
    let job = m.get_job(&id).unwrap();
    assert_eq!(job.duration(3_250), Some(2_250));
    assert_eq!(job.duration_string(3_250), "2.25s (running)");
    m.complete_job(&id, Some(0), JobStatus::Completed, 2_500);
    let job = m.get_job(&id).unwrap();
    assert_eq!(job.duration(9_999), Some(1_500));
    assert_eq!(job.duration_string(9_999), "1.50s");
}

#[test]
fn duration_unknown_when_clock_ran_backwards() {
    let mut m = JobManager::new();
    let id = register(&mut m, 1_000);
    m.complete_job(&id, Some(0), JobStatus::Completed, 500);
    let job = m.get_job(&id).unwrap();
    assert_eq!(job.duration(0), None);
    assert_eq!(job.duration_string(0), "unknown");
}

#[test]
fn list_jobs_is_newest_first() {
    let mut m = JobManager::new();
    let a = m.new_job_id();
    m.register_job(a.clone(), "a".into(), "sh".into(), "/".into(), None, 10);
    let b = m.new_job_id();
    m.register_job(b.clone(), "b".into(), "sh".into(), "/".into(), None, 30);
    let c = m.new_job_id();
    m.register_job(c.clone(), "c".into(), "sh".into(), "/".into(), None, 20);
    let listed = m.list_jobs();
    let ids: Vec<&str> = listed.iter().map(|j| j.job_id.as_str()).collect();
    assert_eq!(ids, vec![b.as_str(), c.as_str(), a.as_str()]);
}

#[test]
fn list_jobs_filtered_by_status_tag_and_cwd() {
    let mut m = JobManager::new();
    let a = m.new_job_id();
    m.register_job_with_tags(
        a.clone(),
        "a".into(),
        "sh".into(),
        "/x".into(),
        None,
        vec!["build".into()],
        1,
    );
    let b = m.new_job_id();
    m.register_job(b.clone(), "b".into(), "sh".into(), "/y".into(), None, 2);
    m.complete_job(&b, Some(1), JobStatus::Failed, 3);

    let running = m.list_jobs_filtered(Some(&[JobStatus::Running]), None, None);
    assert_eq!(running.len(), 1);
    assert_eq!(running[0].job_id, a);

    let failed = m.list_jobs_filtered(Some(&[JobStatus::Failed]), None, None);
    assert_eq!(failed.len(), 1);
    assert_eq!(failed[0].job_id, b);

    let tagged = m.list_jobs_filtered(None, Some("build"), None);
    assert_eq!(tagged.len(), 1);
    assert_eq!(tagged[0].job_id, a);

    let in_y = m.list_jobs_filtered(None, None, Some("/y"));
    assert_eq!(in_y.len(), 1);
    assert_eq!(in_y[0].job_id, b);

    let none = m.list_jobs_filtered(Some(&[JobStatus::Canceled]), None, None);
    assert!(none.is_empty());
}

#[test]
fn register_with_same_id_replaces_the_record() {
    let mut m = JobManager::new();
    m.register_job("job-x".into(), "one".into(), "sh".into(), "/".into(), None, 1);
    m.register_job("job-x".into(), "two".into(), "sh".into(), "/".into(), None, 2);
    assert_eq!(m.list_jobs().len(), 1);
    assert_eq!(m.get_job("job-x").unwrap().command, "two");
}
