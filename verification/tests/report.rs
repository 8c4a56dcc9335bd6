use enhanced_terminal::jobs::{JobManager, JobStatus};
use enhanced_terminal::report::{
    apply_sort_order, default_max_jobs, default_sort_order, effective_range_limit,
    execute_result_text, job_list_text, job_status_text, output_preview, parse_status_filter,
    status_name, take_first, use_pagination, DetectBinariesInput, ExecutionResult, JobListInput,
    JobStatusInput,
};

#[test]
fn argument_defaults() {
    let s = JobStatusInput::with_defaults("job-1".to_string());
    assert_eq!(s.job_id, "job-1");
    assert!(s.incremental);
    assert_eq!(s.offset, 0);
    assert_eq!(s.limit, 0);

    let l = JobListInput::with_defaults();
    assert_eq!(l.max_jobs, 50);
    assert!(l.status_filter.is_none());
    assert_eq!(l.sort_order, "newest");
    assert_eq!(default_max_jobs(), 50);
    assert_eq!(default_sort_order(), "newest");

    let d = DetectBinariesInput::with_defaults();
    assert_eq!(d.max_concurrency, 16);
    assert_eq!(d.version_timeout_ms, 1500);
    assert!(!d.include_missing);
}

#[test]
fn pagination_mode_selection() {
    assert!(!use_pagination(0, 0));
    assert!(use_pagination(1, 0));
    assert!(use_pagination(0, 10));
    assert_eq!(effective_range_limit(0), usize::MAX);
    assert_eq!(effective_range_limit(5), 5);
}

#[test]
fn status_filter_parsing_drops_unknown_names() {
    let names = vec![
        "Running".to_string(),
        "bogus".to_string(),
        "Canceled".to_string(),
        "TimedOut".to_string(),
    ];
    assert_eq!(
        parse_status_filter(&names),
        vec![JobStatus::Running, JobStatus::Canceled, JobStatus::TimedOut]
    );
    assert!(parse_status_filter(&vec!["nothing".to_string()]).is_empty());
}

#[test]
fn status_names_are_the_wire_vocabulary() {
    assert_eq!(status_name(JobStatus::Running), "Running");
    assert_eq!(status_name(JobStatus::Completed), "Completed");
    assert_eq!(status_name(JobStatus::Failed), "Failed");
    assert_eq!(status_name(JobStatus::TimedOut), "TimedOut");
    assert_eq!(status_name(JobStatus::Canceled), "Canceled");
}

#[test]
fn denied_result_has_no_job_and_no_exit_code() {
    let r = ExecutionResult::denied_result("rm -rf /".to_string(), Some("rm -rf /".to_string()));
    assert!(r.denied);
    assert_eq!(r.exit_code, None);
    assert!(r.job_id.is_empty());
    assert!(!r.success);
    assert_eq!(
        r.denial_reason.as_deref(),
        Some("Command denied by security policy. Matched pattern: rm -rf /")
    );
}

#[test]
fn denied_text_shape() {
    let r = ExecutionResult::denied_result("rm -rf /".to_string(), Some("rm -rf /".to_string()));
    let t = execute_result_text(&r, false);
    assert_eq!(
        t,
        "Command: rm -rf /\nStatus: DENIED\n\nReason: Command denied by security policy. Matched pattern: rm -rf /\n"
    );
}

#[test]
fn finished_text_shape() {
    let r = ExecutionResult::finished(
        "job-1".to_string(),
        "echo hello".to_string(),
        "/tmp".to_string(),
        Some(0),
        "hello\n".to_string(),
        false,
        false,
        1_500,
        false,
    );
    assert!(r.success);
    let t = execute_result_text(&r, false);
    assert_eq!(
        t,
        "Job ID: job-1\nCommand: echo hello\nWorking Directory: /tmp\nDuration: 1.50s\nExit Code: 0\nSuccess: true\nStatus: COMPLETED\n\nOutput:\nhello\n"
    );
}

#[test]
fn failed_and_timed_out_text() {
    let r = ExecutionResult::finished(
        "job-2".to_string(),
        "false".to_string(),
        "/".to_string(),
        Some(1),
        String::new(),
        false,
        false,
        100,
        false,
    );
    let t = execute_result_text(&r, false);
    assert!(t.contains("Status: FAILED\n"));
    assert!(t.contains("Success: false\n"));

    let r = ExecutionResult::finished(
        "job-3".to_string(),
        "sleep 99".to_string(),
        "/".to_string(),
        None,
        String::new(),
        false,
        true,
        3_000,
        false,
    );
    let t = execute_result_text(&r, false);
    assert!(t.contains("Status: TIMED OUT\n"));
}

#[test]
fn backgrounded_text_reports_streaming_mode() {
    let r = ExecutionResult::backgrounded(
        "job-4".to_string(),
        "tail -f x".to_string(),
        "/".to_string(),
        "part".to_string(),
        false,
        200,
        false,
    );
    let t = execute_result_text(&r, true);
    assert!(t.contains("Status: STREAMING MODE\n"));
    assert!(t.contains("Duration: 0.20s (switched to background)\n"));
    assert!(t.contains("\nPartial Output:\npart"));

    let t = execute_result_text(&r, false);
    assert!(t.contains("Status: SWITCHED TO BACKGROUND\n"));
}

#[test]
fn status_text_shape() {
    let mut m = JobManager::new();
    let id = m.new_job_id();
    m.register_job(id.clone(), "echo hi".into(), "bash".into(), "/tmp".into(), Some(7), 1_000);
    m.append_output(&id, b"hi\n", 64);
    m.complete_job(&id, Some(0), JobStatus::Completed, 2_000);
    let job = m.get_job(&id).unwrap();
    let t = job_status_text(&job, false, 0, 0, "hi\n", None, None, 5_000);
    assert_eq!(
        t,
        "Job ID: job-1\nCommand: echo hi\nSummary: echo hi\nShell: bash\nWorking Directory: /tmp\nStatus: Completed\nDuration: 1.00s\nExit Code: 0\nPID: 7\nOutput Mode: Full\n\nOutput:\nhi\n"
    );
}

#[test]
fn status_text_paginated_reports_next_offset() {
    let mut m = JobManager::new();
    let id = m.new_job_id();
    m.register_job(id.clone(), "cat big".into(), "sh".into(), "/".into(), None, 0);
    m.append_output(&id, b"0123456789", 4);
    let job = m.get_job(&id).unwrap();
    let t = job_status_text(&job, true, 2, 3, "234", Some(10), Some(true), 50);
    assert!(t.contains("Output Mode: Paginated (offset: 2, limit: 3)\n"));
    assert!(t.contains("Total Output Length: 10 bytes\n"));
    assert!(t.contains("Has More: true\n"));
    assert!(t.contains("\n\n[More output available. Next offset: 5]"));
}

#[test]
fn status_text_full_mode_notes_truncation() {
    let mut m = JobManager::new();
    let id = m.new_job_id();
    m.register_job(id.clone(), "yes".into(), "sh".into(), "/".into(), None, 0);
    m.append_output(&id, b"yyyyy", 2);
    let job = m.get_job(&id).unwrap();
    let t = job_status_text(&job, false, 0, 0, "yy", None, None, 1);
    assert!(t.ends_with("\n\n[Output truncated - showing first part only]"));
}

#[test]
fn preview_elides_and_trims() {
    assert_eq!(output_preview("  hello  "), "hello");
    let long = "a".repeat(150);
    let p = output_preview(&long);
    assert_eq!(p, format!("{}...", "a".repeat(100)));
    assert_eq!(output_preview(""), "");
}

#[test]
fn list_text_empty_and_filled() {
    let jobs = Vec::new();
    let previews = Vec::new();
    assert_eq!(job_list_text(&jobs, &previews, 0), "No jobs found.");

    let mut m = JobManager::new();
    let id = m.new_job_id();
    m.register_job(id.clone(), "make".into(), "sh".into(), "/src".into(), None, 1_000);
    let jobs = m.list_jobs();
    let previews = vec!["building".to_string()];
    let t = job_list_text(&jobs, &previews, 2_000);
    assert_eq!(
        t,
        "Found 1 job(s):\n\nJob ID: job-1\n  Summary: make\n  Status: Running\n  CWD: /src\n  Shell: sh\n  Duration: 1.00s (running)\n  Output Preview: building\n\n"
    );
}

#[test]
fn sort_order_and_bound() {
    let mut m = JobManager::new();
    for (cmd, t) in [("a", 10u64), ("b", 20), ("c", 30)] {
        let id = m.new_job_id();
        m.register_job(id, cmd.to_string(), "sh".into(), "/".into(), None, t);
    }
    let newest = m.list_jobs();
    let ids: Vec<String> = newest.iter().map(|j| j.command.clone()).collect();
    assert_eq!(ids, vec!["c", "b", "a"]);

    let oldest = apply_sort_order(m.list_jobs(), true);
    let ids: Vec<String> = oldest.iter().map(|j| j.command.clone()).collect();
    assert_eq!(ids, vec!["a", "b", "c"]);

    let bounded = take_first(m.list_jobs(), 2);
    assert_eq!(bounded.len(), 2);
    assert_eq!(bounded[0].command, "c");
    let all = take_first(m.list_jobs(), 99);
    assert_eq!(all.len(), 3);
}
