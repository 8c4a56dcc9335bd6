//! The tool facade: typed argument records, execution results, and the
//! exact text shaping of tool responses.
//!
//! Everything here is pure: the transport decodes requests into these
//! records, the application layer runs the registry and scheduler, and
//! these functions turn the outcome into the response text.

use vstd::prelude::*;

use crate::jobs::{models_of, JobRecord, JobStatus};
use crate::text::{decimal_digits, int_decimal, i32_to_string, str_eq, u64_to_string};
use vstd::string::StringSliceAdditionalSpecFns;

verus! {

// ---------------------------------------------------------------------------
// Argument records
// ---------------------------------------------------------------------------

/// Arguments of a job status query.
pub struct JobStatusInput {
    /// Job id to query.
    pub job_id: String,
    /// If true, return only new output since the last check (default: true).
    pub incremental: bool,
    /// Offset for pagination (bytes into output, default: 0).
    pub offset: usize,
    /// Limit for pagination (bytes to return, default: 0 = all).
    pub limit: usize,
}

impl JobStatusInput {
    /// A query for `job_id` with the default mode arguments.
    pub fn with_defaults(job_id: String) -> (r: Self)
        ensures
            r.job_id == job_id,
            r.incremental,
            r.offset == 0usize,
            r.limit == 0usize,
    {
        JobStatusInput { job_id, incremental: true, offset: 0, limit: 0 }
    }
}

/// Arguments of a job listing.
pub struct JobListInput {
    /// Maximum number of jobs to return (default: 50).
    pub max_jobs: usize,
    /// Filter by job status names (e.g., ["Running", "Completed"]).
    pub status_filter: Option<Vec<String>>,
    /// Filter by tag.
    pub tag_filter: Option<String>,
    /// Filter by working directory.
    pub cwd_filter: Option<String>,
    /// Sort order: "newest" (default) or "oldest".
    pub sort_order: String,
}

/// The default job listing bound.
pub fn default_max_jobs() -> (r: usize)
    ensures
        r == 50usize,
{
    50
}

/// The default sort order.
pub fn default_sort_order() -> (r: String)
    ensures
        r@ == "newest"@,
{
    String::from_str("newest")
}

impl JobListInput {
    /// A listing with every argument at its default.
    pub fn with_defaults() -> (r: Self)
        ensures
            r.max_jobs == 50usize,
            r.status_filter is None,
            r.tag_filter is None,
            r.cwd_filter is None,
            r.sort_order@ == "newest"@,
    {
        JobListInput {
            max_jobs: default_max_jobs(),
            status_filter: None,
            tag_filter: None,
            cwd_filter: None,
            sort_order: default_sort_order(),
        }
    }
}

/// Arguments of a job cancellation.
pub struct JobCancelInput {
    /// Job id to cancel.
    pub job_id: String,
}

/// Arguments of a binary detection run.
pub struct DetectBinariesInput {
    /// Optional filter for specific categories.
    pub filter_categories: Option<Vec<String>>,
    /// Maximum concurrent checks (default: 16).
    pub max_concurrency: usize,
    /// Version detection timeout in milliseconds (default: 1500).
    pub version_timeout_ms: u64,
    /// Include missing binaries in output (default: false).
    pub include_missing: bool,
}

impl DetectBinariesInput {
    /// A detection run with every argument at its default.
    pub fn with_defaults() -> (r: Self)
        ensures
            r.filter_categories is None,
            r.max_concurrency == 16usize,
            r.version_timeout_ms == 1500u64,
            !r.include_missing,
    {
        DetectBinariesInput {
            filter_categories: None,
            max_concurrency: 16,
            version_timeout_ms: 1500,
            include_missing: false,
        }
    }
}

// ---------------------------------------------------------------------------
// Execution results
// ---------------------------------------------------------------------------

/// What one execution invocation reports back.
pub struct ExecutionResult {
    pub job_id: String,
    pub command: String,
    pub working_directory: String,
    pub exit_code: Option<i32>,
    pub success: bool,
    pub output: String,
    pub truncated: bool,
    pub timed_out: bool,
    pub switched_to_async: bool,
    pub denied: bool,
    pub denial_reason: Option<String>,
    pub duration_ms: Option<u64>,
    /// What was prepended to sudo invocations ("-n" when wrapping applied).
    pub sudo_wrapper_applied: Option<String>,
}

/// The denial message: the policy sentence naming the matched pattern.
pub open spec fn denial_reason_spec(matched: Option<Seq<char>>) -> Seq<char> {
    "Command denied by security policy. Matched pattern: "@ + (match matched {
        Some(p) => p,
        None => "unknown"@,
    })
}

impl ExecutionResult {
    /// The result of a refused command: no job exists, no exit code, not a
    /// success; only the command and the denial reason are filled in.
    pub fn denied_result(command: String, matched_pattern: Option<String>) -> (r: ExecutionResult)
        ensures
            r.denied,
            r.exit_code is None,
            !r.success,
            !r.switched_to_async,
            !r.timed_out,
            !r.truncated,
            r.job_id@ == Seq::<char>::empty(),
            r.working_directory@ == Seq::<char>::empty(),
            r.output@ == Seq::<char>::empty(),
            r.command == command,
            r.duration_ms is None,
            r.sudo_wrapper_applied is None,
            match r.denial_reason {
                Some(reason) => reason@ == denial_reason_spec(match matched_pattern {
                    Some(p) => Some(p@),
                    None => None,
                }),
                None => false,
            },
    {
        let mut reason = String::from_str("Command denied by security policy. Matched pattern: ");
        match matched_pattern {
            Some(p) => reason.append(p.as_str()),
            None => reason.append("unknown"),
        }
        ExecutionResult {
            job_id: String::new(),
            command,
            working_directory: String::new(),
            exit_code: None,
            success: false,
            output: String::new(),
            truncated: false,
            timed_out: false,
            switched_to_async: false,
            denied: true,
            denial_reason: Some(reason),
            duration_ms: None,
            sudo_wrapper_applied: None,
        }
    }

    /// The result of a synchronously finished command: success exactly on
    /// exit code zero.
    pub fn finished(
        job_id: String,
        command: String,
        working_directory: String,
        exit_code: Option<i32>,
        output: String,
        truncated: bool,
        timed_out: bool,
        duration_ms: u64,
        sudo_used: bool,
    ) -> (r: ExecutionResult)
        ensures
            r.job_id == job_id,
            r.command == command,
            r.working_directory == working_directory,
            r.exit_code == exit_code,
            r.success == (exit_code == Some(0i32)),
            r.output == output,
            r.truncated == truncated,
            r.timed_out == timed_out,
            !r.switched_to_async,
            !r.denied,
            r.denial_reason is None,
            r.duration_ms == Some(duration_ms),
            sudo_used ==> match r.sudo_wrapper_applied {
                Some(w) => w@ == "-n"@,
                None => false,
            },
            !sudo_used ==> r.sudo_wrapper_applied is None,
    {
        let success = match exit_code {
            Some(c) => c == 0,
            None => false,
        };
        ExecutionResult {
            job_id,
            command,
            working_directory,
            exit_code,
            success,
            output,
            truncated,
            timed_out,
            switched_to_async: false,
            denied: false,
            denial_reason: None,
            duration_ms: Some(duration_ms),
            sudo_wrapper_applied: if sudo_used {
                Some(String::from_str("-n"))
            } else {
                None
            },
        }
    }

    /// The result of a command handed off to the background monitor: no
    /// exit code yet, not a success, not timed out.
    pub fn backgrounded(
        job_id: String,
        command: String,
        working_directory: String,
        output: String,
        truncated: bool,
        duration_ms: u64,
        sudo_used: bool,
    ) -> (r: ExecutionResult)
        ensures
            r.job_id == job_id,
            r.command == command,
            r.working_directory == working_directory,
            r.exit_code is None,
            !r.success,
            r.output == output,
            r.truncated == truncated,
            !r.timed_out,
            r.switched_to_async,
            !r.denied,
            r.denial_reason is None,
            r.duration_ms == Some(duration_ms),
            sudo_used ==> match r.sudo_wrapper_applied {
                Some(w) => w@ == "-n"@,
                None => false,
            },
            !sudo_used ==> r.sudo_wrapper_applied is None,
    {
        ExecutionResult {
            job_id,
            command,
            working_directory,
            exit_code: None,
            success: false,
            output,
            truncated,
            timed_out: false,
            switched_to_async: true,
            denied: false,
            denial_reason: None,
            duration_ms: Some(duration_ms),
            sudo_wrapper_applied: if sudo_used {
                Some(String::from_str("-n"))
            } else {
                None
            },
        }
    }
}

// ---------------------------------------------------------------------------
// Status query modes and status names
// ---------------------------------------------------------------------------

/// A status query is paginated as soon as an offset or a limit is given.
pub fn use_pagination(offset: usize, limit: usize) -> (r: bool)
    ensures
        r == (offset > 0 || limit > 0),
{
    offset > 0 || limit > 0
}

/// The byte limit a pagination request means: zero stands for "all".
pub fn effective_range_limit(limit: usize) -> (r: usize)
    ensures
        limit == 0 ==> r == usize::MAX,
        limit != 0 ==> r == limit,
{
    if limit == 0 {
        usize::MAX
    } else {
        limit
    }
}

/// The status a wire name denotes, if any.
pub open spec fn status_of_name(s: Seq<char>) -> Option<JobStatus> {
    if s == "Running"@ {
        Some(JobStatus::Running)
    } else if s == "Completed"@ {
        Some(JobStatus::Completed)
    } else if s == "Failed"@ {
        Some(JobStatus::Failed)
    } else if s == "TimedOut"@ {
        Some(JobStatus::TimedOut)
    } else if s == "Canceled"@ {
        Some(JobStatus::Canceled)
    } else {
        None
    }
}

/// The statuses the wire names denote; unknown names are dropped silently.
pub open spec fn parse_statuses_spec(names: Seq<Seq<char>>) -> Seq<JobStatus>
    decreases names.len(),
{
    if names.len() == 0 {
        Seq::empty()
    } else {
        let rest = parse_statuses_spec(names.drop_first());
        match status_of_name(names[0]) {
            Some(st) => seq![st] + rest,
            None => rest,
        }
    }
}

/// Parse a status filter from wire names, dropping unknown ones.
pub fn parse_status_filter(names: &Vec<String>) -> (r: Vec<JobStatus>)
    ensures
        r@ == parse_statuses_spec(names.deep_view()),
{
    let ghost all = names.deep_view();
    let mut out: Vec<JobStatus> = Vec::new();
    let n = names.len();
    let mut i: usize = 0;
    proof {
        assert(all.subrange(0, all.len() as int) =~= all);
    }
    while i < n
        invariant
            i <= n,
            n == names@.len(),
            all == names.deep_view(),
            parse_statuses_spec(all) == out@ + parse_statuses_spec(
                all.subrange(i as int, all.len() as int),
            ),
        decreases n - i,
    {
        let ghost rest = all.subrange(i as int, all.len() as int);
        let ghost out0 = out@;
        proof {
            assert(rest[0] == all[i as int]);
            assert(rest.drop_first() =~= all.subrange(i + 1, all.len() as int));
        }
        let s = names[i].as_str();
        if str_eq(s, "Running") {
            out.push(JobStatus::Running);
        } else if str_eq(s, "Completed") {
            out.push(JobStatus::Completed);
        } else if str_eq(s, "Failed") {
            out.push(JobStatus::Failed);
        } else if str_eq(s, "TimedOut") {
            out.push(JobStatus::TimedOut);
        } else if str_eq(s, "Canceled") {
            out.push(JobStatus::Canceled);
        }
        proof {
            match status_of_name(all[i as int]) {
                Some(st) => {
                    assert(out@ =~= out0.push(st));
                    assert(out0.push(st) =~= out0 + seq![st]);
                },
                None => {},
            }
            assert(parse_statuses_spec(all) == out@ + parse_statuses_spec(
                all.subrange(i + 1, all.len() as int),
            ));
        }
        i = i + 1;
    }
    proof {
        assert(all.subrange(n as int, all.len() as int) =~= Seq::<Seq<char>>::empty());
        assert(out@ + Seq::<JobStatus>::empty() =~= out@);
    }
    out
}

/// The wire name of a status (exact spelling of the status vocabulary).
pub open spec fn status_name_spec(st: JobStatus) -> Seq<char> {
    match st {
        JobStatus::Running => "Running"@,
        JobStatus::Completed => "Completed"@,
        JobStatus::Failed => "Failed"@,
        JobStatus::TimedOut => "TimedOut"@,
        JobStatus::Canceled => "Canceled"@,
    }
}

/// Render a status under its wire name.
pub fn status_name(st: JobStatus) -> (r: String)
    ensures
        r@ == status_name_spec(st),
{
    match st {
        JobStatus::Running => String::from_str("Running"),
        JobStatus::Completed => String::from_str("Completed"),
        JobStatus::Failed => String::from_str("Failed"),
        JobStatus::TimedOut => String::from_str("TimedOut"),
        JobStatus::Canceled => String::from_str("Canceled"),
    }
}

// ---------------------------------------------------------------------------
// Listing order and bound
// ---------------------------------------------------------------------------

/// Keep the newest-first order, or reverse it for "oldest".
pub fn apply_sort_order(jobs: Vec<JobRecord>, oldest_first: bool) -> (r: Vec<JobRecord>)
    ensures
        oldest_first ==> r@ == jobs@.reverse(),
        !oldest_first ==> r@ == jobs@,
{
    if !oldest_first {
        return jobs;
    }
    let mut working = jobs;
    let ghost input = working@;
    let mut out: Vec<JobRecord> = Vec::new();
    while working.len() > 0
        invariant
            out@.len() + working@.len() == input.len(),
            working@ == input.subrange(0, working@.len() as int),
            forall|k: int|
                0 <= k < out@.len() ==> out@[k] == input[input.len() - 1 - k],
        decreases working@.len(),
    {
        let last = working.pop();
        match last {
            Some(rec) => {
                out.push(rec);
            },
            None => {
                proof {
                    assert(false);
                }
            },
        }
    }
    proof {
        assert(out@ =~= input.reverse());
    }
    out
}

/// At most the first `n` entries.
pub fn take_first(jobs: Vec<JobRecord>, n: usize) -> (r: Vec<JobRecord>)
    ensures
        n <= jobs@.len() ==> r@ == jobs@.subrange(0, n as int),
        n > jobs@.len() ==> r@ == jobs@,
{
    let mut jobs = jobs;
    jobs.truncate(n);
    jobs
}

// ---------------------------------------------------------------------------
// Response text: execute
// ---------------------------------------------------------------------------

/// The duration line of an execution response, when a duration is known.
pub open spec fn duration_line_spec(duration_ms: Option<u64>, backgrounded: bool) -> Seq<char> {
    match duration_ms {
        Some(ms) => if backgrounded {
            "Duration: "@ + JobRecord::seconds_text(ms) + "s (switched to background)\n"@
        } else {
            "Duration: "@ + JobRecord::seconds_text(ms) + "s\n"@
        },
        None => Seq::empty(),
    }
}

/// The whole text of an execution response.
pub open spec fn execute_text_spec(r: ExecutionResult, streaming: bool) -> Seq<char> {
    if r.denied {
        "Command: "@ + r.command@ + "\n"@ + "Status: DENIED\n\nReason: "@ + (match r.denial_reason {
            Some(s) => s@,
            None => "Security policy violation"@,
        }) + "\n"@
    } else {
        let head = "Job ID: "@ + r.job_id@ + "\n"@ + "Command: "@ + r.command@ + "\n"@
            + "Working Directory: "@ + r.working_directory@ + "\n"@;
        if r.switched_to_async {
            let status = if streaming {
                "Status: STREAMING MODE\n"@
                    + "The command is running in background with streaming enabled.\n"@
                    + "Use enhanced_terminal_job_status with incremental=true to poll for real-time updates.\n"@
                    + "Each call will return only new output since the last check.\n"@
            } else {
                "Status: SWITCHED TO BACKGROUND\n"@
                    + "The command is still running. Use enhanced_terminal_job_status to check progress.\n"@
            };
            head + duration_line_spec(r.duration_ms, true) + status + "\nPartial Output:\n"@
                + r.output@ + (if r.truncated {
                "\n\n[Output preview truncated - use enhanced_terminal_job_status to get full output]"@
            } else {
                Seq::empty()
            })
        } else {
            let exit_line = match r.exit_code {
                Some(c) => "Exit Code: "@ + int_decimal(c as int) + "\n"@,
                None => Seq::empty(),
            };
            let success_line = "Success: "@ + (if r.success {
                "true"@
            } else {
                "false"@
            }) + "\n"@;
            let status = if r.timed_out {
                "Status: TIMED OUT\n"@
            } else if r.success {
                "Status: COMPLETED\n"@
            } else {
                "Status: FAILED\n"@
            };
            head + duration_line_spec(r.duration_ms, false) + exit_line + success_line + status
                + "\nOutput:\n"@ + r.output@ + (if r.truncated {
                "\n\n[Output truncated due to size limit]"@
            } else {
                Seq::empty()
            })
        }
    }
}

/// Render the text of an execution response.  `streaming` selects the
/// streaming-mode wording for a backgrounded invocation.
#[verifier::rlimit(80)]
pub fn execute_result_text(r: &ExecutionResult, streaming: bool) -> (t: String)
    ensures
        t@ == execute_text_spec(*r, streaming),
{
    if r.denied {
        let mut s = String::from_str("Command: ");
        s.append(r.command.as_str());
        s.append("\n");
        s.append("Status: DENIED\n\nReason: ");
        match &r.denial_reason {
            Some(reason) => s.append(reason.as_str()),
            None => s.append("Security policy violation"),
        }
        s.append("\n");
        assert(s@ =~= execute_text_spec(*r, streaming));
        return s;
    }
    let mut s = String::from_str("Job ID: ");
    s.append(r.job_id.as_str());
    s.append("\n");
    s.append("Command: ");
    s.append(r.command.as_str());
    s.append("\n");
    s.append("Working Directory: ");
    s.append(r.working_directory.as_str());
    s.append("\n");
    if r.switched_to_async {
        match r.duration_ms {
            Some(ms) => {
                s.append("Duration: ");
                let d = crate::jobs::seconds_string(ms);
                s.append(d.as_str());
                s.append("s (switched to background)\n");
            },
            None => {},
        }
        if streaming {
            s.append("Status: STREAMING MODE\n");
            s.append("The command is running in background with streaming enabled.\n");
            s.append(
                "Use enhanced_terminal_job_status with incremental=true to poll for real-time updates.\n",
            );
            s.append("Each call will return only new output since the last check.\n");
        } else {
            s.append("Status: SWITCHED TO BACKGROUND\n");
            s.append(
                "The command is still running. Use enhanced_terminal_job_status to check progress.\n",
            );
        }
        s.append("\nPartial Output:\n");
        s.append(r.output.as_str());
        if r.truncated {
            s.append(
                "\n\n[Output preview truncated - use enhanced_terminal_job_status to get full output]",
            );
        }
    } else {
        match r.duration_ms {
            Some(ms) => {
                s.append("Duration: ");
                let d = crate::jobs::seconds_string(ms);
                s.append(d.as_str());
                s.append("s\n");
            },
            None => {},
        }
        match r.exit_code {
            Some(c) => {
                s.append("Exit Code: ");
                let d = i32_to_string(c);
                s.append(d.as_str());
                s.append("\n");
            },
            None => {},
        }
        s.append("Success: ");
        if r.success {
            s.append("true");
        } else {
            s.append("false");
        }
        s.append("\n");
        if r.timed_out {
            s.append("Status: TIMED OUT\n");
        } else if r.success {
            s.append("Status: COMPLETED\n");
        } else {
            s.append("Status: FAILED\n");
        }
        s.append("\nOutput:\n");
        s.append(r.output.as_str());
        if r.truncated {
            s.append("\n\n[Output truncated due to size limit]");
        }
    }
    assert(s@ =~= execute_text_spec(*r, streaming));
    s
}

// ---------------------------------------------------------------------------
// Response text: job status
// ---------------------------------------------------------------------------

/// The rest of a comma-separated join.
pub open spec fn join_tail_spec(parts: Seq<Seq<char>>) -> Seq<char>
    decreases parts.len(),
{
    if parts.len() == 0 {
        Seq::empty()
    } else {
        ", "@ + parts[0] + join_tail_spec(parts.drop_first())
    }
}

/// Parts joined with ", ".
pub open spec fn join_comma_spec(parts: Seq<Seq<char>>) -> Seq<char> {
    if parts.len() == 0 {
        Seq::empty()
    } else {
        parts[0] + join_tail_spec(parts.drop_first())
    }
}

/// Join strings with ", ".
pub fn join_comma(parts: &Vec<String>) -> (r: String)
    ensures
        r@ == join_comma_spec(parts.deep_view()),
{
    let ghost all = parts.deep_view();
    let n = parts.len();
    if n == 0 {
        return String::new();
    }
    let mut s = parts[0].clone();
    let mut i: usize = 1;
    proof {
        assert(all.subrange(1, all.len() as int) =~= all.drop_first());
    }
    while i < n
        invariant
            1 <= i <= n,
            n == parts@.len(),
            all == parts.deep_view(),
            join_comma_spec(all) == s@ + join_tail_spec(all.subrange(i as int, all.len() as int)),
        decreases n - i,
    {
        let ghost rest = all.subrange(i as int, all.len() as int);
        proof {
            assert(rest[0] == all[i as int]);
            assert(rest.drop_first() =~= all.subrange(i + 1, all.len() as int));
        }
        s.append(", ");
        s.append(parts[i].as_str());
        i = i + 1;
    }
    proof {
        assert(all.subrange(n as int, all.len() as int) =~= Seq::<Seq<char>>::empty());
        assert(s@ + Seq::<char>::empty() =~= s@);
    }
    s
}

/// The identity and metadata lines of a status response.
pub open spec fn status_head_spec(m: crate::jobs::JobModel, now_ms: u64) -> Seq<char> {
    "Job ID: "@ + m.job_id + "\n"@ + "Command: "@ + m.command + "\n"@ + "Summary: "@ + m.summary
        + "\n"@ + "Shell: "@ + m.shell + "\n"@ + "Working Directory: "@ + m.cwd + "\n"@
        + "Status: "@ + status_name_spec(m.status) + "\n"@ + (if m.tags.len() > 0 {
        "Tags: "@ + join_comma_spec(m.tags) + "\n"@
    } else {
        Seq::empty()
    }) + "Duration: "@ + JobRecord::duration_string_spec(m, now_ms) + "\n"@ + (match m.exit_code {
        Some(c) => "Exit Code: "@ + int_decimal(c as int) + "\n"@,
        None => Seq::empty(),
    }) + (match m.pid {
        Some(p) => "PID: "@ + decimal_digits(p as nat) + "\n"@,
        None => Seq::empty(),
    })
}

/// Render the identity and metadata lines of a status response.
#[verifier::rlimit(80)]
fn status_head_text(job: &JobRecord, now_ms: u64) -> (t: String)
    ensures
        t@ == status_head_spec(job@, now_ms),
{
    let mut s = String::from_str("Job ID: ");
    s.append(job.job_id.as_str());
    s.append("\n");
    s.append("Command: ");
    s.append(job.command.as_str());
    s.append("\n");
    s.append("Summary: ");
    s.append(job.summary.as_str());
    s.append("\n");
    s.append("Shell: ");
    s.append(job.shell.as_str());
    s.append("\n");
    s.append("Working Directory: ");
    s.append(job.cwd.as_str());
    s.append("\n");
    s.append("Status: ");
    let sn = status_name(job.status);
    s.append(sn.as_str());
    s.append("\n");
    if job.tags.len() > 0 {
        s.append("Tags: ");
        let joined = join_comma(&job.tags);
        s.append(joined.as_str());
        s.append("\n");
    }
    s.append("Duration: ");
    let dur = job.duration_string(now_ms);
    s.append(dur.as_str());
    s.append("\n");
    match job.exit_code {
        Some(c) => {
            s.append("Exit Code: ");
            let d = i32_to_string(c);
            s.append(d.as_str());
            s.append("\n");
        },
        None => {},
    }
    match job.pid {
        Some(p) => {
            s.append("PID: ");
            let d = u64_to_string(p as u64);
            s.append(d.as_str());
            s.append("\n");
        },
        None => {},
    }
    assert(s@ =~= status_head_spec(job@, now_ms));
    s
}

/// The "Output Mode" block of a status response.
pub open spec fn output_mode_spec(
    incremental: bool,
    offset: int,
    limit: int,
    total_length: Option<int>,
    has_more: Option<bool>,
) -> Seq<char> {
    if offset > 0 || limit > 0 {
        "Output Mode: Paginated (offset: "@ + decimal_digits(offset as nat) + ", limit: "@ + (
        if limit == 0 {
            "all"@
        } else {
            decimal_digits(limit as nat)
        }) + ")\n"@ + (match total_length {
            Some(t) => "Total Output Length: "@ + decimal_digits(t as nat) + " bytes\n"@,
            None => Seq::empty(),
        }) + (match has_more {
            Some(m) => "Has More: "@ + (if m {
                "true"@
            } else {
                "false"@
            }) + "\n"@,
            None => Seq::empty(),
        })
    } else if incremental {
        "Output Mode: Incremental (new since last check)\n"@
    } else {
        "Output Mode: Full\n"@
    }
}

/// Render the "Output Mode" block.
#[verifier::rlimit(80)]
fn output_mode_text(
    incremental: bool,
    offset: usize,
    limit: usize,
    total_length: Option<usize>,
    has_more: Option<bool>,
) -> (t: String)
    ensures
        t@ == output_mode_spec(
            incremental,
            offset as int,
            limit as int,
            match total_length {
                Some(x) => Some(x as int),
                None => None,
            },
            has_more,
        ),
{
    if offset > 0 || limit > 0 {
        let mut s = String::from_str("Output Mode: Paginated (offset: ");
        let d = u64_to_string(offset as u64);
        s.append(d.as_str());
        s.append(", limit: ");
        if limit == 0 {
            s.append("all");
        } else {
            let d2 = u64_to_string(limit as u64);
            s.append(d2.as_str());
        }
        s.append(")\n");
        match total_length {
            Some(t) => {
                s.append("Total Output Length: ");
                let d3 = u64_to_string(t as u64);
                s.append(d3.as_str());
                s.append(" bytes\n");
            },
            None => {},
        }
        match has_more {
            Some(m) => {
                s.append("Has More: ");
                if m {
                    s.append("true");
                } else {
                    s.append("false");
                }
                s.append("\n");
            },
            None => {},
        }
        assert(s@ =~= output_mode_spec(
            incremental,
            offset as int,
            limit as int,
            match total_length {
                Some(x) => Some(x as int),
                None => None,
            },
            has_more,
        ));
        s
    } else if incremental {
        String::from_str("Output Mode: Incremental (new since last check)\n")
    } else {
        String::from_str("Output Mode: Full\n")
    }
}

/// The notes after the output: the truncation notice of the full mode, and
/// the next-offset pointer of the paginated mode.
pub open spec fn status_notes_spec(
    m: crate::jobs::JobModel,
    incremental: bool,
    offset: int,
    limit: int,
    shown_bytes: int,
    total_length: Option<int>,
    has_more: Option<bool>,
) -> Seq<char> {
    let pagination = offset > 0 || limit > 0;
    (if m.truncated && !incremental && !pagination {
        "\n\n[Output truncated - showing first part only]"@
    } else {
        Seq::empty()
    }) + (if pagination && has_more == Some(true) && total_length is Some {
        "\n\n[More output available. Next offset: "@ + decimal_digits((offset + shown_bytes) as nat)
            + "]"@
    } else {
        Seq::empty()
    })
}

/// The whole text of a status response.  `shown` is the (already decoded)
/// output selected by the query mode; `shown_bytes` its byte length.
pub open spec fn job_status_text_spec(
    m: crate::jobs::JobModel,
    incremental: bool,
    offset: int,
    limit: int,
    shown: Seq<char>,
    shown_bytes: int,
    total_length: Option<int>,
    has_more: Option<bool>,
    now_ms: u64,
) -> Seq<char> {
    status_head_spec(m, now_ms) + output_mode_spec(incremental, offset, limit, total_length, has_more)
        + "\nOutput:\n"@ + shown + status_notes_spec(
        m,
        incremental,
        offset,
        limit,
        shown_bytes,
        total_length,
        has_more,
    )
}

/// Render the text of a status response.
#[verifier::rlimit(80)]
pub fn job_status_text(
    job: &JobRecord,
    incremental: bool,
    offset: usize,
    limit: usize,
    shown: &str,
    total_length: Option<usize>,
    has_more: Option<bool>,
    now_ms: u64,
) -> (t: String)
    requires
        offset + shown.spec_bytes().len() <= usize::MAX,
    ensures
        t@ == job_status_text_spec(
            job@,
            incremental,
            offset as int,
            limit as int,
            shown@,
            shown.spec_bytes().len() as int,
            match total_length {
                Some(x) => Some(x as int),
                None => None,
            },
            has_more,
            now_ms,
        ),
{
    let pagination = offset > 0 || limit > 0;
    let mut s = status_head_text(job, now_ms);
    let mode = output_mode_text(incremental, offset, limit, total_length, has_more);
    s.append(mode.as_str());
    s.append("\nOutput:\n");
    s.append(shown);
    let ghost before_notes = s@;
    if job.truncated && !incremental && !pagination {
        s.append("\n\n[Output truncated - showing first part only]");
    }
    let more = match has_more {
        Some(m) => m,
        None => false,
    };
    if pagination && more && total_length.is_some() {
        s.append("\n\n[More output available. Next offset: ");
        let next = offset + shown.len();
        let d = u64_to_string(next as u64);
        s.append(d.as_str());
        s.append("]");
    }
    proof {
        let notes = status_notes_spec(
            job@,
            incremental,
            offset as int,
            limit as int,
            shown.spec_bytes().len() as int,
            match total_length {
                Some(x) => Some(x as int),
                None => None,
            },
            has_more,
        );
        assert(s@ =~= before_notes + notes);
    }
    s
}


// ---------------------------------------------------------------------------
// Response text: job list
// ---------------------------------------------------------------------------

/// The first 100 characters of the output, elided and trimmed, as the
/// listing preview shows it.
pub open spec fn preview_spec(s: Seq<char>) -> Seq<char> {
    crate::text::trim_spec(
        if s.len() > 100 {
            s.subrange(0, 100) + "..."@
        } else {
            s
        },
    )
}

/// Compute the listing preview of an output text.
pub fn output_preview(s: &str) -> (r: String)
    ensures
        r@ == preview_spec(s@),
{
    let n = s.unicode_len();
    if n > 100 {
        let mut p = String::from_str(s.substring_char(0, 100));
        p.append("...");
        let t = crate::text::str_trim(p.as_str());
        String::from_str(t)
    } else {
        let t = crate::text::str_trim(s);
        String::from_str(t)
    }
}

/// One block of the listing.
pub open spec fn list_block_spec(m: crate::jobs::JobModel, preview: Seq<char>, now_ms: u64) -> Seq<
    char,
> {
    "Job ID: "@ + m.job_id + "\n"@ + "  Summary: "@ + m.summary + "\n"@ + "  Status: "@
        + status_name_spec(m.status) + "\n"@ + "  CWD: "@ + m.cwd + "\n"@ + "  Shell: "@ + m.shell
        + "\n"@ + (if m.tags.len() > 0 {
        "  Tags: "@ + join_comma_spec(m.tags) + "\n"@
    } else {
        Seq::empty()
    }) + (match m.exit_code {
        Some(c) => "  Exit Code: "@ + int_decimal(c as int) + "\n"@,
        None => Seq::empty(),
    }) + "  Duration: "@ + JobRecord::duration_string_spec(m, now_ms) + "\n"@
        + "  Output Preview: "@ + preview_spec(preview) + "\n"@ + "\n"@
}

/// Render one block of the listing.
#[verifier::rlimit(80)]
fn list_block_text(job: &JobRecord, preview: &String, now_ms: u64) -> (t: String)
    ensures
        t@ == list_block_spec(job@, preview@, now_ms),
{
    let mut s = String::from_str("Job ID: ");
    s.append(job.job_id.as_str());
    s.append("\n");
    s.append("  Summary: ");
    s.append(job.summary.as_str());
    s.append("\n");
    s.append("  Status: ");
    let sn = status_name(job.status);
    s.append(sn.as_str());
    s.append("\n");
    s.append("  CWD: ");
    s.append(job.cwd.as_str());
    s.append("\n");
    s.append("  Shell: ");
    s.append(job.shell.as_str());
    s.append("\n");
    if job.tags.len() > 0 {
        s.append("  Tags: ");
        let joined = join_comma(&job.tags);
        s.append(joined.as_str());
        s.append("\n");
    }
    match job.exit_code {
        Some(c) => {
            s.append("  Exit Code: ");
            let d = i32_to_string(c);
            s.append(d.as_str());
            s.append("\n");
        },
        None => {},
    }
    s.append("  Duration: ");
    let dur = job.duration_string(now_ms);
    s.append(dur.as_str());
    s.append("\n");
    s.append("  Output Preview: ");
    let pv = output_preview(preview.as_str());
    s.append(pv.as_str());
    s.append("\n");
    s.append("\n");
    assert(s@ =~= list_block_spec(job@, preview@, now_ms));
    s
}

/// The blocks of all listed jobs, in order.
pub open spec fn list_blocks_spec(
    jobs: Seq<crate::jobs::JobModel>,
    previews: Seq<Seq<char>>,
    now_ms: u64,
) -> Seq<char>
    decreases jobs.len(),
{
    if jobs.len() == 0 {
        Seq::empty()
    } else {
        list_block_spec(jobs[0], previews[0], now_ms) + list_blocks_spec(
            jobs.drop_first(),
            previews.drop_first(),
            now_ms,
        )
    }
}

/// The whole text of a listing response.
pub open spec fn job_list_text_spec(
    jobs: Seq<crate::jobs::JobModel>,
    previews: Seq<Seq<char>>,
    now_ms: u64,
) -> Seq<char> {
    if jobs.len() == 0 {
        "No jobs found."@
    } else {
        "Found "@ + decimal_digits(jobs.len() as nat) + " job(s):\n\n"@ + list_blocks_spec(
            jobs,
            previews,
            now_ms,
        )
    }
}

/// Render the text of a listing response.  `previews` holds, for each job,
/// its decoded output text; the elision to 100 characters happens here.
pub fn job_list_text(jobs: &Vec<JobRecord>, previews: &Vec<String>, now_ms: u64) -> (t: String)
    requires
        jobs@.len() == previews@.len(),
    ensures
        t@ == job_list_text_spec(models_of(jobs@), previews.deep_view(), now_ms),
{
    let ghost ms = models_of(jobs@);
    let ghost ps = previews.deep_view();
    let n = jobs.len();
    if n == 0 {
        return String::from_str("No jobs found.");
    }
    let mut s = String::from_str("Found ");
    let d = u64_to_string(n as u64);
    s.append(d.as_str());
    s.append(" job(s):\n\n");
    let ghost header = s@;
    let mut i: usize = 0;
    proof {
        assert(ms.subrange(0, ms.len() as int) =~= ms);
        assert(ps.subrange(0, ps.len() as int) =~= ps);
    }
    while i < n
        invariant
            i <= n,
            n == jobs@.len(),
            n == previews@.len(),
            ms == models_of(jobs@),
            ps == previews.deep_view(),
            ms.len() == n,
            ps.len() == n,
            header + list_blocks_spec(ms, ps, now_ms) == s@ + list_blocks_spec(
                ms.subrange(i as int, ms.len() as int),
                ps.subrange(i as int, ps.len() as int),
                now_ms,
            ),
        decreases n - i,
    {
        let ghost mrest = ms.subrange(i as int, ms.len() as int);
        let ghost prest = ps.subrange(i as int, ps.len() as int);
        proof {
            assert(mrest[0] == ms[i as int]);
            assert(prest[0] == ps[i as int]);
            assert(mrest.drop_first() =~= ms.subrange(i + 1, ms.len() as int));
            assert(prest.drop_first() =~= ps.subrange(i + 1, ps.len() as int));
        }
        let block = list_block_text(&jobs[i], &previews[i], now_ms);
        s.append(block.as_str());
        i = i + 1;
    }
    proof {
        assert(ms.subrange(n as int, ms.len() as int) =~= Seq::<crate::jobs::JobModel>::empty());
        assert(ps.subrange(n as int, ps.len() as int) =~= Seq::<Seq<char>>::empty());
        assert(s@ + Seq::<char>::empty() =~= s@);
        assert(s@ =~= header + list_blocks_spec(ms, ps, now_ms));
    }
    s
}

} // verus!
