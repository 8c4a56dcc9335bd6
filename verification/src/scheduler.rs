//! Pure decision logic of the execution scheduler.
//!
//! The foreground phase polls a reader channel at a fixed interval and, on
//! each poll, decides between staying in the loop, handing the job off to
//! the background monitor, killing the child on timeout, or finalizing.
//! Those decisions — and the ones of the background monitor — are functions
//! of elapsed time and the received event alone, and are verified here; the
//! surrounding loop (PTY plumbing, channel waits, process handles) drives
//! them from the application layer.

use vstd::prelude::*;

use crate::denylist::{
    is_denied, find_matched_pattern, lemma_denied_iff_matched, spec_find_matched, spec_is_denied,
};
use crate::jobs::{preview_take, JobStatus};
use crate::text::{str_trim, trim_spec};

verus! {

/// Arguments of one execution request, with the transport defaults applied.
pub struct TerminalExecutionInput {
    /// Command to execute.
    pub command: String,
    /// Working directory (default: ".").
    pub cwd: String,
    /// Shell to use (default: "bash").
    pub shell: String,
    /// Output limit in bytes (default: 16384).
    pub output_limit: usize,
    /// Timeout in seconds (None or 0 = no timeout).
    pub timeout_secs: Option<u64>,
    /// Async threshold in seconds - switch to background after this
    /// (default: 50).
    pub async_threshold_secs: u64,
    /// Environment variables to set for the command.
    pub env_vars: Vec<(String, String)>,
    /// Force synchronous execution (wait for completion).
    pub force_sync: bool,
    /// Custom denylist patterns (in addition to defaults).
    pub custom_denylist: Vec<String>,
    /// Optional tags for categorizing jobs.
    pub tags: Vec<String>,
    /// Streaming mode: background the command after the first poll.
    pub stream: bool,
}

/// The default working directory.
pub fn default_cwd() -> (r: String)
    ensures
        r@ == "."@,
{
    String::from_str(".")
}

/// The default shell.
pub fn default_shell() -> (r: String)
    ensures
        r@ == "bash"@,
{
    String::from_str("bash")
}

/// The default output limit, in bytes.
pub fn default_output_limit() -> (r: usize)
    ensures
        r == 16384usize,
{
    16 * 1024
}

/// The default async threshold, in seconds.
pub fn default_async_threshold() -> (r: u64)
    ensures
        r == 50u64,
{
    50
}

impl TerminalExecutionInput {
    /// A request for `command` with every other argument at its default.
    pub fn with_defaults(command: String) -> (r: Self)
        ensures
            r.command == command,
            r.cwd@ == "."@,
            r.shell@ == "bash"@,
            r.output_limit == 16384usize,
            r.timeout_secs is None,
            r.async_threshold_secs == 50u64,
            r.env_vars@.len() == 0,
            !r.force_sync,
            r.custom_denylist@.len() == 0,
            r.tags@.len() == 0,
            !r.stream,
    {
        TerminalExecutionInput {
            command,
            cwd: default_cwd(),
            shell: default_shell(),
            output_limit: default_output_limit(),
            timeout_secs: None,
            async_threshold_secs: default_async_threshold(),
            env_vars: Vec::new(),
            force_sync: false,
            custom_denylist: Vec::new(),
            tags: Vec::new(),
            stream: false,
        }
    }
}

// ---------------------------------------------------------------------------
// Scheduler configuration
// ---------------------------------------------------------------------------

/// What the scheduling loops need of a request, in milliseconds.
pub struct SchedulerConfig {
    pub force_sync: bool,
    pub async_threshold_ms: u64,
    pub timeout_ms: Option<u64>,
    pub output_limit: usize,
}

/// Seconds to milliseconds, saturating.
pub open spec fn sat_ms(secs: u64) -> u64 {
    if secs * 1000 <= u64::MAX {
        (secs * 1000) as u64
    } else {
        u64::MAX
    }
}

/// The effective async threshold: streaming mode forces it to zero.
pub open spec fn effective_threshold_ms(stream: bool, threshold_secs: u64) -> u64 {
    if stream {
        0
    } else {
        sat_ms(threshold_secs)
    }
}

/// The effective timeout: absent or zero means none.
pub open spec fn effective_timeout_ms(timeout_secs: Option<u64>) -> Option<u64> {
    match timeout_secs {
        None => None,
        Some(s) => if s == 0 {
            None
        } else {
            Some(sat_ms(s))
        },
    }
}

/// Seconds to milliseconds, saturating.
fn secs_to_ms(secs: u64) -> (r: u64)
    ensures
        r == sat_ms(secs),
{
    if secs <= u64::MAX / 1000 {
        secs * 1000
    } else {
        u64::MAX
    }
}

impl SchedulerConfig {
    /// Derive the scheduling configuration from a request.
    pub fn from_input(input: &TerminalExecutionInput) -> (r: SchedulerConfig)
        ensures
            r.force_sync == input.force_sync,
            r.output_limit == input.output_limit,
            r.async_threshold_ms == effective_threshold_ms(
                input.stream,
                input.async_threshold_secs,
            ),
            r.timeout_ms == effective_timeout_ms(input.timeout_secs),
    {
        let async_threshold_ms = if input.stream {
            0
        } else {
            secs_to_ms(input.async_threshold_secs)
        };
        let timeout_ms = match input.timeout_secs {
            None => None,
            Some(s) => if s == 0 {
                None
            } else {
                Some(secs_to_ms(s))
            },
        };
        SchedulerConfig {
            force_sync: input.force_sync,
            async_threshold_ms,
            timeout_ms,
            output_limit: input.output_limit,
        }
    }
}

// ---------------------------------------------------------------------------
// Poll events and step decisions
// ---------------------------------------------------------------------------

/// What one poll of the reader channel produced.
pub enum ReadEvent {
    /// Bytes read from the PTY.
    Data(Vec<u8>),
    /// The PTY reached end of file: the child closed its side.
    Eof,
    /// The reader failed.
    ReadError,
    /// The reader hung up without a final message.
    Disconnected,
    /// The poll interval elapsed without a message.
    Idle,
}

/// What the foreground loop does next.
#[derive(Clone, Copy, Debug, PartialEq, Eq, Structural)]
pub enum ForegroundStep {
    /// Stay in the loop (after recording any data received).
    KeepPolling,
    /// Hand the job off to the background monitor and return.
    SwitchToAsync,
    /// Kill the child and finalize as timed out.
    KillOnTimeout,
    /// Wait for the child and finalize from its exit code.
    Finalize,
}

/// What the background monitor does next.
#[derive(Clone, Copy, Debug, PartialEq, Eq, Structural)]
pub enum BackgroundStep {
    /// Stay in the loop (after recording any data received).
    KeepPolling,
    /// Kill the child and complete the job as TimedOut.
    KillOnTimeout,
    /// Wait for the child and complete from its exit code.
    FinalizeOnExit,
    /// Complete the job as Failed.
    FinalizeFailed,
}

/// The foreground decision: the async threshold is checked first (unless
/// forced synchronous), then the deadline, and only then the event.
pub open spec fn foreground_step_spec(
    cfg: SchedulerConfig,
    elapsed_ms: u64,
    event: ReadEvent,
) -> ForegroundStep {
    if !cfg.force_sync && elapsed_ms > cfg.async_threshold_ms {
        ForegroundStep::SwitchToAsync
    } else if match cfg.timeout_ms {
        Some(t) => elapsed_ms > t,
        None => false,
    } {
        ForegroundStep::KillOnTimeout
    } else {
        match event {
            ReadEvent::Data(_) => ForegroundStep::KeepPolling,
            ReadEvent::Idle => ForegroundStep::KeepPolling,
            ReadEvent::Eof => ForegroundStep::Finalize,
            ReadEvent::ReadError => ForegroundStep::Finalize,
            ReadEvent::Disconnected => ForegroundStep::Finalize,
        }
    }
}

/// One foreground polling decision.
pub fn foreground_step(cfg: &SchedulerConfig, elapsed_ms: u64, event: &ReadEvent) -> (r:
    ForegroundStep)
    ensures
        r == foreground_step_spec(*cfg, elapsed_ms, *event),
{
    if !cfg.force_sync && elapsed_ms > cfg.async_threshold_ms {
        return ForegroundStep::SwitchToAsync;
    }
    let timed_out = match cfg.timeout_ms {
        Some(t) => elapsed_ms > t,
        None => false,
    };
    if timed_out {
        return ForegroundStep::KillOnTimeout;
    }
    match event {
        ReadEvent::Data(_) => ForegroundStep::KeepPolling,
        ReadEvent::Idle => ForegroundStep::KeepPolling,
        ReadEvent::Eof => ForegroundStep::Finalize,
        ReadEvent::ReadError => ForegroundStep::Finalize,
        ReadEvent::Disconnected => ForegroundStep::Finalize,
    }
}

/// The background decision: the remaining deadline is checked first, then
/// the event; errors and hangups finalize the job as Failed.
pub open spec fn background_step_spec(
    timeout_remaining_ms: Option<u64>,
    elapsed_ms: u64,
    event: ReadEvent,
) -> BackgroundStep {
    if match timeout_remaining_ms {
        Some(t) => elapsed_ms > t,
        None => false,
    } {
        BackgroundStep::KillOnTimeout
    } else {
        match event {
            ReadEvent::Data(_) => BackgroundStep::KeepPolling,
            ReadEvent::Idle => BackgroundStep::KeepPolling,
            ReadEvent::Eof => BackgroundStep::FinalizeOnExit,
            ReadEvent::ReadError => BackgroundStep::FinalizeFailed,
            ReadEvent::Disconnected => BackgroundStep::FinalizeFailed,
        }
    }
}

/// One background polling decision.
pub fn background_step(timeout_remaining_ms: Option<u64>, elapsed_ms: u64, event: &ReadEvent) -> (r:
    BackgroundStep)
    ensures
        r == background_step_spec(timeout_remaining_ms, elapsed_ms, *event),
{
    let timed_out = match timeout_remaining_ms {
        Some(t) => elapsed_ms > t,
        None => false,
    };
    if timed_out {
        return BackgroundStep::KillOnTimeout;
    }
    match event {
        ReadEvent::Data(_) => BackgroundStep::KeepPolling,
        ReadEvent::Idle => BackgroundStep::KeepPolling,
        ReadEvent::Eof => BackgroundStep::FinalizeOnExit,
        ReadEvent::ReadError => BackgroundStep::FinalizeFailed,
        ReadEvent::Disconnected => BackgroundStep::FinalizeFailed,
    }
}

/// The terminal status of a finished job.
pub open spec fn decide_status_spec(timed_out: bool, exit_code: Option<i32>) -> JobStatus {
    if timed_out {
        JobStatus::TimedOut
    } else if exit_code == Some(0i32) {
        JobStatus::Completed
    } else {
        JobStatus::Failed
    }
}

/// TimedOut when the deadline fired, else Completed exactly on exit code 0.
pub fn decide_status(timed_out: bool, exit_code: Option<i32>) -> (r: JobStatus)
    ensures
        r == decide_status_spec(timed_out, exit_code),
{
    if timed_out {
        JobStatus::TimedOut
    } else {
        match exit_code {
            Some(c) => if c == 0 {
                JobStatus::Completed
            } else {
                JobStatus::Failed
            },
            None => JobStatus::Failed,
        }
    }
}

/// Accumulate received bytes into the local preview, bounded by the output
/// limit; `truncated` records any dropped byte (same rule as the registry).
pub fn accumulate_preview(preview: &mut Vec<u8>, truncated: &mut bool, data: &[u8], limit: usize)
    ensures
        ({
            let take = preview_take(
                old(preview)@.len() as int,
                *old(truncated),
                data@.len() as int,
                limit as int,
            );
            &&& final(preview)@ == old(preview)@ + data@.subrange(0, take)
            &&& *final(truncated) == (*old(truncated) || take < data@.len())
        }),
{
    let room = if limit > preview.len() {
        limit - preview.len()
    } else {
        0
    };
    let take = if *truncated {
        0
    } else if data.len() < room {
        data.len()
    } else {
        room
    };
    let part = vstd::slice::slice_subrange(data, 0, take);
    preview.extend_from_slice(part);
    if take < data.len() {
        *truncated = true;
    }
    proof {
        let t = preview_take(
            old(preview)@.len() as int,
            *old(truncated),
            data@.len() as int,
            limit as int,
        );
        assert(take == t);
        assert(preview@ =~= old(preview)@ + data@.subrange(0, t));
    }
}

// ---------------------------------------------------------------------------
// Pre-execution checks
// ---------------------------------------------------------------------------

/// What happens to a submitted command before any process is spawned.
pub enum Precheck {
    /// The trimmed command is empty: the request is rejected.
    EmptyCommand,
    /// The command matched the denylist pattern carried here; no PTY is
    /// opened and no job is registered.
    Denied(String),
    /// The trimmed command may run.
    Proceed(String),
}

/// Trim the command and hold it against the denylist.
pub fn execute_precheck(command: &str, custom_denylist: &[String]) -> (r: Precheck)
    ensures
        match r {
            Precheck::EmptyCommand => trim_spec(command@).len() == 0,
            Precheck::Denied(p) => {
                &&& trim_spec(command@).len() > 0
                &&& spec_is_denied(trim_spec(command@), custom_denylist.deep_view())
                &&& spec_find_matched(trim_spec(command@), custom_denylist.deep_view()) == Some(p@)
            },
            Precheck::Proceed(c) => {
                &&& c@ == trim_spec(command@)
                &&& c@.len() > 0
                &&& !spec_is_denied(trim_spec(command@), custom_denylist.deep_view())
            },
        },
{
    let trimmed = str_trim(command);
    if trimmed.unicode_len() == 0 {
        return Precheck::EmptyCommand;
    }
    if is_denied(trimmed, custom_denylist) {
        proof {
            lemma_denied_iff_matched(trimmed@, custom_denylist.deep_view());
        }
        match find_matched_pattern(trimmed, custom_denylist) {
            Some(p) => Precheck::Denied(p),
            None => vstd::pervasive::unreached(),
        }
    } else {
        Precheck::Proceed(String::from_str(trimmed))
    }
}

// ---------------------------------------------------------------------------
// Laws
// ---------------------------------------------------------------------------

/// An absent or zero timeout disables the deadline entirely.
pub proof fn lemma_timeout_absent_or_zero(timeout_secs: Option<u64>)
    requires
        timeout_secs is None || timeout_secs == Some(0u64),
    ensures
        effective_timeout_ms(timeout_secs) is None,
{
}

/// Without a configured deadline the foreground loop never kills on time:
/// only the async handoff can end a wait early.
pub proof fn lemma_no_deadline_never_kills(cfg: SchedulerConfig, elapsed_ms: u64, event: ReadEvent)
    requires
        cfg.timeout_ms is None,
    ensures
        foreground_step_spec(cfg, elapsed_ms, event) != ForegroundStep::KillOnTimeout,
{
}

/// With a zero threshold and no force_sync, any poll after time has passed
/// hands the job off, whatever the event.
pub proof fn lemma_zero_threshold_hands_off(cfg: SchedulerConfig, elapsed_ms: u64, event: ReadEvent)
    requires
        !cfg.force_sync,
        cfg.async_threshold_ms == 0,
        elapsed_ms > 0,
    ensures
        foreground_step_spec(cfg, elapsed_ms, event) == ForegroundStep::SwitchToAsync,
{
}

/// Under force_sync the scheduler ignores the async threshold entirely: no
/// decision is ever a handoff.
pub proof fn lemma_force_sync_never_hands_off(
    cfg: SchedulerConfig,
    elapsed_ms: u64,
    event: ReadEvent,
)
    requires
        cfg.force_sync,
    ensures
        foreground_step_spec(cfg, elapsed_ms, event) != ForegroundStep::SwitchToAsync,
{
}

/// Streaming mode configures the scheduler exactly as a zero async
/// threshold does.
pub proof fn lemma_stream_is_zero_threshold(threshold_secs: u64)
    ensures
        effective_threshold_ms(true, threshold_secs) == 0,
        effective_threshold_ms(false, 0) == 0,
{
}

} // verus!
