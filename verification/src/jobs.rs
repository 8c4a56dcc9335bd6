//! The job registry: the single persistent entity of the service.
//!
//! Every job record keeps, besides its identity and timing, a bounded output
//! preview, the unbounded full capture, and a read cursor.  The registry
//! maintains these invariants for every record it holds:
//!
//! * the preview `output` is a prefix of `full_output`;
//! * `truncated` holds exactly when some captured byte is missing from the
//!   preview;
//! * `last_read_position` never exceeds the length of `full_output`;
//! * a record is finished (`finished_at` set) exactly when its status is not
//!   `Running`, and terminal statuses are sticky.
//!
//! Time enters the registry only as an argument (`now_ms`, milliseconds), so
//! every method is a pure state transition described by the `registry_*`
//! spec functions below.

use vstd::prelude::*;

use crate::text::{
    decimal_digits, digit_char, is_prefix_of, lemma_decimal_digits_injective, str_eq, string_eq,
    u64_to_string,
};

verus! {

/// Job status for background command execution.
#[derive(Clone, Copy, Debug, PartialEq, Eq, Structural)]
pub enum JobStatus {
    Running,
    Completed,
    Failed,
    TimedOut,
    Canceled,
}

/// Why a registry operation was refused.
#[derive(Clone, Copy, Debug, PartialEq, Eq, Structural)]
pub enum JobError {
    /// No job with the given id exists.
    NotFound,
    /// The job exists but is no longer running.
    NotRunning,
    /// The job is running but its process id was never captured.
    MissingPid,
    /// Signal delivery failed with the given OS error number.
    SignalFailed(i32),
}

/// The mathematical model of one job record.
#[verifier::ext_equal]
pub struct JobModel {
    pub job_id: Seq<char>,
    pub command: Seq<char>,
    pub shell: Seq<char>,
    pub cwd: Seq<char>,
    pub started_at: u64,
    pub finished_at: Option<u64>,
    pub status: JobStatus,
    pub exit_code: Option<i32>,
    pub output: Seq<u8>,
    pub full_output: Seq<u8>,
    pub truncated: bool,
    pub pid: Option<u32>,
    pub last_read_position: int,
    pub tags: Seq<Seq<char>>,
    pub summary: Seq<char>,
}

/// The mathematical model of the whole registry.
#[verifier::ext_equal]
pub struct RegistryModel {
    pub jobs: Seq<JobModel>,
    pub counter: u64,
}

/// Record of a background job.
pub struct JobRecord {
    pub job_id: String,
    pub command: String,
    pub shell: String,
    pub cwd: String,
    pub started_at: u64,
    pub finished_at: Option<u64>,
    pub status: JobStatus,
    pub exit_code: Option<i32>,
    pub output: Vec<u8>,
    pub full_output: Vec<u8>,
    pub truncated: bool,
    pub pid: Option<u32>,
    pub last_read_position: usize,
    /// Optional tags for categorizing jobs (e.g., ["build", "ci"]).
    pub tags: Vec<String>,
    /// Command summary (first 100 characters).
    pub summary: String,
}

impl View for JobRecord {
    type V = JobModel;

    open spec fn view(&self) -> JobModel {
        JobModel {
            job_id: self.job_id@,
            command: self.command@,
            shell: self.shell@,
            cwd: self.cwd@,
            started_at: self.started_at,
            finished_at: self.finished_at,
            status: self.status,
            exit_code: self.exit_code,
            output: self.output@,
            full_output: self.full_output@,
            truncated: self.truncated,
            pid: self.pid,
            last_read_position: self.last_read_position as int,
            tags: self.tags.deep_view(),
            summary: self.summary@,
        }
    }
}

/// Global job registry.  All mutation goes through its methods; callers that
/// share it across tasks wrap it in their own lock.
pub struct JobManager {
    jobs: Vec<JobRecord>,
    job_counter: u64,
}

impl View for JobManager {
    type V = RegistryModel;

    closed spec fn view(&self) -> RegistryModel {
        RegistryModel {
            jobs: self.jobs@.map_values(|r: JobRecord| r@),
            counter: self.job_counter,
        }
    }
}

// ---------------------------------------------------------------------------
// Well-formedness
// ---------------------------------------------------------------------------

/// The per-record invariants (see the module documentation).
pub open spec fn record_wf(m: JobModel) -> bool {
    &&& is_prefix_of(m.output, m.full_output)
    &&& (m.truncated <==> m.full_output.len() > m.output.len())
    &&& 0 <= m.last_read_position <= m.full_output.len()
    &&& (m.status is Running <==> m.finished_at is None)
}

/// Every record is well formed and ids are pairwise distinct.
pub open spec fn registry_wf(m: RegistryModel) -> bool {
    &&& forall|i: int| 0 <= i < m.jobs.len() ==> record_wf(#[trigger] m.jobs[i])
    &&& forall|i: int, j: int|
        0 <= i < j < m.jobs.len() ==> (#[trigger] m.jobs[i]).job_id != (#[trigger] m.jobs[j]).job_id
}

/// Some record carries this id.
pub open spec fn has_job(jobs: Seq<JobModel>, id: Seq<char>) -> bool {
    exists|i: int| 0 <= i < jobs.len() && (#[trigger] jobs[i]).job_id == id
}

/// The index of the record with this id (unique under `registry_wf`).
pub open spec fn the_job_index(jobs: Seq<JobModel>, id: Seq<char>) -> int {
    choose|i: int| 0 <= i < jobs.len() && (#[trigger] jobs[i]).job_id == id
}

// ---------------------------------------------------------------------------
// Model transitions
// ---------------------------------------------------------------------------

/// The id string of the `n`-th job: "job-" followed by `n` in decimal.
pub open spec fn job_id_spec(n: u64) -> Seq<char> {
    "job-"@ + decimal_digits(n as nat)
}

/// First 100 characters of the command, elided with "..." when longer.
pub open spec fn summary_spec(command: Seq<char>) -> Seq<char> {
    if command.len() > 100 {
        command.subrange(0, 97) + "..."@
    } else {
        command
    }
}

/// Tags folded left to right into `tags`, skipping ones already present.
pub open spec fn add_tags_spec(tags: Seq<Seq<char>>, new: Seq<Seq<char>>) -> Seq<Seq<char>>
    decreases new.len(),
{
    if new.len() == 0 {
        tags
    } else {
        add_tags_spec(
            if tags.contains(new[0]) {
                tags
            } else {
                tags.push(new[0])
            },
            new.drop_first(),
        )
    }
}

/// `new` with duplicates removed, keeping first occurrences.
pub open spec fn dedup_tags_spec(new: Seq<Seq<char>>) -> Seq<Seq<char>> {
    add_tags_spec(Seq::empty(), new)
}

/// A freshly registered record: running, with empty outputs and cursor 0.
pub open spec fn fresh_job(
    job_id: Seq<char>,
    command: Seq<char>,
    shell: Seq<char>,
    cwd: Seq<char>,
    pid: Option<u32>,
    tags: Seq<Seq<char>>,
    now_ms: u64,
) -> JobModel {
    JobModel {
        job_id,
        command,
        shell,
        cwd,
        started_at: now_ms,
        finished_at: None,
        status: JobStatus::Running,
        exit_code: None,
        output: Seq::empty(),
        full_output: Seq::empty(),
        truncated: false,
        pid,
        last_read_position: 0,
        tags: dedup_tags_spec(tags),
        summary: summary_spec(command),
    }
}

/// How many bytes of `data` still fit into the preview.  Once the preview
/// has been truncated it is frozen.
pub open spec fn preview_take(output_len: int, truncated: bool, data_len: int, limit: int) -> int {
    if truncated {
        0
    } else if output_len + data_len <= limit {
        data_len
    } else if limit > output_len {
        limit - output_len
    } else {
        0
    }
}

/// One output append: the full capture always grows; the preview grows by
/// at most what the limit allows; `truncated` records any dropped byte.
/// Appends reach only running jobs — terminal records are frozen.
pub open spec fn append_model(m: JobModel, data: Seq<u8>, limit: int) -> JobModel {
    if m.status is Running {
        let take = preview_take(m.output.len() as int, m.truncated, data.len() as int, limit);
        JobModel {
            full_output: m.full_output + data,
            output: m.output + data.subrange(0, take),
            truncated: m.truncated || take < data.len(),
            ..m
        }
    } else {
        m
    }
}

/// One completion: only a running job moves, and only to a terminal status.
pub open spec fn complete_model(
    m: JobModel,
    exit_code: Option<i32>,
    status: JobStatus,
    now_ms: u64,
) -> JobModel {
    if m.status is Running && !(status is Running) {
        JobModel { finished_at: Some(now_ms), exit_code, status, ..m }
    } else {
        m
    }
}

/// A cancellation transition of a running job.
pub open spec fn cancel_model(m: JobModel, now_ms: u64) -> JobModel {
    JobModel { status: JobStatus::Canceled, finished_at: Some(now_ms), ..m }
}

/// The bytes an incremental read returns: everything after the cursor.
pub open spec fn incremental_bytes(m: JobModel) -> Seq<u8> {
    m.full_output.subrange(m.last_read_position, m.full_output.len() as int)
}

/// Registry after registering `fresh`: replaces a record with the same id,
/// else appends.
pub open spec fn registry_register(m: RegistryModel, fresh: JobModel) -> RegistryModel {
    if has_job(m.jobs, fresh.job_id) {
        RegistryModel {
            jobs: m.jobs.map_values(
                |j: JobModel|
                    if j.job_id == fresh.job_id {
                        fresh
                    } else {
                        j
                    },
            ),
            ..m
        }
    } else {
        RegistryModel { jobs: m.jobs.push(fresh), ..m }
    }
}

/// Registry after an output append to the job with this id.
pub open spec fn registry_append(
    m: RegistryModel,
    id: Seq<char>,
    data: Seq<u8>,
    limit: int,
) -> RegistryModel {
    RegistryModel {
        jobs: m.jobs.map_values(
            |j: JobModel|
                if j.job_id == id {
                    append_model(j, data, limit)
                } else {
                    j
                },
        ),
        ..m
    }
}

/// Registry after completing the job with this id.
pub open spec fn registry_complete(
    m: RegistryModel,
    id: Seq<char>,
    exit_code: Option<i32>,
    status: JobStatus,
    now_ms: u64,
) -> RegistryModel {
    RegistryModel {
        jobs: m.jobs.map_values(
            |j: JobModel|
                if j.job_id == id {
                    complete_model(j, exit_code, status, now_ms)
                } else {
                    j
                },
        ),
        ..m
    }
}

/// Registry after an incremental read of the job with this id: its cursor
/// moves to the end of the full capture.
pub open spec fn registry_mark_read(m: RegistryModel, id: Seq<char>) -> RegistryModel {
    RegistryModel {
        jobs: m.jobs.map_values(
            |j: JobModel|
                if j.job_id == id {
                    JobModel { last_read_position: j.full_output.len() as int, ..j }
                } else {
                    j
                },
        ),
        ..m
    }
}

/// Registry after a cursor reset of the job with this id.
pub open spec fn registry_reset_cursor(m: RegistryModel, id: Seq<char>) -> RegistryModel {
    RegistryModel {
        jobs: m.jobs.map_values(
            |j: JobModel|
                if j.job_id == id {
                    JobModel { last_read_position: 0, ..j }
                } else {
                    j
                },
        ),
        ..m
    }
}

/// Registry after a cancellation of the (running) job with this id.
pub open spec fn registry_cancel(m: RegistryModel, id: Seq<char>, now_ms: u64) -> RegistryModel {
    RegistryModel {
        jobs: m.jobs.map_values(
            |j: JobModel|
                if j.job_id == id {
                    cancel_model(j, now_ms)
                } else {
                    j
                },
        ),
        ..m
    }
}

// ---------------------------------------------------------------------------
// Record helpers
// ---------------------------------------------------------------------------

impl JobRecord {
    /// Duration of the job in milliseconds: up to `finished_at` when
    /// finished, else up to `now_ms`.  `None` when the clock ran backwards.
    pub open spec fn duration_spec(m: JobModel, now_ms: u64) -> Option<u64> {
        let end = match m.finished_at {
            Some(t) => t,
            None => now_ms,
        };
        if end >= m.started_at {
            Some((end - m.started_at) as u64)
        } else {
            None
        }
    }

    /// Get duration of the job (elapsed up to `now_ms`, or total if
    /// finished), in milliseconds.
    pub fn duration(&self, now_ms: u64) -> (r: Option<u64>)
        ensures
            r == Self::duration_spec(self@, now_ms),
    {
        let end = match self.finished_at {
            Some(t) => t,
            None => now_ms,
        };
        if end >= self.started_at {
            Some(end - self.started_at)
        } else {
            None
        }
    }

    /// Seconds with two (truncated) decimals, e.g. "1.50".
    pub open spec fn seconds_text(ms: u64) -> Seq<char> {
        decimal_digits((ms / 1000) as nat) + seq!['.'] + seq![
            digit_char(((ms % 1000) / 100) as nat),
            digit_char(((ms % 1000) / 10 % 10) as nat),
        ]
    }

    /// What `duration_string` produces.
    pub open spec fn duration_string_spec(m: JobModel, now_ms: u64) -> Seq<char> {
        match Self::duration_spec(m, now_ms) {
            None => "unknown"@,
            Some(ms) => if m.finished_at is Some {
                Self::seconds_text(ms) + "s"@
            } else {
                Self::seconds_text(ms) + "s (running)"@
            },
        }
    }

    /// Get duration as a formatted string, e.g. "1.50s" or "1.50s (running)".
    pub fn duration_string(&self, now_ms: u64) -> (r: String)
        ensures
            r@ == Self::duration_string_spec(self@, now_ms),
    {
        match self.duration(now_ms) {
            None => String::from_str("unknown"),
            Some(ms) => {
                let mut s = seconds_string(ms);
                if self.finished_at.is_some() {
                    s.append("s");
                } else {
                    s.append("s (running)");
                }
                assert(s@ =~= Self::duration_string_spec(self@, now_ms));
                s
            },
        }
    }

    /// A deep copy whose model equals this record's.
    pub fn clone_record(&self) -> (r: JobRecord)
        ensures
            r@ == self@,
    {
        let r = JobRecord {
            job_id: self.job_id.clone(),
            command: self.command.clone(),
            shell: self.shell.clone(),
            cwd: self.cwd.clone(),
            started_at: self.started_at,
            finished_at: self.finished_at,
            status: self.status,
            exit_code: self.exit_code,
            output: clone_bytes(&self.output),
            full_output: clone_bytes(&self.full_output),
            truncated: self.truncated,
            pid: self.pid,
            last_read_position: self.last_read_position,
            tags: clone_strings(&self.tags),
            summary: self.summary.clone(),
        };
        assert(r@ =~= self@);
        r
    }
}

/// Render milliseconds as seconds with two (truncated) decimals.
pub fn seconds_string(ms: u64) -> (r: String)
    ensures
        r@ == JobRecord::seconds_text(ms),
{
    let mut s = u64_to_string(ms / 1000);
    s.append(".");
    proof {
        reveal_strlit(".");
    }
    let frac = ms % 1000;
    s.append(crate::text::digit_str(frac / 100));
    s.append(crate::text::digit_str(frac / 10 % 10));
    assert(s@ =~= JobRecord::seconds_text(ms));
    s
}

/// Byte-for-byte copy of a byte vector.
fn clone_bytes(v: &Vec<u8>) -> (r: Vec<u8>)
    ensures
        r@ == v@,
{
    let mut r: Vec<u8> = Vec::new();
    let n = v.len();
    let mut i: usize = 0;
    while i < n
        invariant
            i <= n,
            n == v@.len(),
            r@ == v@.subrange(0, i as int),
        decreases n - i,
    {
        r.push(v[i]);
        assert(r@ =~= v@.subrange(0, i + 1));
        i = i + 1;
    }
    assert(v@.subrange(0, n as int) =~= v@);
    r
}

/// Element-wise copy of a string vector.
fn clone_strings(v: &Vec<String>) -> (r: Vec<String>)
    ensures
        r.deep_view() == v.deep_view(),
{
    let mut r: Vec<String> = Vec::new();
    let n = v.len();
    let mut i: usize = 0;
    while i < n
        invariant
            i <= n,
            n == v@.len(),
            r@.len() == i,
            forall|k: int| 0 <= k < i ==> r@[k]@ == #[trigger] v@[k]@,
        decreases n - i,
    {
        r.push(v[i].clone());
        i = i + 1;
    }
    assert(r.deep_view() =~= v.deep_view());
    r
}

// ---------------------------------------------------------------------------
// The registry
// ---------------------------------------------------------------------------

impl JobManager {
    /// Well-formedness of the registry state.
    pub open spec fn wf(&self) -> bool {
        registry_wf(self@)
    }

    /// An empty registry; the id counter starts at 1.
    pub fn new() -> (r: Self)
        ensures
            r.wf(),
            r@.jobs == Seq::<JobModel>::empty(),
            r@.counter == 1u64,
    {
        let r = Self { jobs: Vec::new(), job_counter: 1 };
        assert(r@.jobs =~= Seq::<JobModel>::empty());
        r
    }

    /// Room for another id.
    pub fn can_allocate_id(&self) -> (r: bool)
        ensures
            r == (self@.counter < u64::MAX),
    {
        self.job_counter < u64::MAX
    }

    /// Generate a new unique job id and advance the counter.
    pub fn new_job_id(&mut self) -> (r: String)
        requires
            old(self)@.counter < u64::MAX,
        ensures
            final(self)@.counter == old(self)@.counter + 1,
            final(self)@.jobs == old(self)@.jobs,
            r@ == job_id_spec(old(self)@.counter),
            old(self).wf() ==> final(self).wf(),
    {
        let id = self.job_counter;
        self.job_counter = self.job_counter + 1;
        let mut s = String::from_str("job-");
        let digits = u64_to_string(id);
        s.append(digits.as_str());
        s
    }

    /// The index of the record with this id, if any.
    fn find_index(&self, job_id: &str) -> (r: Option<usize>)
        ensures
            match r {
                Some(i) => i < self@.jobs.len() && self@.jobs[i as int].job_id == job_id@,
                None => !has_job(self@.jobs, job_id@),
            },
    {
        let n = self.jobs.len();
        let mut i: usize = 0;
        while i < n
            invariant
                i <= n,
                n == self.jobs@.len(),
                forall|k: int| 0 <= k < i ==> (#[trigger] self@.jobs[k]).job_id != job_id@,
            decreases n - i,
        {
            if str_eq(self.jobs[i].job_id.as_str(), job_id) {
                return Some(i);
            }
            i = i + 1;
        }
        None
    }

    /// Register a new job.
    pub fn register_job(
        &mut self,
        job_id: String,
        command: String,
        shell: String,
        cwd: String,
        pid: Option<u32>,
        now_ms: u64,
    )
        requires
            old(self).wf(),
        ensures
            final(self).wf(),
            final(self)@ == registry_register(
                old(self)@,
                fresh_job(job_id@, command@, shell@, cwd@, pid, Seq::empty(), now_ms),
            ),
    {
        let empty_tags: Vec<String> = Vec::new();
        proof {
            assert(empty_tags.deep_view() =~= Seq::<Seq<char>>::empty());
        }
        self.register_job_with_tags(job_id, command, shell, cwd, pid, empty_tags, now_ms);
    }

    /// Register a new job with tags (first occurrences kept, in order).
    pub fn register_job_with_tags(
        &mut self,
        job_id: String,
        command: String,
        shell: String,
        cwd: String,
        pid: Option<u32>,
        tags: Vec<String>,
        now_ms: u64,
    )
        requires
            old(self).wf(),
        ensures
            final(self).wf(),
            final(self)@ == registry_register(
                old(self)@,
                fresh_job(job_id@, command@, shell@, cwd@, pid, tags.deep_view(), now_ms),
            ),
    {
        let ghost fresh_model = fresh_job(
            job_id@,
            command@,
            shell@,
            cwd@,
            pid,
            tags.deep_view(),
            now_ms,
        );
        let summary = make_summary(&command);
        let deduped = dedup_tags_exec(tags);
        let record = JobRecord {
            job_id,
            command,
            shell,
            cwd,
            started_at: now_ms,
            finished_at: None,
            status: JobStatus::Running,
            exit_code: None,
            output: Vec::new(),
            full_output: Vec::new(),
            truncated: false,
            pid,
            last_read_position: 0,
            tags: deduped,
            summary,
        };
        assert(record@.output =~= fresh_model.output);
        assert(record@.full_output =~= fresh_model.full_output);
        assert(record@ =~= fresh_model);
        match self.find_index(record.job_id.as_str()) {
            Some(i) => {
                let _old = self.jobs.remove(i);
                self.jobs.insert(i, record);
                proof {
                    let oldm = old(self)@;
                    assert(self@.jobs =~= registry_register(oldm, fresh_model).jobs);
                    assert(self@ =~= registry_register(oldm, fresh_model));
                }
            },
            None => {
                self.jobs.push(record);
                proof {
                    let oldm = old(self)@;
                    assert(self@.jobs =~= oldm.jobs.push(fresh_model));
                    assert(self@ =~= registry_register(oldm, fresh_model));
                }
            },
        }
        proof {
            lemma_fresh_job_wf(fresh_model);
            assert forall|i: int, j: int|
                0 <= i < j < self@.jobs.len() implies (#[trigger] self@.jobs[i]).job_id != (
            #[trigger] self@.jobs[j]).job_id by {
                assert(registry_wf(old(self)@));
            }
        }
    }

    /// Update the job's captured output (see `append_model`).
    pub fn append_output(&mut self, job_id: &str, data: &[u8], output_limit: usize)
        requires
            old(self).wf(),
        ensures
            final(self).wf(),
            final(self)@ == registry_append(old(self)@, job_id@, data@, output_limit as int),
    {
        let ghost oldm = old(self)@;
        match self.find_index(job_id) {
            None => {
                proof {
                    assert(self@.jobs =~= registry_append(oldm, job_id@, data@, output_limit as int).jobs);
                    assert(self@ =~= registry_append(oldm, job_id@, data@, output_limit as int));
                }
            },
            Some(i) => {
                let mut rec = self.jobs.remove(i);
                let ghost m0 = rec@;
                if rec.status == JobStatus::Running {
                    let room = if output_limit > rec.output.len() {
                        output_limit - rec.output.len()
                    } else {
                        0
                    };
                    let take = if rec.truncated {
                        0
                    } else if data.len() < room {
                        data.len()
                    } else {
                        room
                    };
                    assert(take == preview_take(
                        m0.output.len() as int,
                        m0.truncated,
                        data@.len() as int,
                        output_limit as int,
                    ));
                    rec.full_output.extend_from_slice(data);
                    let part = vstd::slice::slice_subrange(data, 0, take);
                    rec.output.extend_from_slice(part);
                    if take < data.len() {
                        rec.truncated = true;
                    }
                    proof {
                        assert(rec@.full_output =~= m0.full_output + data@);
                        assert(rec@.output =~= m0.output + data@.subrange(
                            0,
                            preview_take(
                                m0.output.len() as int,
                                m0.truncated,
                                data@.len() as int,
                                output_limit as int,
                            ),
                        ));
                        assert(rec@ =~= append_model(m0, data@, output_limit as int));
                    }
                } else {
                    assert(rec@ =~= append_model(m0, data@, output_limit as int));
                }
                self.jobs.insert(i, rec);
                proof {
                    assert(registry_wf(oldm));
                    lemma_append_model_wf(m0, data@, output_limit as int);
                    assert(self@.jobs =~= registry_append(oldm, job_id@, data@, output_limit as int).jobs);
                    assert(self@ =~= registry_append(oldm, job_id@, data@, output_limit as int));
                }
            },
        }
    }

    /// Complete a job: only a running job moves, and only to a terminal
    /// status; late completions are ignored.
    pub fn complete_job(
        &mut self,
        job_id: &str,
        exit_code: Option<i32>,
        status: JobStatus,
        now_ms: u64,
    )
        requires
            old(self).wf(),
        ensures
            final(self).wf(),
            final(self)@ == registry_complete(old(self)@, job_id@, exit_code, status, now_ms),
    {
        let ghost oldm = old(self)@;
        match self.find_index(job_id) {
            None => {
                proof {
                    assert(self@.jobs =~= registry_complete(oldm, job_id@, exit_code, status, now_ms).jobs);
                    assert(self@ =~= registry_complete(oldm, job_id@, exit_code, status, now_ms));
                }
            },
            Some(i) => {
                let mut rec = self.jobs.remove(i);
                let ghost m0 = rec@;
                if rec.status == JobStatus::Running && !(status == JobStatus::Running) {
                    rec.finished_at = Some(now_ms);
                    rec.exit_code = exit_code;
                    rec.status = status;
                }
                assert(rec@ =~= complete_model(m0, exit_code, status, now_ms));
                self.jobs.insert(i, rec);
                proof {
                    assert(registry_wf(oldm));
                    assert(self@.jobs =~= registry_complete(oldm, job_id@, exit_code, status, now_ms).jobs);
                    assert(self@ =~= registry_complete(oldm, job_id@, exit_code, status, now_ms));
                }
            },
        }
    }

    /// Get a snapshot of a job by id.
    pub fn get_job(&self, job_id: &str) -> (r: Option<JobRecord>)
        requires
            self.wf(),
        ensures
            match r {
                Some(rec) => has_job(self@.jobs, job_id@) && rec@ == self@.jobs[the_job_index(
                    self@.jobs,
                    job_id@,
                )],
                None => !has_job(self@.jobs, job_id@),
            },
    {
        match self.find_index(job_id) {
            None => None,
            Some(i) => {
                proof {
                    lemma_index_unique(self@, job_id@, i as int);
                }
                Some(self.jobs[i].clone_record())
            },
        }
    }
}

impl JobManager {
    /// Get incremental output (only new bytes since the last read) and
    /// whether the job was still running; advances the read cursor.
    pub fn get_incremental_output(&mut self, job_id: &str) -> (r: Option<(Vec<u8>, bool)>)
        requires
            old(self).wf(),
        ensures
            final(self).wf(),
            match r {
                Some(pair) => {
                    &&& has_job(old(self)@.jobs, job_id@)
                    &&& pair.0@ == incremental_bytes(
                        old(self)@.jobs[the_job_index(old(self)@.jobs, job_id@)],
                    )
                    &&& pair.1 == (old(self)@.jobs[the_job_index(old(self)@.jobs, job_id@)].status
                        is Running)
                    &&& final(self)@ == registry_mark_read(old(self)@, job_id@)
                },
                None => !has_job(old(self)@.jobs, job_id@) && final(self)@ == old(self)@,
            },
    {
        let ghost oldm = old(self)@;
        match self.find_index(job_id) {
            None => None,
            Some(i) => {
                proof {
                    lemma_index_unique(oldm, job_id@, i as int);
                }
                let mut rec = self.jobs.remove(i);
                let ghost m0 = rec@;
                assert(record_wf(m0));
                let bytes = bytes_range(&rec.full_output, rec.last_read_position, rec.full_output.len());
                let running = rec.status == JobStatus::Running;
                rec.last_read_position = rec.full_output.len();
                assert(rec@ =~= JobModel { last_read_position: m0.full_output.len() as int, ..m0 });
                self.jobs.insert(i, rec);
                proof {
                    assert(registry_wf(oldm));
                    assert(self@.jobs =~= registry_mark_read(oldm, job_id@).jobs);
                    assert(self@ =~= registry_mark_read(oldm, job_id@));
                }
                Some((bytes, running))
            },
        }
    }

    /// Reset the read cursor so that all output is returned again.
    pub fn reset_read_position(&mut self, job_id: &str)
        requires
            old(self).wf(),
        ensures
            final(self).wf(),
            final(self)@ == registry_reset_cursor(old(self)@, job_id@),
    {
        let ghost oldm = old(self)@;
        match self.find_index(job_id) {
            None => {
                proof {
                    assert(self@.jobs =~= registry_reset_cursor(oldm, job_id@).jobs);
                    assert(self@ =~= registry_reset_cursor(oldm, job_id@));
                }
            },
            Some(i) => {
                let mut rec = self.jobs.remove(i);
                let ghost m0 = rec@;
                rec.last_read_position = 0;
                assert(rec@ =~= JobModel { last_read_position: 0, ..m0 });
                self.jobs.insert(i, rec);
                proof {
                    assert(registry_wf(oldm));
                    assert(self@.jobs =~= registry_reset_cursor(oldm, job_id@).jobs);
                    assert(self@ =~= registry_reset_cursor(oldm, job_id@));
                }
            },
        }
    }

    /// Get output with pagination: a bounded slice of the full capture,
    /// whether more follows, and the total length.
    pub fn get_output_range(&self, job_id: &str, offset: usize, limit: usize) -> (r: Option<
        (Vec<u8>, bool, usize),
    >)
        requires
            self.wf(),
        ensures
            match r {
                Some(t) => {
                    let m = self@.jobs[the_job_index(self@.jobs, job_id@)];
                    &&& has_job(self@.jobs, job_id@)
                    &&& t.2 == m.full_output.len()
                    &&& t.0@ == range_slice(m.full_output, offset as int, limit as int)
                    &&& t.1 == (range_end(m.full_output.len() as int, offset as int, limit as int)
                        < m.full_output.len())
                },
                None => !has_job(self@.jobs, job_id@),
            },
    {
        match self.find_index(job_id) {
            None => None,
            Some(i) => {
                proof {
                    lemma_index_unique(self@, job_id@, i as int);
                }
                let rec = &self.jobs[i];
                let total = rec.full_output.len();
                if offset >= total {
                    assert(range_slice(rec@.full_output, offset as int, limit as int)
                        =~= Seq::<u8>::empty());
                    let empty: Vec<u8> = Vec::new();
                    assert(empty@ =~= Seq::<u8>::empty());
                    Some((empty, false, total))
                } else {
                    let rem = total - offset;
                    let end = if limit < rem {
                        offset + limit
                    } else {
                        total
                    };
                    let slice = bytes_range(&rec.full_output, offset, end);
                    Some((slice, end < total, total))
                }
            },
        }
    }

    /// Add tags to an existing job (union, preserving insertion order).
    pub fn add_tags(&mut self, job_id: &str, tags: Vec<String>) -> (r: Result<(), JobError>)
        requires
            old(self).wf(),
        ensures
            final(self).wf(),
            match r {
                Ok(()) => has_job(old(self)@.jobs, job_id@) && final(self)@ == registry_add_tags(
                    old(self)@,
                    job_id@,
                    tags.deep_view(),
                ),
                Err(e) => e == JobError::NotFound && !has_job(old(self)@.jobs, job_id@)
                    && final(self)@ == old(self)@,
            },
    {
        let ghost oldm = old(self)@;
        match self.find_index(job_id) {
            None => Err(JobError::NotFound),
            Some(i) => {
                let mut rec = self.jobs.remove(i);
                let ghost m0 = rec@;
                let merged = merge_tags(rec.tags, tags);
                rec.tags = merged;
                assert(rec@ =~= JobModel {
                    tags: add_tags_spec(m0.tags, tags.deep_view()),
                    ..m0
                });
                self.jobs.insert(i, rec);
                proof {
                    assert(registry_wf(oldm));
                    assert(self@.jobs =~= registry_add_tags(oldm, job_id@, tags.deep_view()).jobs);
                    assert(self@ =~= registry_add_tags(oldm, job_id@, tags.deep_view()));
                }
                Ok(())
            },
        }
    }

    /// Cancel a running job: deliver SIGTERM to its process, then mark it
    /// Canceled.  Fails without state change when the job is unknown, not
    /// running, has no recorded pid, or signal delivery fails.
    pub fn cancel_job(&mut self, job_id: &str, now_ms: u64) -> (r: Result<(), JobError>)
        requires
            old(self).wf(),
        ensures
            final(self).wf(),
            match r {
                Ok(()) => {
                    let m = old(self)@.jobs[the_job_index(old(self)@.jobs, job_id@)];
                    &&& has_job(old(self)@.jobs, job_id@)
                    &&& m.status is Running
                    &&& m.pid is Some
                    &&& final(self)@ == registry_cancel(old(self)@, job_id@, now_ms)
                },
                Err(e) => {
                    &&& final(self)@ == old(self)@
                    &&& match e {
                        JobError::NotFound => !has_job(old(self)@.jobs, job_id@),
                        JobError::NotRunning => has_job(old(self)@.jobs, job_id@) && !(old(
                            self,
                        )@.jobs[the_job_index(old(self)@.jobs, job_id@)].status is Running),
                        JobError::MissingPid => {
                            let m = old(self)@.jobs[the_job_index(old(self)@.jobs, job_id@)];
                            has_job(old(self)@.jobs, job_id@) && m.status is Running && m.pid
                                is None
                        },
                        JobError::SignalFailed(_) => {
                            let m = old(self)@.jobs[the_job_index(old(self)@.jobs, job_id@)];
                            has_job(old(self)@.jobs, job_id@) && m.status is Running && m.pid
                                is Some
                        },
                    }
                },
            },
    {
        let ghost oldm = old(self)@;
        match self.find_index(job_id) {
            None => Err(JobError::NotFound),
            Some(i) => {
                proof {
                    lemma_index_unique(oldm, job_id@, i as int);
                }
                if !(self.jobs[i].status == JobStatus::Running) {
                    return Err(JobError::NotRunning);
                }
                match self.jobs[i].pid {
                    None => Err(JobError::MissingPid),
                    Some(pid) => {
                        match send_sigterm(pid) {
                            Err(e) => Err(JobError::SignalFailed(e)),
                            Ok(()) => {
                                let mut rec = self.jobs.remove(i);
                                let ghost m0 = rec@;
                                rec.status = JobStatus::Canceled;
                                rec.finished_at = Some(now_ms);
                                assert(rec@ =~= cancel_model(m0, now_ms));
                                self.jobs.insert(i, rec);
                                proof {
                                    assert(registry_wf(oldm));
                                    assert(self@.jobs =~= registry_cancel(oldm, job_id@, now_ms).jobs);
                                    assert(self@ =~= registry_cancel(oldm, job_id@, now_ms));
                                }
                                Ok(())
                            },
                        }
                    },
                }
            },
        }
    }

    /// Delete a job from history.
    pub fn delete_job(&mut self, job_id: &str) -> (r: Result<(), JobError>)
        requires
            old(self).wf(),
        ensures
            final(self).wf(),
            match r {
                Ok(()) => {
                    &&& has_job(old(self)@.jobs, job_id@)
                    &&& final(self)@.jobs == old(self)@.jobs.remove(
                        the_job_index(old(self)@.jobs, job_id@),
                    )
                    &&& final(self)@.counter == old(self)@.counter
                },
                Err(e) => e == JobError::NotFound && !has_job(old(self)@.jobs, job_id@)
                    && final(self)@ == old(self)@,
            },
    {
        let ghost oldm = old(self)@;
        match self.find_index(job_id) {
            None => Err(JobError::NotFound),
            Some(i) => {
                proof {
                    lemma_index_unique(oldm, job_id@, i as int);
                }
                let _removed = self.jobs.remove(i);
                proof {
                    assert(registry_wf(oldm));
                    assert(self@.jobs =~= oldm.jobs.remove(i as int));
                    assert(oldm.jobs.remove(i as int)
                        =~= oldm.jobs.subrange(0, i as int) + oldm.jobs.subrange(
                        i + 1,
                        oldm.jobs.len() as int,
                    ));
                }
                Ok(())
            },
        }
    }
}

impl Default for JobManager {
    /// Same as `JobManager::new`.
    fn default() -> (r: Self)
        ensures
            r.wf(),
            r@.jobs == Seq::<JobModel>::empty(),
            r@.counter == 1u64,
    {
        Self::new()
    }
}

/// Registry after adding tags to the job with this id.
pub open spec fn registry_add_tags(
    m: RegistryModel,
    id: Seq<char>,
    new: Seq<Seq<char>>,
) -> RegistryModel {
    RegistryModel {
        jobs: m.jobs.map_values(
            |j: JobModel|
                if j.job_id == id {
                    JobModel { tags: add_tags_spec(j.tags, new), ..j }
                } else {
                    j
                },
        ),
        ..m
    }
}

/// Where a bounded range read ends: `min(offset + limit, total)`.
pub open spec fn range_end(total: int, offset: int, limit: int) -> int {
    if offset + limit < total {
        offset + limit
    } else {
        total
    }
}

/// The slice a bounded range read returns; empty once `offset` passes the
/// end.
pub open spec fn range_slice(full: Seq<u8>, offset: int, limit: int) -> Seq<u8> {
    if offset < full.len() {
        full.subrange(offset, range_end(full.len() as int, offset, limit))
    } else {
        Seq::empty()
    }
}

/// Relies on nix::sys::signal::kill to deliver SIGTERM to the process;
/// the outcome depends on the operating system, so nothing is promised of
/// the result beyond its shape.
#[verifier::external_body]
fn send_sigterm(pid: u32) -> (r: Result<(), i32>) {
    match nix::sys::signal::kill(
        nix::unistd::Pid::from_raw(pid as i32),
        nix::sys::signal::Signal::SIGTERM,
    ) {
        Ok(()) => Ok(()),
        Err(e) => Err(e as i32),
    }
}

/// Copy of `v[from..to]`.
fn bytes_range(v: &Vec<u8>, from: usize, to: usize) -> (r: Vec<u8>)
    requires
        from <= to <= v@.len(),
    ensures
        r@ == v@.subrange(from as int, to as int),
{
    let mut r: Vec<u8> = Vec::new();
    let mut i: usize = from;
    while i < to
        invariant
            from <= i <= to <= v@.len(),
            r@ == v@.subrange(from as int, i as int),
        decreases to - i,
    {
        r.push(v[i]);
        assert(r@ =~= v@.subrange(from as int, i + 1));
        i = i + 1;
    }
    r
}

/// Fold `new` into `dst`, skipping tags already present.
fn merge_tags(dst: Vec<String>, new: Vec<String>) -> (r: Vec<String>)
    ensures
        r.deep_view() == add_tags_spec(dst.deep_view(), new.deep_view()),
{
    let ghost all = new.deep_view();
    let mut out = dst;
    let n = new.len();
    let mut i: usize = 0;
    proof {
        assert(all.subrange(0, all.len() as int) =~= all);
    }
    while i < n
        invariant
            i <= n,
            n == new@.len(),
            all == new.deep_view(),
            add_tags_spec(dst.deep_view(), all) == add_tags_spec(
                out.deep_view(),
                all.subrange(i as int, all.len() as int),
            ),
        decreases n - i,
    {
        let ghost rest = all.subrange(i as int, all.len() as int);
        let ghost out0 = out.deep_view();
        proof {
            assert(rest.len() > 0);
            assert(rest[0] == all[i as int]);
            assert(rest.drop_first() =~= all.subrange(i + 1, all.len() as int));
        }
        let present = vec_contains_string(&out, &new[i]);
        if !present {
            out.push(new[i].clone());
            proof {
                assert(out.deep_view() =~= out0.push(all[i as int]));
            }
        }
        i = i + 1;
    }
    proof {
        assert(all.subrange(n as int, all.len() as int) =~= Seq::<Seq<char>>::empty());
    }
    out
}

/// Under `registry_wf`, a found index is the index.
proof fn lemma_index_unique(m: RegistryModel, id: Seq<char>, i: int)
    requires
        registry_wf(m),
        0 <= i < m.jobs.len(),
        m.jobs[i].job_id == id,
    ensures
        has_job(m.jobs, id),
        the_job_index(m.jobs, id) == i,
{
    assert(has_job(m.jobs, id));
    let j = the_job_index(m.jobs, id);
    assert(0 <= j < m.jobs.len() && m.jobs[j].job_id == id);
    if i != j {
        if i < j {
            assert(m.jobs[i].job_id != m.jobs[j].job_id);
        } else {
            assert(m.jobs[j].job_id != m.jobs[i].job_id);
        }
    }
}

/// A freshly registered record satisfies the record invariants.
proof fn lemma_fresh_job_wf(m: JobModel)
    requires
        exists|id: Seq<char>, c: Seq<char>, sh: Seq<char>, cw: Seq<char>, p: Option<u32>, t: Seq<
            Seq<char>,
        >, now: u64| m == fresh_job(id, c, sh, cw, p, t, now),
    ensures
        record_wf(m),
{
    assert(m.output =~= m.full_output.subrange(0, m.output.len() as int));
}

/// Appends preserve the record invariants.
proof fn lemma_append_model_wf(m: JobModel, data: Seq<u8>, limit: int)
    requires
        record_wf(m),
    ensures
        record_wf(append_model(m, data, limit)),
{
    if m.status is Running {
        let take = preview_take(m.output.len() as int, m.truncated, data.len() as int, limit);
        let m2 = append_model(m, data, limit);
        assert(0 <= take <= data.len());
        if !m.truncated {
            assert(m.output =~= m.full_output);
            assert(m2.output =~= m2.full_output.subrange(0, m2.output.len() as int));
        } else {
            assert(m2.output == m.output);
            assert(m.output =~= m.full_output.subrange(0, m.output.len() as int));
            assert(m2.output =~= m2.full_output.subrange(0, m2.output.len() as int));
        }
    }
}

/// First 100 characters of the command, elided when longer.
fn make_summary(command: &String) -> (r: String)
    ensures
        r@ == summary_spec(command@),
{
    let n = command.as_str().unicode_len();
    if n > 100 {
        let mut s = String::from_str(command.as_str().substring_char(0, 97));
        s.append("...");
        s
    } else {
        command.clone()
    }
}

/// Keep the first occurrence of each tag, in order.
fn dedup_tags_exec(tags: Vec<String>) -> (r: Vec<String>)
    ensures
        r.deep_view() == dedup_tags_spec(tags.deep_view()),
{
    let empty: Vec<String> = Vec::new();
    proof {
        assert(empty.deep_view() =~= Seq::<Seq<char>>::empty());
    }
    merge_tags(empty, tags)
}

/// Is a string with this view among the vector's elements?
fn vec_contains_string(v: &Vec<String>, s: &String) -> (r: bool)
    ensures
        r == v.deep_view().contains(s@),
{
    let n = v.len();
    let mut i: usize = 0;
    while i < n
        invariant
            i <= n,
            n == v@.len(),
            forall|k: int| 0 <= k < i ==> v.deep_view()[k] != s@,
        decreases n - i,
    {
        if string_eq(&v[i], s) {
            assert(v.deep_view()[i as int] == s@);
            return true;
        }
        i = i + 1;
    }
    assert(forall|k: int| 0 <= k < v.deep_view().len() ==> v.deep_view()[k] != s@);
    false
}

// ---------------------------------------------------------------------------
// Listing
// ---------------------------------------------------------------------------

/// The models of a sequence of records.
pub open spec fn models_of(records: Seq<JobRecord>) -> Seq<JobModel> {
    records.map_values(|r: JobRecord| r@)
}

/// Sorted by start time, newest first.
pub open spec fn sorted_newest_first(jobs: Seq<JobModel>) -> bool {
    forall|i: int, j: int|
        0 <= i < j < jobs.len() ==> (#[trigger] jobs[i]).started_at >= (#[trigger] jobs[j]).started_at
}

/// The view of an optional status slice.
pub open spec fn opt_statuses_view(o: Option<&[JobStatus]>) -> Option<Seq<JobStatus>> {
    match o {
        Some(s) => Some(s@),
        None => None,
    }
}

/// The view of an optional string slice.
pub open spec fn opt_str_view(o: Option<&str>) -> Option<Seq<char>> {
    match o {
        Some(s) => Some(s@),
        None => None,
    }
}

/// All the given filters accept the record: its status is among the wanted
/// ones, it carries the wanted tag, and its working directory matches.
pub open spec fn passes_filters(
    m: JobModel,
    status_filter: Option<Seq<JobStatus>>,
    tag_filter: Option<Seq<char>>,
    cwd_filter: Option<Seq<char>>,
) -> bool {
    &&& match status_filter {
        Some(ss) => ss.contains(m.status),
        None => true,
    }
    &&& match tag_filter {
        Some(t) => m.tags.contains(t),
        None => true,
    }
    &&& match cwd_filter {
        Some(c) => m.cwd == c,
        None => true,
    }
}

/// The jobs that pass the filters, in registry order.
pub open spec fn filtered_jobs(
    jobs: Seq<JobModel>,
    status_filter: Option<Seq<JobStatus>>,
    tag_filter: Option<Seq<char>>,
    cwd_filter: Option<Seq<char>>,
) -> Seq<JobModel> {
    jobs.filter(|m: JobModel| passes_filters(m, status_filter, tag_filter, cwd_filter))
}

/// Is `st` among the slice's statuses?
fn statuses_contain(ss: &[JobStatus], st: JobStatus) -> (r: bool)
    ensures
        r == ss@.contains(st),
{
    let n = ss.len();
    let mut i: usize = 0;
    while i < n
        invariant
            i <= n,
            n == ss@.len(),
            forall|k: int| 0 <= k < i ==> ss@[k] != st,
        decreases n - i,
    {
        if ss[i] == st {
            return true;
        }
        i = i + 1;
    }
    false
}

/// Does the job carry a tag with this text?
fn tags_contain(tags: &Vec<String>, t: &str) -> (r: bool)
    ensures
        r == tags.deep_view().contains(t@),
{
    let n = tags.len();
    let mut i: usize = 0;
    while i < n
        invariant
            i <= n,
            n == tags@.len(),
            forall|k: int| 0 <= k < i ==> tags.deep_view()[k] != t@,
        decreases n - i,
    {
        if str_eq(tags[i].as_str(), t) {
            assert(tags.deep_view()[i as int] == t@);
            return true;
        }
        i = i + 1;
    }
    assert(forall|k: int| 0 <= k < tags.deep_view().len() ==> tags.deep_view()[k] != t@);
    false
}

/// Do all the filters accept this record?
fn record_passes(
    rec: &JobRecord,
    status_filter: Option<&[JobStatus]>,
    tag_filter: Option<&str>,
    cwd_filter: Option<&str>,
) -> (r: bool)
    ensures
        r == passes_filters(
            rec@,
            opt_statuses_view(status_filter),
            opt_str_view(tag_filter),
            opt_str_view(cwd_filter),
        ),
{
    let status_ok = match status_filter {
        None => true,
        Some(ss) => statuses_contain(ss, rec.status),
    };
    let tag_ok = match tag_filter {
        None => true,
        Some(t) => tags_contain(&rec.tags, t),
    };
    let cwd_ok = match cwd_filter {
        None => true,
        Some(c) => str_eq(rec.cwd.as_str(), c),
    };
    status_ok && tag_ok && cwd_ok
}

/// Selection sort of records by start time, newest first.  The result holds
/// the same records (as a multiset of models), in sorted order.
fn sort_records(input: Vec<JobRecord>) -> (r: Vec<JobRecord>)
    ensures
        models_of(r@).to_multiset() == models_of(input@).to_multiset(),
        sorted_newest_first(models_of(r@)),
{
    broadcast use vstd::seq_lib::group_to_multiset_ensures;
    broadcast use vstd::multiset::group_multiset_axioms;

    let mut working = input;
    let mut out: Vec<JobRecord> = Vec::new();
    proof {
        assert(models_of(out@) =~= Seq::<JobModel>::empty());
        assert(models_of(out@).to_multiset().add(models_of(working@).to_multiset())
            =~= models_of(input@).to_multiset());
    }
    while working.len() > 0
        invariant
            models_of(out@).to_multiset().add(models_of(working@).to_multiset()) == models_of(
                input@,
            ).to_multiset(),
            sorted_newest_first(models_of(out@)),
            forall|a: int, b: int|
                0 <= a < out@.len() && 0 <= b < working@.len() ==> (#[trigger] models_of(out@)[a]).started_at
                    >= (#[trigger] models_of(working@)[b]).started_at,
        decreases working@.len(),
    {
        let mut best: usize = 0;
        let mut k: usize = 1;
        while k < working.len()
            invariant
                working@.len() > 0,
                best < working@.len(),
                k <= working@.len(),
                forall|j: int|
                    0 <= j < k ==> (#[trigger] models_of(working@)[j]).started_at <= models_of(
                        working@,
                    )[best as int].started_at,
            decreases working@.len() - k,
        {
            if working[k].started_at > working[best].started_at {
                best = k;
            }
            k = k + 1;
        }
        let ghost w0 = models_of(working@);
        let ghost out0 = models_of(out@);
        let rec = working.remove(best);
        out.push(rec);
        proof {
            assert(models_of(working@) =~= w0.remove(best as int));
            assert(models_of(out@) =~= out0.push(w0[best as int]));
            assert(w0.contains(w0[best as int]));
            vstd::seq_lib::to_multiset_contains(w0, w0[best as int]);
            vstd::seq_lib::to_multiset_build(out0, w0[best as int]);
            vstd::seq_lib::to_multiset_remove(w0, best as int);
            assert(w0.to_multiset().count(w0[best as int]) > 0);
            assert(models_of(out@).to_multiset() == out0.to_multiset().insert(w0[best as int]));
            assert(models_of(working@).to_multiset() == w0.to_multiset().remove(w0[best as int]));
            assert(models_of(out@).to_multiset().add(models_of(working@).to_multiset())
                =~= models_of(input@).to_multiset());
            assert forall|a: int, b: int|
                0 <= a < models_of(out@).len() && 0 <= b < models_of(working@).len() implies (
            #[trigger] models_of(out@)[a]).started_at >= (#[trigger] models_of(
                working@,
            )[b]).started_at by {
                assert(models_of(working@)[b] == if b < best { w0[b] } else { w0[b + 1] });
            }
        }
    }
    proof {
        assert(models_of(working@) =~= Seq::<JobModel>::empty());
        assert(models_of(out@).to_multiset() =~= models_of(input@).to_multiset());
    }
    out
}

impl JobManager {
    /// List all jobs, newest first.
    pub fn list_jobs(&self) -> (r: Vec<JobRecord>)
        requires
            self.wf(),
        ensures
            models_of(r@).to_multiset() == self@.jobs.to_multiset(),
            sorted_newest_first(models_of(r@)),
    {
        let mut picked: Vec<JobRecord> = Vec::new();
        let n = self.jobs.len();
        let mut i: usize = 0;
        proof {
            assert(models_of(picked@) =~= self@.jobs.subrange(0, 0));
        }
        while i < n
            invariant
                i <= n,
                n == self.jobs@.len(),
                models_of(picked@) == self@.jobs.subrange(0, i as int),
            decreases n - i,
        {
            let ghost p0 = models_of(picked@);
            picked.push(self.jobs[i].clone_record());
            proof {
                assert(models_of(picked@) =~= p0.push(self@.jobs[i as int]));
                assert(models_of(picked@) =~= self@.jobs.subrange(0, i + 1));
            }
            i = i + 1;
        }
        proof {
            assert(self@.jobs.subrange(0, n as int) =~= self@.jobs);
        }
        sort_records(picked)
    }

    /// List jobs accepted by the given filters, newest first.
    pub fn list_jobs_filtered(
        &self,
        status_filter: Option<&[JobStatus]>,
        tag_filter: Option<&str>,
        cwd_filter: Option<&str>,
    ) -> (r: Vec<JobRecord>)
        requires
            self.wf(),
        ensures
            models_of(r@).to_multiset() == filtered_jobs(
                self@.jobs,
                opt_statuses_view(status_filter),
                opt_str_view(tag_filter),
                opt_str_view(cwd_filter),
            ).to_multiset(),
            sorted_newest_first(models_of(r@)),
    {
        let ghost sfv = opt_statuses_view(status_filter);
        let ghost tfv = opt_str_view(tag_filter);
        let ghost cfv = opt_str_view(cwd_filter);
        let mut picked: Vec<JobRecord> = Vec::new();
        let n = self.jobs.len();
        let mut i: usize = 0;
        proof {
            assert(self@.jobs.subrange(0, 0) =~= Seq::<JobModel>::empty());
            reveal(Seq::filter);
            assert(models_of(picked@) =~= filtered_jobs(self@.jobs.subrange(0, 0), sfv, tfv, cfv));
        }
        while i < n
            invariant
                i <= n,
                n == self.jobs@.len(),
                sfv == opt_statuses_view(status_filter),
                tfv == opt_str_view(tag_filter),
                cfv == opt_str_view(cwd_filter),
                models_of(picked@) == filtered_jobs(self@.jobs.subrange(0, i as int), sfv, tfv, cfv),
            decreases n - i,
        {
            let ghost p0 = models_of(picked@);
            let keep = record_passes(&self.jobs[i], status_filter, tag_filter, cwd_filter);
            proof {
                let prev = self@.jobs.subrange(0, i as int);
                let cur = self@.jobs.subrange(0, i + 1);
                assert(cur.drop_last() =~= prev);
                assert(cur.last() == self@.jobs[i as int]);
                reveal(Seq::filter);
                assert(filtered_jobs(cur, sfv, tfv, cfv) == if passes_filters(
                    self@.jobs[i as int],
                    sfv,
                    tfv,
                    cfv,
                ) {
                    filtered_jobs(prev, sfv, tfv, cfv).push(self@.jobs[i as int])
                } else {
                    filtered_jobs(prev, sfv, tfv, cfv)
                });
            }
            if keep {
                picked.push(self.jobs[i].clone_record());
                proof {
                    assert(models_of(picked@) =~= p0.push(self@.jobs[i as int]));
                }
            }
            i = i + 1;
        }
        proof {
            assert(self@.jobs.subrange(0, n as int) =~= self@.jobs);
        }
        sort_records(picked)
    }
}

// ---------------------------------------------------------------------------
// Laws
// ---------------------------------------------------------------------------

/// The registry invariants, spelled out: for every job, the preview is a
/// prefix of the full capture, the read cursor never passes the end of the
/// capture, and `truncated` holds exactly when a captured byte is missing
/// from the preview.
pub proof fn lemma_registry_invariants(m: RegistryModel)
    requires
        registry_wf(m),
    ensures
        forall|i: int|
            0 <= i < m.jobs.len() ==> is_prefix_of(
                (#[trigger] m.jobs[i]).output,
                m.jobs[i].full_output,
            ),
        forall|i: int|
            0 <= i < m.jobs.len() ==> 0 <= (#[trigger] m.jobs[i]).last_read_position
                <= m.jobs[i].full_output.len(),
        forall|i: int|
            0 <= i < m.jobs.len() ==> ((#[trigger] m.jobs[i]).truncated <==> m.jobs[i].full_output.len()
                > m.jobs[i].output.len()),
{
}

/// Terminal records are frozen: neither appends nor further completions
/// change a record whose status is no longer Running, so a terminal status
/// is sticky and only `cancel_job` (which demands a running job) or the
/// cursor and tag operations touch a job again.
pub proof fn lemma_terminal_status_frozen(
    m: JobModel,
    data: Seq<u8>,
    limit: int,
    exit_code: Option<i32>,
    status: JobStatus,
    now_ms: u64,
)
    requires
        !(m.status is Running),
    ensures
        append_model(m, data, limit) == m,
        complete_model(m, exit_code, status, now_ms) == m,
{
}

/// Consecutive incremental reads concatenate to the capture past the first
/// cursor: reading, then appending, then reading again yields exactly the
/// bytes the capture gained since the first cursor position.
pub proof fn lemma_incremental_reads_concatenate(m0: JobModel, data: Seq<u8>, limit: int)
    requires
        record_wf(m0),
        m0.status is Running,
    ensures
        ({
            let b1 = incremental_bytes(m0);
            let m1 = JobModel { last_read_position: m0.full_output.len() as int, ..m0 };
            let m2 = append_model(m1, data, limit);
            let b2 = incremental_bytes(m2);
            b1 + b2 == m2.full_output.subrange(
                m0.last_read_position,
                m2.full_output.len() as int,
            )
        }),
{
    let b1 = incremental_bytes(m0);
    let m1 = JobModel { last_read_position: m0.full_output.len() as int, ..m0 };
    let m2 = append_model(m1, data, limit);
    let b2 = incremental_bytes(m2);
    assert(b2 =~= data);
    assert(b1 + b2 =~= m2.full_output.subrange(
        m0.last_read_position,
        m2.full_output.len() as int,
    ));
}

/// Round trip of the capture: register, append `b1`, append `b2`, complete;
/// the full output then reads `b1 + b2`, and the final status and exit code
/// are the completed ones.
pub proof fn lemma_capture_round_trip(
    job_id: Seq<char>,
    command: Seq<char>,
    shell: Seq<char>,
    cwd: Seq<char>,
    pid: Option<u32>,
    tags: Seq<Seq<char>>,
    now_ms: u64,
    b1: Seq<u8>,
    b2: Seq<u8>,
    limit: int,
    exit_code: Option<i32>,
    status: JobStatus,
    finish_ms: u64,
)
    requires
        !(status is Running),
    ensures
        ({
            let m = complete_model(
                append_model(
                    append_model(fresh_job(job_id, command, shell, cwd, pid, tags, now_ms), b1, limit),
                    b2,
                    limit,
                ),
                exit_code,
                status,
                finish_ms,
            );
            m.full_output == b1 + b2 && m.status == status && m.exit_code == exit_code
                && m.finished_at == Some(finish_ms)
        }),
{
    let f = fresh_job(job_id, command, shell, cwd, pid, tags, now_ms);
    let m1 = append_model(f, b1, limit);
    let m2 = append_model(m1, b2, limit);
    assert(m1.full_output =~= b1);
    assert(m2.full_output =~= b1 + b2);
}

/// Incremental round trip: on a fresh job, appending `x` and reading
/// incrementally yields `x` (with the job still running); appending `y`
/// and reading again yields exactly `y`.
pub proof fn lemma_incremental_round_trip(
    job_id: Seq<char>,
    command: Seq<char>,
    shell: Seq<char>,
    cwd: Seq<char>,
    pid: Option<u32>,
    tags: Seq<Seq<char>>,
    now_ms: u64,
    x: Seq<u8>,
    y: Seq<u8>,
    limit: int,
)
    ensures
        ({
            let f = fresh_job(job_id, command, shell, cwd, pid, tags, now_ms);
            let m1 = append_model(f, x, limit);
            let m1r = JobModel { last_read_position: m1.full_output.len() as int, ..m1 };
            let m2 = append_model(m1r, y, limit);
            &&& incremental_bytes(m1) == x
            &&& m1.status is Running
            &&& incremental_bytes(m2) == y
        }),
{
    let f = fresh_job(job_id, command, shell, cwd, pid, tags, now_ms);
    let m1 = append_model(f, x, limit);
    let m1r = JobModel { last_read_position: m1.full_output.len() as int, ..m1 };
    let m2 = append_model(m1r, y, limit);
    assert(m1.full_output =~= x);
    assert(incremental_bytes(m1) =~= x);
    assert(incremental_bytes(m2) =~= y);
}

/// With `output_limit == 0` the preview never grows, and the first captured
/// byte marks the record truncated.
pub proof fn lemma_zero_limit_preview_empty(m: JobModel, data: Seq<u8>)
    requires
        m.status is Running,
        m.output.len() == 0,
    ensures
        append_model(m, data, 0).output.len() == 0,
        data.len() > 0 ==> append_model(m, data, 0).truncated,
{
    let take = preview_take(m.output.len() as int, m.truncated, data.len() as int, 0);
    assert(take == 0);
    assert(data.subrange(0, 0) =~= Seq::<u8>::empty());
}

/// Pagination past the end: when `offset` is at or past the total length,
/// the slice is empty and nothing more follows.
pub proof fn lemma_range_past_end(full: Seq<u8>, offset: int, limit: int)
    requires
        offset >= full.len(),
        limit >= 0,
    ensures
        range_slice(full, offset, limit) == Seq::<u8>::empty(),
        !(range_end(full.len() as int, offset, limit) < full.len()),
{
}

/// Distinct counter values yield distinct job ids, so ids handed out by
/// `new_job_id` are unique for the lifetime of the registry.
pub proof fn lemma_job_ids_unique(n1: u64, n2: u64)
    requires
        n1 != n2,
    ensures
        job_id_spec(n1) != job_id_spec(n2),
{
    lemma_decimal_digits_injective(n1 as nat, n2 as nat);
    let p = "job-"@;
    let d1 = decimal_digits(n1 as nat);
    let d2 = decimal_digits(n2 as nat);
    if job_id_spec(n1) == job_id_spec(n2) {
        assert(d1 =~= (p + d1).subrange(p.len() as int, (p + d1).len() as int));
        assert(d2 =~= (p + d2).subrange(p.len() as int, (p + d2).len() as int));
        assert(false);
    }
}

} // verus!
