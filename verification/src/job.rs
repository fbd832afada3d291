//! Download job definitions and status transitions.
//!
//! A job is a persisted request of one or more per-instrument tasks. Its
//! identifier is a random 128-bit value; instants are calendar timestamps.
//! Terminal statuses are sinks: once a job or task is completed, failed or
//! cancelled, no transition leaves that state.

use vstd::prelude::*;

use crate::text::chars_to_string;
use crate::text::hex_chars_padded;
use crate::text::hex_seq_val;
use crate::text::is_hex_digit;
use crate::text::lemma_hex_chars_padded_value;
use crate::text::lemma_hex_seq_val_bound;
use crate::text::parse_hex_u128;
use crate::text::pow16;
use crate::text::push_hex_padded;
use crate::text::str_to_chars;
use crate::time::Timestamp;

verus! {

/// Unique identifier of a download job: a random 128-bit value.
pub type JobId = u128;

/// Relies on uuid::Uuid::new_v4: a freshly generated random identifier,
/// handed out as its 128-bit value. Nothing is promised of the value.
#[verifier::external_body]
fn fresh_job_id() -> (r: u128) {
    uuid::Uuid::new_v4().as_u128()
}

/// Relies on chrono::Utc::now: the current UTC instant of the system
/// clock, as milliseconds since the epoch. The clamp below zero is purely
/// defensive. Nothing is promised of the value.
#[verifier::external_body]
fn now_epoch_ms() -> (r: u64) {
    let ms = chrono::Utc::now().timestamp_millis();
    if ms < 0 {
        0
    } else {
        ms as u64
    }
}

/// The current instant as a calendar timestamp. Whatever the clock reads,
/// the result is well formed; a reading beyond year 9999 folds to the
/// epoch.
pub fn now_timestamp() -> (t: Timestamp)
    ensures
        t.wf(),
{
    match Timestamp::from_epoch_ms(now_epoch_ms()) {
        Some(t) => t,
        None => Timestamp::epoch(),
    }
}

/// Status of a download job or task.
#[derive(Clone, Copy, PartialEq, Eq, Structural, Debug)]
pub enum JobStatus {
    /// Queued but not yet started.
    Pending,
    /// Currently running.
    Running,
    /// Suspended by a controller; may resume.
    Paused,
    /// Completed successfully.
    Completed,
    /// Failed with an error.
    Failed,
    /// Cancelled by the user.
    Cancelled,
}

impl Default for JobStatus {
    /// A fresh job or task is pending.
    fn default() -> (r: Self)
        ensures
            r == JobStatus::Pending,
    {
        JobStatus::Pending
    }
}

impl JobStatus {
    /// Whether the status is terminal: completed, failed or cancelled.
    pub open spec fn is_terminal(self) -> bool {
        self is Completed || self is Failed || self is Cancelled
    }

    /// Returns true if the status is terminal.
    pub fn is_finished(&self) -> (r: bool)
        ensures
            r == self.is_terminal(),
    {
        matches!(self, JobStatus::Completed | JobStatus::Failed | JobStatus::Cancelled)
    }

    /// The lowercase tag of the status.
    pub open spec fn tag(self) -> Seq<char> {
        match self {
            JobStatus::Pending => seq!['p', 'e', 'n', 'd', 'i', 'n', 'g'],
            JobStatus::Running => seq!['r', 'u', 'n', 'n', 'i', 'n', 'g'],
            JobStatus::Paused => seq!['p', 'a', 'u', 's', 'e', 'd'],
            JobStatus::Completed => seq!['c', 'o', 'm', 'p', 'l', 'e', 't', 'e', 'd'],
            JobStatus::Failed => seq!['f', 'a', 'i', 'l', 'e', 'd'],
            JobStatus::Cancelled => seq!['c', 'a', 'n', 'c', 'e', 'l', 'l', 'e', 'd'],
        }
    }

    /// Returns the status as its string tag.
    pub fn as_str(&self) -> (r: &'static str)
        ensures
            r@ == self.tag(),
    {
        proof {
            reveal_strlit("pending");
            reveal_strlit("running");
            reveal_strlit("paused");
            reveal_strlit("completed");
            reveal_strlit("failed");
            reveal_strlit("cancelled");
        }
        match self {
            JobStatus::Pending => "pending",
            JobStatus::Running => "running",
            JobStatus::Paused => "paused",
            JobStatus::Completed => "completed",
            JobStatus::Failed => "failed",
            JobStatus::Cancelled => "cancelled",
        }
    }
}

/// A download task for a single instrument within a job.
#[derive(Debug, Clone)]
pub struct InstrumentTask {
    /// The instrument identifier (e.g., "eurusd").
    pub instrument_id: String,
    /// Start date for the download (inclusive), as YYYY-MM-DD.
    pub start_date: String,
    /// End date for the download (inclusive), as YYYY-MM-DD.
    pub end_date: String,
    /// Output file path for this instrument's data.
    pub output_path: String,
    /// Output format tag (e.g., "csv", "json").
    pub format: String,
    /// Timeframe tag for aggregation (e.g., "tick", "m1").
    pub timeframe: String,
    /// Current status of the task.
    pub status: JobStatus,
    /// Number of hours completed for the task.
    pub hours_completed: u32,
    /// Total number of hours to download.
    pub hours_total: u32,
    /// Number of ticks downloaded so far.
    pub ticks_downloaded: u64,
    /// Number of bytes written to the output file.
    pub bytes_written: u64,
    /// Error message if the task failed.
    pub error_message: Option<String>,
}

impl InstrumentTask {
    /// Creates a new pending task with all counters at zero.
    pub fn new(
        instrument_id: String,
        start_date: String,
        end_date: String,
        output_path: String,
        format: String,
        timeframe: String,
        hours_total: u32,
    ) -> (r: InstrumentTask)
        ensures
            r.instrument_id == instrument_id,
            r.start_date == start_date,
            r.end_date == end_date,
            r.output_path == output_path,
            r.format == format,
            r.timeframe == timeframe,
            r.status == JobStatus::Pending,
            r.hours_completed == 0,
            r.hours_total == hours_total,
            r.ticks_downloaded == 0,
            r.bytes_written == 0,
            r.error_message is None,
    {
        InstrumentTask {
            instrument_id,
            start_date,
            end_date,
            output_path,
            format,
            timeframe,
            status: JobStatus::Pending,
            hours_completed: 0,
            hours_total,
            ticks_downloaded: 0,
            bytes_written: 0,
            error_message: None,
        }
    }
}

/// Sum of the tasks' total hours.
pub open spec fn sum_hours_total(tasks: Seq<InstrumentTask>) -> int
    decreases tasks.len(),
{
    if tasks.len() == 0 {
        0
    } else {
        sum_hours_total(tasks.drop_last()) + tasks.last().hours_total
    }
}

/// Sum of the tasks' completed hours.
pub open spec fn sum_hours_completed(tasks: Seq<InstrumentTask>) -> int
    decreases tasks.len(),
{
    if tasks.len() == 0 {
        0
    } else {
        sum_hours_completed(tasks.drop_last()) + tasks.last().hours_completed
    }
}

/// A complete download job containing one or more instrument tasks.
#[derive(Debug, Clone)]
pub struct DownloadJob {
    /// Unique identifier of this job.
    pub id: JobId,
    /// When the job was created.
    pub created_at: Timestamp,
    /// When the job started running.
    pub started_at: Option<Timestamp>,
    /// When the job reached a terminal state.
    pub completed_at: Option<Timestamp>,
    /// Current status of the job.
    pub status: JobStatus,
    /// The instrument download tasks, in execution order.
    pub tasks: Vec<InstrumentTask>,
    /// Number of concurrent downloads.
    pub concurrency: usize,
    /// Process id of the daemon running this job.
    pub pid: Option<u32>,
    /// Path of the log file of this job.
    pub log_file: Option<String>,
}

impl DownloadJob {
    /// Creates a new pending job with a fresh identifier, stamped with
    /// the current instant.
    pub fn new(tasks: Vec<InstrumentTask>, concurrency: usize) -> (r: DownloadJob)
        ensures
            r.created_at.wf(),
            r.started_at is None,
            r.completed_at is None,
            r.status == JobStatus::Pending,
            r.tasks == tasks,
            r.concurrency == concurrency,
            r.pid is None,
            r.log_file is None,
    {
        DownloadJob {
            id: fresh_job_id(),
            created_at: now_timestamp(),
            started_at: None,
            completed_at: None,
            status: JobStatus::Pending,
            tasks,
            concurrency,
            pid: None,
            log_file: None,
        }
    }

    /// Sum of the tasks' total hours.
    pub fn total_hours(&self) -> (n: u64)
        requires
            self.tasks@.len() <= 0xFFFF_FFFF,
        ensures
            n == sum_hours_total(self.tasks@),
    {
        let mut n: u64 = 0;
        let mut k: usize = 0;
        while k < self.tasks.len()
            invariant
                self.tasks@.len() <= 0xFFFF_FFFF,
                k <= self.tasks@.len(),
                n == sum_hours_total(self.tasks@.take(k as int)),
                n <= k * 0xFFFF_FFFF,
            decreases self.tasks@.len() - k,
        {
            proof {
                assert(self.tasks@.take(k + 1).drop_last() =~= self.tasks@.take(k as int));
            }
            n = n + self.tasks[k].hours_total as u64;
            k = k + 1;
        }
        proof {
            assert(self.tasks@.take(self.tasks@.len() as int) =~= self.tasks@);
        }
        n
    }

    /// Sum of the tasks' completed hours.
    pub fn completed_hours(&self) -> (n: u64)
        requires
            self.tasks@.len() <= 0xFFFF_FFFF,
        ensures
            n == sum_hours_completed(self.tasks@),
    {
        let mut n: u64 = 0;
        let mut k: usize = 0;
        while k < self.tasks.len()
            invariant
                self.tasks@.len() <= 0xFFFF_FFFF,
                k <= self.tasks@.len(),
                n == sum_hours_completed(self.tasks@.take(k as int)),
                n <= k * 0xFFFF_FFFF,
            decreases self.tasks@.len() - k,
        {
            proof {
                assert(self.tasks@.take(k + 1).drop_last() =~= self.tasks@.take(k as int));
            }
            n = n + self.tasks[k].hours_completed as u64;
            k = k + 1;
        }
        proof {
            assert(self.tasks@.take(self.tasks@.len() as int) =~= self.tasks@);
        }
        n
    }

    /// Returns true if the job is in a terminal state.
    pub fn is_finished(&self) -> (r: bool)
        ensures
            r == self.status.is_terminal(),
    {
        self.status.is_finished()
    }

    /// Marks a pending job as running under the given process id, stamped
    /// with the current instant.
    pub fn mark_started(&mut self, pid: u32)
        requires
            old(self).status == JobStatus::Pending,
        ensures
            final(self).status == JobStatus::Running,
            final(self).started_at matches Some(t) && t.wf(),
            final(self).pid == Some(pid),
            final(self).id == old(self).id,
            final(self).created_at == old(self).created_at,
            final(self).completed_at == old(self).completed_at,
            final(self).tasks == old(self).tasks,
            final(self).concurrency == old(self).concurrency,
            final(self).log_file == old(self).log_file,
    {
        self.status = JobStatus::Running;
        self.started_at = Some(now_timestamp());
        self.pid = Some(pid);
    }

    /// Marks the job as completed. A job already in a terminal state is
    /// left untouched: terminal states are sinks.
    pub fn mark_completed(&mut self)
        ensures
            old(self).status.is_terminal() ==> *final(self) == *old(self),
            !old(self).status.is_terminal() ==> final(self).status == JobStatus::Completed && (
            final(self).completed_at matches Some(t) && t.wf()),
            final(self).id == old(self).id,
            final(self).tasks == old(self).tasks,
            final(self).created_at == old(self).created_at,
            final(self).started_at == old(self).started_at,
            final(self).concurrency == old(self).concurrency,
            final(self).pid == old(self).pid,
            final(self).log_file == old(self).log_file,
    {
        if self.status.is_finished() {
            return ;
        }
        self.status = JobStatus::Completed;
        self.completed_at = Some(now_timestamp());
    }

    /// Marks the job as failed. When a message is given, every running
    /// task fails with that message; other tasks keep their state. A job
    /// already in a terminal state is left untouched.
    pub fn mark_failed(&mut self, error: Option<String>)
        ensures
            old(self).status.is_terminal() ==> *final(self) == *old(self),
            !old(self).status.is_terminal() ==> {
                &&& final(self).status == JobStatus::Failed
                &&& (final(self).completed_at matches Some(t) && t.wf())
                &&& final(self).tasks@.len() == old(self).tasks@.len()
                &&& forall|i: int|
                    0 <= i < old(self).tasks@.len() ==> {
                        let t0 = #[trigger] old(self).tasks@[i];
                        let t1 = final(self).tasks@[i];
                        if error is Some && t0.status == JobStatus::Running {
                            t1 == (InstrumentTask {
                                status: JobStatus::Failed,
                                error_message: t1.error_message,
                                ..t0
                            }) && (t1.error_message matches Some(m) && m@ == error->Some_0@)
                        } else {
                            t1 == t0
                        }
                    }
            },
            final(self).id == old(self).id,
            final(self).created_at == old(self).created_at,
            final(self).started_at == old(self).started_at,
            final(self).concurrency == old(self).concurrency,
            final(self).pid == old(self).pid,
            final(self).log_file == old(self).log_file,
    {
        if self.status.is_finished() {
            return ;
        }
        self.status = JobStatus::Failed;
        self.completed_at = Some(now_timestamp());
        if let Some(msg) = error {
            let n: usize = self.tasks.len();
            let mut k: usize = 0;
            while k < n
                invariant
                    n == old(self).tasks@.len(),
                    k <= n,
                    self.tasks@.len() == n,
                    forall|i: int|
                        0 <= i < n - k ==> #[trigger] self.tasks@[i] == old(self).tasks@[k + i],
                    forall|i: int|
                        0 <= i < k ==> {
                            let t0 = #[trigger] old(self).tasks@[i];
                            let t1 = self.tasks@[n - k + i];
                            if t0.status == JobStatus::Running {
                                t1 == (InstrumentTask {
                                    status: JobStatus::Failed,
                                    error_message: t1.error_message,
                                    ..t0
                                }) && (t1.error_message matches Some(m) && m@ == msg@)
                            } else {
                                t1 == t0
                            }
                        },
                    self.id == old(self).id,
                    self.created_at == old(self).created_at,
                    self.started_at == old(self).started_at,
                    (self.completed_at matches Some(t) && t.wf()),
                    self.status == JobStatus::Failed,
                    self.concurrency == old(self).concurrency,
                    self.pid == old(self).pid,
                    self.log_file == old(self).log_file,
                decreases n - k,
            {
                let t = self.tasks.remove(0);
                if matches!(t.status, JobStatus::Running) {
                    self.tasks.push(
                        InstrumentTask {
                            status: JobStatus::Failed,
                            error_message: Some(msg.clone()),
                            ..t
                        },
                    );
                } else {
                    self.tasks.push(t);
                }
                k = k + 1;
            }
        }
    }

    /// Marks the job as cancelled; every task not yet in a terminal state
    /// is cancelled with it. A job already in a terminal state is left
    /// untouched. Afterwards no task of a freshly cancelled job is in a
    /// non-terminal state, and the completion timestamp is set.
    pub fn mark_cancelled(&mut self)
        ensures
            old(self).status.is_terminal() ==> *final(self) == *old(self),
            !old(self).status.is_terminal() ==> {
                &&& final(self).status == JobStatus::Cancelled
                &&& (final(self).completed_at matches Some(t) && t.wf())
                &&& final(self).tasks@.len() == old(self).tasks@.len()
                &&& forall|i: int|
                    0 <= i < old(self).tasks@.len() ==> {
                        let t0 = #[trigger] old(self).tasks@[i];
                        let t1 = final(self).tasks@[i];
                        if t0.status.is_terminal() {
                            t1 == t0
                        } else {
                            t1 == (InstrumentTask { status: JobStatus::Cancelled, ..t0 })
                        }
                    }
                &&& forall|i: int|
                    0 <= i < final(self).tasks@.len()
                        ==> (#[trigger] final(self).tasks@[i]).status.is_terminal()
            },
            final(self).id == old(self).id,
            final(self).created_at == old(self).created_at,
            final(self).started_at == old(self).started_at,
            final(self).concurrency == old(self).concurrency,
            final(self).pid == old(self).pid,
            final(self).log_file == old(self).log_file,
    {
        if self.status.is_finished() {
            return ;
        }
        self.status = JobStatus::Cancelled;
        self.completed_at = Some(now_timestamp());
        let n: usize = self.tasks.len();
        let mut k: usize = 0;
        while k < n
            invariant
                n == old(self).tasks@.len(),
                k <= n,
                self.tasks@.len() == n,
                forall|i: int|
                    0 <= i < n - k ==> #[trigger] self.tasks@[i] == old(self).tasks@[k + i],
                forall|i: int|
                    0 <= i < k ==> {
                        let t0 = #[trigger] old(self).tasks@[i];
                        let t1 = self.tasks@[n - k + i];
                        if t0.status.is_terminal() {
                            t1 == t0
                        } else {
                            t1 == (InstrumentTask { status: JobStatus::Cancelled, ..t0 })
                        }
                    },
                self.id == old(self).id,
                self.created_at == old(self).created_at,
                self.started_at == old(self).started_at,
                (self.completed_at matches Some(t) && t.wf()),
                self.status == JobStatus::Cancelled,
                self.concurrency == old(self).concurrency,
                self.pid == old(self).pid,
                self.log_file == old(self).log_file,
            decreases n - k,
        {
            let t = self.tasks.remove(0);
            if t.status.is_finished() {
                self.tasks.push(t);
            } else {
                self.tasks.push(InstrumentTask { status: JobStatus::Cancelled, ..t });
            }
            k = k + 1;
        }
        proof {
            assert forall|i: int|
                0 <= i < self.tasks@.len() implies (#[trigger] self.tasks@[i]).status.is_terminal() by {
                let t0 = old(self).tasks@[i];
                assert(self.tasks@[n - n + i] == self.tasks@[i]);
            }
        }
    }

    /// Pauses a running job; any other status is left untouched.
    pub fn mark_paused(&mut self)
        ensures
            old(self).status == JobStatus::Running ==> *final(self) == (DownloadJob {
                status: JobStatus::Paused,
                ..*old(self)
            }),
            old(self).status != JobStatus::Running ==> *final(self) == *old(self),
    {
        if matches!(self.status, JobStatus::Running) {
            self.status = JobStatus::Paused;
        }
    }

    /// Readies a paused job whose daemon died for a fresh spawn: back to
    /// pending with no recorded process, everything else kept. Any other
    /// status is left untouched.
    pub fn reset_for_respawn(&mut self)
        ensures
            old(self).status == JobStatus::Paused ==> *final(self) == (DownloadJob {
                status: JobStatus::Pending,
                pid: None,
                ..*old(self)
            }),
            old(self).status != JobStatus::Paused ==> *final(self) == *old(self),
    {
        if matches!(self.status, JobStatus::Paused) {
            self.status = JobStatus::Pending;
            self.pid = None;
        }
    }

    /// Resumes a paused job under the given process id; any other status
    /// is left untouched.
    pub fn mark_resumed(&mut self, pid: u32)
        ensures
            old(self).status == JobStatus::Paused ==> *final(self) == (DownloadJob {
                status: JobStatus::Running,
                pid: Some(pid),
                ..*old(self)
            }),
            old(self).status != JobStatus::Paused ==> *final(self) == *old(self),
    {
        if matches!(self.status, JobStatus::Paused) {
            self.status = JobStatus::Running;
            self.pid = Some(pid);
        }
    }
}

/// The canonical text of a job identifier: five lowercase-hex segments of
/// 8, 4, 4, 4 and 12 digits, hyphen-separated.
pub open spec fn uuid_chars(id: int) -> Seq<char> {
    hex_chars_padded(id / 0x1000000000000000000000000, 8) + seq!['-'] + hex_chars_padded(
        id / 0x100000000000000000000 % 0x10000,
        4,
    ) + seq!['-'] + hex_chars_padded(id / 0x10000000000000000 % 0x10000, 4) + seq!['-']
        + hex_chars_padded(id / 0x1000000000000 % 0x10000, 4) + seq!['-'] + hex_chars_padded(
        id % 0x1000000000000,
        12,
    )
}

/// Renders a job identifier in its canonical text form.
pub fn format_job_id(id: u128) -> (r: String)
    ensures
        r@ == uuid_chars(id as int),
{
    let mut out: Vec<char> = Vec::new();
    push_hex_padded(&mut out, id / 0x1000000000000000000000000, 8);
    out.push('-');
    push_hex_padded(&mut out, id / 0x100000000000000000000 % 0x10000, 4);
    out.push('-');
    push_hex_padded(&mut out, id / 0x10000000000000000 % 0x10000, 4);
    out.push('-');
    push_hex_padded(&mut out, id / 0x1000000000000 % 0x10000, 4);
    out.push('-');
    push_hex_padded(&mut out, id % 0x1000000000000, 12);
    proof {
        assert(out@ =~= uuid_chars(id as int));
    }
    chars_to_string(&out)
}

/// Whether a character sequence has the shape of a job identifier text:
/// 36 characters, hyphens at the four canonical positions, lowercase hex
/// digits everywhere else.
pub open spec fn uuid_text_wf(s: Seq<char>) -> bool {
    &&& s.len() == 36
    &&& s[8] == '-' && s[13] == '-' && s[18] == '-' && s[23] == '-'
    &&& forall|i: int|
        0 <= i < 36 && i != 8 && i != 13 && i != 18 && i != 23 ==> is_hex_digit(#[trigger] s[i])
}

/// The identifier a well-shaped text denotes.
pub open spec fn uuid_val(s: Seq<char>) -> int {
    (((hex_seq_val(s.subrange(0, 8)) * 0x10000 + hex_seq_val(s.subrange(9, 13))) * 0x10000
        + hex_seq_val(s.subrange(14, 18))) * 0x10000 + hex_seq_val(s.subrange(19, 23)))
        * 0x1000000000000 + hex_seq_val(s.subrange(24, 36))
}

/// Parses the canonical text form of a job identifier.
pub fn parse_job_id(s: &str) -> (r: Option<u128>)
    ensures
        r is Some <==> uuid_text_wf(s@),
        r matches Some(x) ==> x as int == uuid_val(s@),
{
    let v = str_to_chars(s);
    if v.len() != 36 {
        return None;
    }
    if !(v[8] == '-' && v[13] == '-' && v[18] == '-' && v[23] == '-') {
        return None;
    }
    let a = match parse_hex_u128(&v, 0, 8) {
        Some(x) => x,
        None => {
            return None;
        },
    };
    let b = match parse_hex_u128(&v, 9, 4) {
        Some(x) => x,
        None => {
            return None;
        },
    };
    let c = match parse_hex_u128(&v, 14, 4) {
        Some(x) => x,
        None => {
            return None;
        },
    };
    let d = match parse_hex_u128(&v, 19, 4) {
        Some(x) => x,
        None => {
            return None;
        },
    };
    let e = match parse_hex_u128(&v, 24, 12) {
        Some(x) => x,
        None => {
            return None;
        },
    };
    proof {
        reveal_with_fuel(pow16, 13);
        lemma_hex_seq_val_bound(v@.subrange(0, 8));
        lemma_hex_seq_val_bound(v@.subrange(9, 13));
        lemma_hex_seq_val_bound(v@.subrange(14, 18));
        lemma_hex_seq_val_bound(v@.subrange(19, 23));
        lemma_hex_seq_val_bound(v@.subrange(24, 36));
        assert forall|i: int|
            0 <= i < 36 && i != 8 && i != 13 && i != 18 && i != 23 implies is_hex_digit(
            #[trigger] v@[i],
        ) by {
            if i < 8 {
                assert(v@[i] == v@.subrange(0, 8)[i]);
            } else if i < 13 {
                assert(v@[i] == v@.subrange(9, 13)[i - 9]);
            } else if i < 18 {
                assert(v@[i] == v@.subrange(14, 18)[i - 14]);
            } else if i < 23 {
                assert(v@[i] == v@.subrange(19, 23)[i - 19]);
            } else {
                assert(v@[i] == v@.subrange(24, 36)[i - 24]);
            }
        }
    }
    let x: u128 = (((a * 0x10000 + b) * 0x10000 + c) * 0x10000 + d) * 0x1000000000000 + e;
    Some(x)
}

/// Rendering a job identifier and parsing the text recovers it exactly.
pub proof fn lemma_job_id_round_trip(id: u128)
    ensures
        uuid_text_wf(uuid_chars(id as int)),
        uuid_val(uuid_chars(id as int)) == id as int,
{
    reveal_with_fuel(pow16, 13);
    let n = id as int;
    let a = n / 0x1000000000000000000000000;
    let b = n / 0x100000000000000000000 % 0x10000;
    let c = n / 0x10000000000000000 % 0x10000;
    let d = n / 0x1000000000000 % 0x10000;
    let e = n % 0x1000000000000;
    assert(0 <= a < 0x100000000) by (nonlinear_arith)
        requires
            0 <= n < 0x100000000000000000000000000000000,
            a == n / 0x1000000000000000000000000,
    ;
    assert(0 <= b < 0x10000 && 0 <= c < 0x10000 && 0 <= d < 0x10000) by (nonlinear_arith)
        requires
            b == n / 0x100000000000000000000 % 0x10000,
            c == n / 0x10000000000000000 % 0x10000,
            d == n / 0x1000000000000 % 0x10000,
            n >= 0,
    ;
    assert(0 <= e < 0x1000000000000) by (nonlinear_arith)
        requires
            e == n % 0x1000000000000,
    ;
    lemma_hex_chars_padded_value(a, 8);
    lemma_hex_chars_padded_value(b, 4);
    lemma_hex_chars_padded_value(c, 4);
    lemma_hex_chars_padded_value(d, 4);
    lemma_hex_chars_padded_value(e, 12);
    let s = uuid_chars(n);
    assert(s.subrange(0, 8) =~= hex_chars_padded(a, 8));
    assert(s.subrange(9, 13) =~= hex_chars_padded(b, 4));
    assert(s.subrange(14, 18) =~= hex_chars_padded(c, 4));
    assert(s.subrange(19, 23) =~= hex_chars_padded(d, 4));
    assert(s.subrange(24, 36) =~= hex_chars_padded(e, 12));
    assert forall|i: int|
        0 <= i < 36 && i != 8 && i != 13 && i != 18 && i != 23 implies is_hex_digit(
        #[trigger] s[i],
    ) by {
        if i < 8 {
            assert(s[i] == hex_chars_padded(a, 8)[i]);
        } else if i < 13 {
            assert(s[i] == hex_chars_padded(b, 4)[i - 9]);
        } else if i < 18 {
            assert(s[i] == hex_chars_padded(c, 4)[i - 14]);
        } else if i < 23 {
            assert(s[i] == hex_chars_padded(d, 4)[i - 19]);
        } else {
            assert(s[i] == hex_chars_padded(e, 12)[i - 24]);
        }
    }
    let q48 = n / 0x1000000000000;
    let q64 = n / 0x10000000000000000;
    let q80 = n / 0x100000000000000000000;
    vstd::arithmetic::div_mod::lemma_div_denominator(n, 0x1000000000000, 0x10000);
    vstd::arithmetic::div_mod::lemma_div_denominator(n, 0x10000000000000000, 0x10000);
    vstd::arithmetic::div_mod::lemma_div_denominator(n, 0x100000000000000000000, 0x10000);
    assert(q48 / 0x10000 == q64 && q64 / 0x10000 == q80 && q80 / 0x10000 == a);
    vstd::arithmetic::div_mod::lemma_fundamental_div_mod(n, 0x1000000000000);
    vstd::arithmetic::div_mod::lemma_fundamental_div_mod(q48, 0x10000);
    vstd::arithmetic::div_mod::lemma_fundamental_div_mod(q64, 0x10000);
    vstd::arithmetic::div_mod::lemma_fundamental_div_mod(q80, 0x10000);
    assert(a * 0x10000 + b == q80);
    assert(q80 * 0x10000 + c == q64);
    assert(q64 * 0x10000 + d == q48);
    assert(q48 * 0x1000000000000 + e == n);
}

/// Number of tasks with the given status.
pub open spec fn count_with_status(tasks: Seq<InstrumentTask>, status: JobStatus) -> int
    decreases tasks.len(),
{
    if tasks.len() == 0 {
        0
    } else {
        count_with_status(tasks.drop_last(), status) + if tasks.last().status == status {
            1int
        } else {
            0int
        }
    }
}

impl DownloadJob {
    /// Whether the daemon entry accepts the job: it is pending, or still
    /// marked running from a crashed daemon being resumed.
    pub fn is_runnable(&self) -> (r: bool)
        ensures
            r == (self.status is Pending || self.status is Running),
    {
        matches!(self.status, JobStatus::Pending | JobStatus::Running)
    }

    /// Number of tasks with the given status.
    pub fn count_tasks(&self, status: JobStatus) -> (n: usize)
        ensures
            n == count_with_status(self.tasks@, status),
    {
        let mut n: usize = 0;
        let mut k: usize = 0;
        while k < self.tasks.len()
            invariant
                k <= self.tasks@.len(),
                n == count_with_status(self.tasks@.take(k as int), status),
                n <= k,
            decreases self.tasks@.len() - k,
        {
            proof {
                assert(self.tasks@.take(k + 1).drop_last() =~= self.tasks@.take(k as int));
            }
            if self.tasks[k].status == status {
                n = n + 1;
            }
            k = k + 1;
        }
        proof {
            assert(self.tasks@.take(self.tasks@.len() as int) =~= self.tasks@);
        }
        n
    }

    /// Whether every task is in a terminal state.
    pub fn all_tasks_finished(&self) -> (r: bool)
        ensures
            r == (forall|i: int|
                0 <= i < self.tasks@.len() ==> (#[trigger] self.tasks@[i]).status.is_terminal()),
    {
        let mut k: usize = 0;
        while k < self.tasks.len()
            invariant
                k <= self.tasks@.len(),
                forall|i: int| 0 <= i < k ==> (#[trigger] self.tasks@[i]).status.is_terminal(),
            decreases self.tasks@.len() - k,
        {
            if !self.tasks[k].status.is_finished() {
                return false;
            }
            k = k + 1;
        }
        true
    }

    /// Records hour and tick progress on a task; a pending task becomes
    /// running. Out-of-range indices change nothing.
    pub fn update_task_progress(&mut self, task_idx: usize, hours: u32, ticks: u64)
        ensures
            task_idx >= old(self).tasks@.len() ==> *final(self) == *old(self),
            task_idx < old(self).tasks@.len() ==> {
                let t0 = old(self).tasks@[task_idx as int];
                final(self).tasks@ == old(self).tasks@.update(
                    task_idx as int,
                    (InstrumentTask {
                        hours_completed: hours,
                        ticks_downloaded: ticks,
                        status: if t0.status is Pending {
                            JobStatus::Running
                        } else {
                            t0.status
                        },
                        ..t0
                    }),
                )
            },
            final(self).id == old(self).id,
            final(self).created_at == old(self).created_at,
            final(self).started_at == old(self).started_at,
            final(self).completed_at == old(self).completed_at,
            final(self).status == old(self).status,
            final(self).concurrency == old(self).concurrency,
            final(self).pid == old(self).pid,
            final(self).log_file == old(self).log_file,
    {
        if task_idx >= self.tasks.len() {
            return ;
        }
        let t = self.tasks.remove(task_idx);
        let status = if matches!(t.status, JobStatus::Pending) {
            JobStatus::Running
        } else {
            t.status
        };
        self.tasks.insert(
            task_idx,
            InstrumentTask { hours_completed: hours, ticks_downloaded: ticks, status, ..t },
        );
        proof {
            assert(final(self).tasks@ =~= old(self).tasks@.update(
                task_idx as int,
                final(self).tasks@[task_idx as int],
            ));
        }
    }

    /// Marks a task as running. Out-of-range indices change nothing.
    pub fn mark_task_running(&mut self, task_idx: usize)
        ensures
            task_idx >= old(self).tasks@.len() ==> *final(self) == *old(self),
            task_idx < old(self).tasks@.len() ==> final(self).tasks@ == old(self).tasks@.update(
                task_idx as int,
                (InstrumentTask { status: JobStatus::Running, ..old(self).tasks@[task_idx as int] }),
            ),
            final(self).id == old(self).id,
            final(self).created_at == old(self).created_at,
            final(self).started_at == old(self).started_at,
            final(self).completed_at == old(self).completed_at,
            final(self).status == old(self).status,
            final(self).concurrency == old(self).concurrency,
            final(self).pid == old(self).pid,
            final(self).log_file == old(self).log_file,
    {
        if task_idx >= self.tasks.len() {
            return ;
        }
        let t = self.tasks.remove(task_idx);
        self.tasks.insert(task_idx, InstrumentTask { status: JobStatus::Running, ..t });
        proof {
            assert(final(self).tasks@ =~= old(self).tasks@.update(
                task_idx as int,
                final(self).tasks@[task_idx as int],
            ));
        }
    }

    /// Marks a task as completed with its final byte count; its completed
    /// hours are raised to its total. Out-of-range indices change nothing.
    pub fn mark_task_completed(&mut self, task_idx: usize, bytes: u64)
        ensures
            task_idx >= old(self).tasks@.len() ==> *final(self) == *old(self),
            task_idx < old(self).tasks@.len() ==> {
                let t0 = old(self).tasks@[task_idx as int];
                final(self).tasks@ == old(self).tasks@.update(
                    task_idx as int,
                    (InstrumentTask {
                        status: JobStatus::Completed,
                        bytes_written: bytes,
                        hours_completed: t0.hours_total,
                        ..t0
                    }),
                )
            },
            final(self).id == old(self).id,
            final(self).created_at == old(self).created_at,
            final(self).started_at == old(self).started_at,
            final(self).completed_at == old(self).completed_at,
            final(self).status == old(self).status,
            final(self).concurrency == old(self).concurrency,
            final(self).pid == old(self).pid,
            final(self).log_file == old(self).log_file,
    {
        if task_idx >= self.tasks.len() {
            return ;
        }
        let t = self.tasks.remove(task_idx);
        let hours_total = t.hours_total;
        self.tasks.insert(
            task_idx,
            InstrumentTask {
                status: JobStatus::Completed,
                bytes_written: bytes,
                hours_completed: hours_total,
                ..t
            },
        );
        proof {
            assert(final(self).tasks@ =~= old(self).tasks@.update(
                task_idx as int,
                final(self).tasks@[task_idx as int],
            ));
        }
    }

    /// Marks a task as failed with the given message. Out-of-range
    /// indices change nothing.
    pub fn mark_task_failed(&mut self, task_idx: usize, error: &str)
        ensures
            task_idx >= old(self).tasks@.len() ==> *final(self) == *old(self),
            task_idx < old(self).tasks@.len() ==> {
                let t0 = old(self).tasks@[task_idx as int];
                let t1 = final(self).tasks@[task_idx as int];
                final(self).tasks@ == old(self).tasks@.update(
                    task_idx as int,
                    (InstrumentTask {
                        status: JobStatus::Failed,
                        error_message: t1.error_message,
                        ..t0
                    }),
                ) && (t1.error_message matches Some(m) && m@ == error@)
            },
            final(self).id == old(self).id,
            final(self).created_at == old(self).created_at,
            final(self).started_at == old(self).started_at,
            final(self).completed_at == old(self).completed_at,
            final(self).status == old(self).status,
            final(self).concurrency == old(self).concurrency,
            final(self).pid == old(self).pid,
            final(self).log_file == old(self).log_file,
    {
        if task_idx >= self.tasks.len() {
            return ;
        }
        let t = self.tasks.remove(task_idx);
        self.tasks.insert(
            task_idx,
            InstrumentTask {
                status: JobStatus::Failed,
                error_message: Some(String::from_str(error)),
                ..t
            },
        );
        proof {
            assert(final(self).tasks@ =~= old(self).tasks@.update(
                task_idx as int,
                final(self).tasks@[task_idx as int],
            ));
        }
    }
}

/// The message a job fails with when some of its tasks failed.
pub fn tasks_failed_message(failed: u64) -> (r: String)
    ensures
        r@ == crate::text::dec_chars(failed as int) + " tasks failed"@,
{
    let mut out: Vec<char> = Vec::new();
    crate::text::push_decimal(&mut out, failed);
    crate::text::push_str_chars(&mut out, " tasks failed");
    proof {
        assert(out@ =~= crate::text::dec_chars(failed as int) + " tasks failed"@);
    }
    crate::text::chars_to_string(&out)
}

/// Whether a checkpoint is due: the save interval has elapsed since the
/// last persisted snapshot.
pub fn checkpoint_due(elapsed_ms: u64, save_interval_ms: u64) -> (r: bool)
    ensures
        r == (elapsed_ms >= save_interval_ms),
{
    elapsed_ms >= save_interval_ms
}

/// Whether a progress report is due: at every tenth completed hour.
pub fn progress_report_due(hours_completed: u64) -> (r: bool)
    ensures
        r == (hours_completed > 0 && hours_completed % 10 == 0),
{
    hours_completed > 0 && hours_completed % 10 == 0
}

} // verus!
