//! State management for persistent job storage.
//!
//! Jobs live one file per job under `jobs/` of a base directory, with a
//! log file per job under `logs/`. The file system itself is outside the
//! library; here are the path scheme, the ordering and filtering of job
//! lists, and the reclassification of stale jobs whose daemon died.

use vstd::multiset::Multiset;
use vstd::prelude::*;

use crate::job::uuid_chars;
use crate::job::DownloadJob;
use crate::job::JobId;
use crate::job::JobStatus;
use crate::text::chars_to_string;
use crate::time::Timestamp;
use crate::text::push_hex_padded;
use crate::text::push_str_chars;

verus! {

/// Errors that can occur during state management operations.
#[derive(Debug, Clone)]
pub enum StateError {
    /// Failed to determine the application data directory.
    NoDataDir,
    /// Failed to create a directory.
    CreateDir {
        /// The path that could not be created.
        path: String,
        /// The underlying I/O message.
        message: String,
    },
    /// Failed to read a file.
    ReadFile {
        /// The path that could not be read.
        path: String,
        /// The underlying I/O message.
        message: String,
    },
    /// Failed to write a file.
    WriteFile {
        /// The path that could not be written.
        path: String,
        /// The underlying I/O message.
        message: String,
    },
    /// Failed to delete a file.
    DeleteFile {
        /// The path that could not be deleted.
        path: String,
        /// The underlying I/O message.
        message: String,
    },
    /// Failed to parse a job file.
    ParseJson {
        /// The path that could not be parsed.
        path: String,
    },
    /// Job not found.
    JobNotFound(JobId),
    /// Failed to read a directory.
    ReadDir {
        /// The path that could not be read.
        path: String,
        /// The underlying I/O message.
        message: String,
    },
    /// Failed to spawn the daemon process.
    SpawnDaemon {
        /// The executable that could not be spawned.
        executable: String,
        /// The underlying I/O message.
        message: String,
    },
    /// Failed to determine the executable path.
    ExecutablePath {
        /// The underlying I/O message.
        message: String,
    },
}

/// Manages the locations of persistent job state.
#[derive(Debug, Clone)]
pub struct StateManager {
    /// Base directory for state storage.
    base_path: String,
    /// Directory of the job record files.
    jobs_path: String,
    /// Directory of the job log files.
    logs_path: String,
}

impl StateManager {
    /// The base directory of the store.
    pub closed spec fn base_chars(self) -> Seq<char> {
        self.base_path@
    }

    /// The job-record directory of the store.
    pub closed spec fn jobs_chars(self) -> Seq<char> {
        self.jobs_path@
    }

    /// The log directory of the store.
    pub closed spec fn logs_chars(self) -> Seq<char> {
        self.logs_path@
    }

    /// Lays the store out under the given base directory: job records in
    /// `jobs/`, logs in `logs/`.
    pub fn with_base(base: String) -> (r: StateManager)
        ensures
            r.base_chars() == base@,
            r.jobs_chars() == base@ + "/jobs"@,
            r.logs_chars() == base@ + "/logs"@,
    {
        let mut jobs: Vec<char> = Vec::new();
        push_str_chars(&mut jobs, base.as_str());
        push_str_chars(&mut jobs, "/jobs");
        let mut logs: Vec<char> = Vec::new();
        push_str_chars(&mut logs, base.as_str());
        push_str_chars(&mut logs, "/logs");
        StateManager {
            base_path: base,
            jobs_path: chars_to_string(&jobs),
            logs_path: chars_to_string(&logs),
        }
    }

    /// Returns the base path of the store.
    pub fn base_path(&self) -> (r: &String)
        ensures
            r@ == self.base_chars(),
    {
        &self.base_path
    }

    /// The path of a job's record file: its identifier under the job
    /// directory, with the `.json` suffix.
    pub fn job_state_path(&self, job_id: JobId) -> (r: String)
        ensures
            r@ == self.jobs_chars() + seq!['/'] + uuid_chars(job_id as int) + ".json"@,
    {
        let mut out: Vec<char> = Vec::new();
        push_str_chars(&mut out, self.jobs_path.as_str());
        out.push('/');
        let id_text = crate::job::format_job_id(job_id);
        push_str_chars(&mut out, id_text.as_str());
        push_str_chars(&mut out, ".json");
        proof {
            assert(out@ =~= self.jobs_chars() + seq!['/'] + uuid_chars(job_id as int) + ".json"@);
        }
        chars_to_string(&out)
    }

    /// The path of a job's log file: its identifier under the log
    /// directory, with the `.log` suffix.
    pub fn job_log_path(&self, job_id: JobId) -> (r: String)
        ensures
            r@ == self.logs_chars() + seq!['/'] + uuid_chars(job_id as int) + ".log"@,
    {
        let mut out: Vec<char> = Vec::new();
        push_str_chars(&mut out, self.logs_path.as_str());
        out.push('/');
        let id_text = crate::job::format_job_id(job_id);
        push_str_chars(&mut out, id_text.as_str());
        push_str_chars(&mut out, ".log");
        proof {
            assert(out@ =~= self.logs_chars() + seq!['/'] + uuid_chars(job_id as int) + ".log"@);
        }
        chars_to_string(&out)
    }
}

/// A job is stale when its record says it is running but its daemon
/// process is gone: it never recorded a pid, or the recorded pid is dead.
pub open spec fn is_stale(j: DownloadJob, alive: bool) -> bool {
    j.status is Running && (j.pid is None || !alive)
}

/// The identifiers of the stale jobs, in order.
pub open spec fn stale_ids(jobs: Seq<DownloadJob>, alive: Seq<bool>) -> Seq<JobId>
    decreases jobs.len(),
{
    if jobs.len() == 0 {
        Seq::empty()
    } else {
        let rest = stale_ids(jobs.drop_last(), alive.drop_last());
        if is_stale(jobs.last(), alive.last()) {
            rest.push(jobs.last().id)
        } else {
            rest
        }
    }
}

/// How a cleanup pass leaves a freshly stale job: failed with a
/// well-formed completion instant, its running tasks failed with the
/// canonical message, and everything else kept.
pub open spec fn reclassified_stale(j0: DownloadJob, j1: DownloadJob) -> bool {
    &&& j1.status == JobStatus::Failed
    &&& (j1.completed_at matches Some(t) && t.wf())
    &&& j1.id == j0.id
    &&& j1.created_at == j0.created_at
    &&& j1.started_at == j0.started_at
    &&& j1.concurrency == j0.concurrency
    &&& j1.pid == j0.pid
    &&& j1.log_file == j0.log_file
    &&& j1.tasks@.len() == j0.tasks@.len()
    &&& forall|t: int|
        0 <= t < j0.tasks@.len() ==> {
            let t0 = #[trigger] j0.tasks@[t];
            let t1 = j1.tasks@[t];
            if t0.status == JobStatus::Running {
                t1 == (crate::job::InstrumentTask {
                    status: JobStatus::Failed,
                    error_message: t1.error_message,
                    ..t0
                }) && (t1.error_message matches Some(m) && m@
                    == "Daemon process died unexpectedly"@)
            } else {
                t1 == t0
            }
        }
}

/// Reclassifies stale jobs: every running job whose process is gone (per
/// the caller's liveness verdicts, one per job) becomes failed, its
/// running tasks failed with the canonical message, everything else on it
/// kept; every other job passes through unchanged. Returns the updated
/// jobs and the identifiers of the ones reclassified. Afterwards no job
/// is stale under the same verdicts.
pub fn cleanup_stale_jobs(jobs: Vec<DownloadJob>, alive: &Vec<bool>) -> (r: (
    Vec<DownloadJob>,
    Vec<JobId>,
))
    requires
        jobs@.len() == alive@.len(),
    ensures
        r.0@.len() == jobs@.len(),
        r.1@ == stale_ids(jobs@, alive@),
        forall|i: int|
            0 <= i < jobs@.len() && !is_stale(jobs@[i], alive@[i]) ==> #[trigger] r.0@[i]
                == jobs@[i],
        forall|i: int|
            0 <= i < jobs@.len() && is_stale(jobs@[i], alive@[i]) ==> reclassified_stale(
                jobs@[i],
                #[trigger] r.0@[i],
            ),
        forall|i: int| 0 <= i < r.0@.len() ==> !is_stale(#[trigger] r.0@[i], alive@[i]),
{
    let n: usize = jobs.len();
    let mut work = jobs;
    let mut out: Vec<DownloadJob> = Vec::new();
    let mut ids: Vec<JobId> = Vec::new();
    let mut k: usize = 0;
    while k < n
        invariant
            n == jobs@.len(),
            jobs@.len() == alive@.len(),
            work@ == jobs@.skip(k as int),
            k <= n,
            out@.len() == k,
            ids@ == stale_ids(jobs@.take(k as int), alive@.take(k as int)),
            forall|i: int|
                0 <= i < k && !is_stale(jobs@[i], alive@[i]) ==> #[trigger] out@[i] == jobs@[i],
            forall|i: int|
                0 <= i < k && is_stale(jobs@[i], alive@[i]) ==> reclassified_stale(
                    jobs@[i],
                    #[trigger] out@[i],
                ),
            forall|i: int| 0 <= i < k ==> !is_stale(#[trigger] out@[i], alive@[i]),
        decreases n - k,
    {
        proof {
            assert(jobs@.take(k + 1).drop_last() =~= jobs@.take(k as int));
            assert(alive@.take(k + 1).drop_last() =~= alive@.take(k as int));
            assert(jobs@.take(k + 1).last() == jobs@[k as int]);
            assert(alive@.take(k + 1).last() == alive@[k as int]);
            assert(work@[0] == jobs@[k as int]);
        }
        let mut j = work.remove(0);
        let stale = matches!(j.status, JobStatus::Running) && match j.pid {
            None => true,
            Some(_) => !alive[k],
        };
        if stale {
            ids.push(j.id);
            j.mark_failed(Some(String::from_str("Daemon process died unexpectedly")));
        }
        out.push(j);
        proof {
            assert(work@ =~= jobs@.skip(k + 1));
        }
        k = k + 1;
    }
    proof {
        assert(jobs@.take(n as int) =~= jobs@);
        assert(alive@.take(n as int) =~= alive@);
    }
    (out, ids)
}

/// Reclassifying stale jobs is idempotent: over jobs none of which is
/// stale — as a cleanup pass leaves them — a second pass with the same
/// liveness verdicts returns no identifiers.
pub proof fn lemma_cleanup_idempotent(jobs: Seq<DownloadJob>, alive: Seq<bool>)
    requires
        jobs.len() == alive.len(),
        forall|i: int| 0 <= i < jobs.len() ==> !is_stale(#[trigger] jobs[i], alive[i]),
    ensures
        stale_ids(jobs, alive).len() == 0,
    decreases jobs.len(),
{
    if jobs.len() > 0 {
        assert(forall|i: int|
            0 <= i < jobs.len() - 1 ==> #[trigger] jobs.drop_last()[i] == jobs[i]);
        assert(forall|i: int|
            0 <= i < alive.len() - 1 ==> #[trigger] alive.drop_last()[i] == alive[i]);
        lemma_cleanup_idempotent(jobs.drop_last(), alive.drop_last());
    }
}

/// Jobs ordered newest first by creation instant.
pub open spec fn sorted_newest_first(s: Seq<DownloadJob>) -> bool {
    forall|i: int, j: int|
        0 <= i < j < s.len() ==> (#[trigger] s[i]).created_at.epoch_ms() >= (
        #[trigger] s[j]).created_at.epoch_ms()
}

/// Sorts jobs by creation instant, newest first: the result is ordered
/// and holds exactly the given jobs.
pub fn sort_jobs_newest_first(jobs: Vec<DownloadJob>) -> (r: Vec<DownloadJob>)
    requires
        forall|i: int| 0 <= i < jobs@.len() ==> (#[trigger] jobs@[i]).created_at.wf(),
    ensures
        r@.len() == jobs@.len(),
        sorted_newest_first(r@),
        r@.to_multiset() == jobs@.to_multiset(),
{
    broadcast use vstd::seq_lib::group_to_multiset_ensures;

    let mut rest = jobs;
    let mut out: Vec<DownloadJob> = Vec::new();
    proof {
        assert(out@.to_multiset().add(rest@.to_multiset()) =~= jobs@.to_multiset());
    }
    while rest.len() > 0
        invariant
            forall|i: int| 0 <= i < rest@.len() ==> (#[trigger] rest@[i]).created_at.wf(),
            sorted_newest_first(out@),
            forall|i: int, j: int|
                0 <= i < out@.len() && 0 <= j < rest@.len() ==> (
                #[trigger] out@[i]).created_at.epoch_ms() >= (
                #[trigger] rest@[j]).created_at.epoch_ms(),
            out@.to_multiset().add(rest@.to_multiset()) == jobs@.to_multiset(),
            out@.len() + rest@.len() == jobs@.len(),
        decreases rest@.len(),
    {
        let mut m: usize = 0;
        let mut k: usize = 1;
        while k < rest.len()
            invariant
                rest@.len() > 0,
                m < k <= rest@.len(),
                forall|i: int| 0 <= i < rest@.len() ==> (#[trigger] rest@[i]).created_at.wf(),
                forall|i: int|
                    0 <= i < k ==> rest@[m as int].created_at.epoch_ms() >= (
                    #[trigger] rest@[i]).created_at.epoch_ms(),
            decreases rest@.len() - k,
        {
            if rest[m].created_at.le(&rest[k].created_at) {
                m = k;
            }
            k = k + 1;
        }
        let ghost old_rest = rest@;
        let ghost old_out = out@;
        let x = rest.remove(m);
        out.push(x);
        proof {
            old_rest.to_multiset_ensures();
            old_out.to_multiset_ensures();
            assert(old_rest.contains(x)) by {
                assert(old_rest[m as int] == x);
            }
            assert(old_rest.to_multiset().count(x) > 0);
            assert(rest@ == old_rest.remove(m as int));
            assert(old_rest.remove(m as int).to_multiset() =~= old_rest.to_multiset().remove(x));
            assert(old_out.push(x).to_multiset() =~= old_out.to_multiset().insert(x));
            assert(out@.to_multiset().add(rest@.to_multiset()) =~= old_out.to_multiset().add(
                old_rest.to_multiset(),
            ));
        }
    }
    proof {
        assert(rest@.to_multiset() =~= Multiset::<DownloadJob>::empty());
        assert(out@.to_multiset().add(Multiset::<DownloadJob>::empty()) =~= out@.to_multiset());
    }
    out
}

/// The jobs that are not yet in a terminal state, in their given order.
pub open spec fn active_only(s: Seq<DownloadJob>) -> Seq<DownloadJob>
    decreases s.len(),
{
    if s.len() == 0 {
        Seq::empty()
    } else {
        let rest = active_only(s.drop_last());
        if !s.last().status.is_terminal() {
            rest.push(s.last())
        } else {
            rest
        }
    }
}

/// Keeps the jobs that are still pending, running or paused.
pub fn active_jobs(jobs: Vec<DownloadJob>) -> (r: Vec<DownloadJob>)
    ensures
        r@ == active_only(jobs@),
{
    let n: usize = jobs.len();
    let mut work = jobs;
    let mut out: Vec<DownloadJob> = Vec::new();
    let mut k: usize = 0;
    while k < n
        invariant
            n == jobs@.len(),
            work@ == jobs@.skip(k as int),
            k <= n,
            out@ == active_only(jobs@.take(k as int)),
        decreases n - k,
    {
        proof {
            assert(jobs@.take(k + 1).drop_last() =~= jobs@.take(k as int));
            assert(jobs@.take(k + 1).last() == jobs@[k as int]);
            assert(work@[0] == jobs@[k as int]);
        }
        let j = work.remove(0);
        if !j.status.is_finished() {
            out.push(j);
        }
        proof {
            assert(work@ =~= jobs@.skip(k + 1));
        }
        k = k + 1;
    }
    proof {
        assert(jobs@.take(n as int) =~= jobs@);
    }
    out
}

/// Whether a clean pass removes a persisted job: with `clean_all`, every
/// job in a terminal state; otherwise cancelled jobs at once, and other
/// terminal jobs once a full day has passed since their creation.
pub fn should_clean(status: JobStatus, created_at: &Timestamp, now: &Timestamp, clean_all: bool) -> (r:
    bool)
    requires
        created_at.wf(),
        now.wf(),
    ensures
        r == (if clean_all {
            status.is_terminal()
        } else {
            status is Cancelled || (status.is_terminal() && created_at.epoch_ms() + 86_400_000
                < now.epoch_ms())
        }),
{
    if clean_all {
        status.is_finished()
    } else {
        let n = now.to_epoch_ms();
        let c = created_at.to_epoch_ms();
        let old_enough = n > 86_400_000 && c < n - 86_400_000;
        matches!(status, JobStatus::Cancelled) || (status.is_finished() && old_enough)
    }
}

} // verus!
