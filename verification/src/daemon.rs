//! Daemon process spawning plan.
//!
//! Spawning a detached process is I/O and lives outside the library. The
//! spawner here fixes everything the spawn is built from: the executable,
//! the command-line arguments, the environment variable, and the log file
//! that the job record is updated with before the process starts.

use vstd::prelude::*;

use crate::job::uuid_chars;
use crate::job::DownloadJob;
use crate::job::JobId;
use crate::state::StateManager;
use crate::text::chars_to_string;
use crate::text::push_str_chars;

verus! {

/// The command-line argument that selects daemon mode.
pub fn daemon_run_arg() -> (r: &'static str)
    ensures
        r@ == "--daemon-run"@,
{
    "--daemon-run"
}

/// The environment variable carrying the daemon's job identifier.
pub fn daemon_job_id_env() -> (r: &'static str)
    ensures
        r@ == "PARACAS_DAEMON_JOB_ID"@,
{
    "PARACAS_DAEMON_JOB_ID"
}

/// Spawns detached daemon processes for background downloads.
#[derive(Debug, Clone)]
pub struct DaemonSpawner {
    state_manager: StateManager,
    executable_path: String,
}

impl DaemonSpawner {
    /// The store the spawner records into.
    pub closed spec fn store(self) -> StateManager {
        self.state_manager
    }

    /// The executable the spawner launches.
    pub closed spec fn exe_chars(self) -> Seq<char> {
        self.executable_path@
    }

    /// Creates a spawner that launches the given executable.
    pub fn with_executable(state_manager: StateManager, executable_path: String) -> (r:
        DaemonSpawner)
        ensures
            r.store() == state_manager,
            r.exe_chars() == executable_path@,
    {
        DaemonSpawner { state_manager, executable_path }
    }

    /// Returns the state manager reference.
    pub fn state_manager(&self) -> (r: &StateManager)
        ensures
            *r == self.store(),
    {
        &self.state_manager
    }

    /// Returns the executable path.
    pub fn executable(&self) -> (r: &String)
        ensures
            r@ == self.exe_chars(),
    {
        &self.executable_path
    }

    /// Prepares a job for spawning: assigns it its log file path (the
    /// store's log location for its identifier) and returns that path.
    /// The caller persists the record, opens the log file, launches the
    /// executable, and records the child's pid.
    pub fn prepare_spawn(&self, job: &mut DownloadJob) -> (log_path: String)
        ensures
            log_path@ == self.store().logs_chars() + seq!['/'] + uuid_chars(old(job).id as int)
                + ".log"@,
            final(job).log_file matches Some(p) && p@ == log_path@,
            final(job).id == old(job).id,
            final(job).created_at == old(job).created_at,
            final(job).started_at == old(job).started_at,
            final(job).completed_at == old(job).completed_at,
            final(job).status == old(job).status,
            final(job).tasks == old(job).tasks,
            final(job).concurrency == old(job).concurrency,
            final(job).pid == old(job).pid,
    {
        let log_path = self.state_manager.job_log_path(job.id);
        let mut copy: Vec<char> = Vec::new();
        push_str_chars(&mut copy, log_path.as_str());
        job.log_file = Some(chars_to_string(&copy));
        proof {
            assert(copy@ =~= log_path@);
        }
        log_path
    }

    /// The arguments the daemon process is launched with: the daemon-mode
    /// flag and the job identifier's text.
    pub fn spawn_args(job_id: JobId) -> (r: Vec<String>)
        ensures
            r@.len() == 2,
            r@[0]@ == "--daemon-run"@,
            r@[1]@ == uuid_chars(job_id as int),
    {
        let mut v: Vec<String> = Vec::new();
        v.push(String::from_str(daemon_run_arg()));
        v.push(crate::job::format_job_id(job_id));
        v
    }
}

} // verus!
