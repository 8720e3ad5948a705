//! The decisions of the job runner: how long a run may still take, where its
//! output goes, and what its end means.

use vstd::prelude::*;
use crate::app_data::Timestamp;
use crate::paths::{join, path_join};

verus! {

/// The milliseconds left from `now` until `expires_secs` (seconds since the
/// Unix epoch), or `None` when that time has passed.
pub open spec fn remaining_spec(expires_secs: i64, now: Timestamp) -> Option<u64> {
    let rem = expires_secs * 1000 - (now.secs * 1000 + now.nanos / 1_000_000);
    if rem < 0 {
        None
    } else if rem > u64::MAX {
        Some(u64::MAX)
    } else {
        Some(rem as u64)
    }
}

/// How long a run that must end by `expires_secs` may still take at `now`,
/// in milliseconds; `None` when the expiry has passed.
pub fn remaining_millis(expires_secs: i64, now: Timestamp) -> (r: Option<u64>)
    ensures
        r == remaining_spec(expires_secs, now),
{
    let end: i128 = expires_secs as i128 * 1000;
    let start: i128 = now.secs as i128 * 1000 + (now.nanos / 1_000_000) as i128;
    let rem: i128 = end - start;
    if rem < 0 {
        None
    } else if rem > u64::MAX as i128 {
        Some(u64::MAX)
    } else {
        Some(rem as u64)
    }
}

/// How a run of an app ended.
pub enum RunOutcome {
    /// It exited successfully
    Succeeded,
    /// It exited otherwise; the exit status, as text
    Failed(String),
    /// It ran past its timeout and was killed
    TimedOut,
}

/// The result of a job for a run that ended as `outcome`: a failure names
/// the exit status, a timeout says so.
pub fn run_result(outcome: RunOutcome) -> (r: Result<(), String>)
    ensures
        match outcome {
            RunOutcome::Succeeded => r is Ok,
            RunOutcome::Failed(status) => r matches Err(m) && m@ == "Command failed with "@ + status@,
            RunOutcome::TimedOut => r matches Err(m) && m@ == "Task timed out"@,
        },
{
    match outcome {
        RunOutcome::Succeeded => Ok(()),
        RunOutcome::Failed(status) => {
            let mut m = String::from_str("Command failed with ");
            m.append(status.as_str());
            Err(m)
        },
        RunOutcome::TimedOut => Err(String::from_str("Task timed out")),
    }
}

/// The files under `log_dir` that take a run's standard output and error.
pub fn log_file_paths(log_dir: &str, app_id: &str) -> (r: (String, String))
    ensures
        r.0@ == path_join(log_dir@, app_id@ + ".stdout.log"@),
        r.1@ == path_join(log_dir@, app_id@ + ".stderr.log"@),
{
    let mut out = String::from_str(app_id);
    out.append(".stdout.log");
    let mut err = String::from_str(app_id);
    err.append(".stderr.log");
    (join(log_dir, out.as_str()), join(log_dir, err.as_str()))
}

/// How many jobs run at once: the available parallelism, four when it is
/// unknown, at most what a `u16` holds.
pub fn worker_concurrency(available: Option<usize>) -> (r: u16)
    ensures
        r == match available {
            Some(n) => if n > u16::MAX as usize { u16::MAX } else { n as u16 },
            None => 4,
        },
{
    match available {
        Some(n) => if n > u16::MAX as usize { u16::MAX } else { n as u16 },
        None => 4,
    }
}

} // verus!
