//! The schedule registry: recurring jobs keyed `"{app_id}:{cron}"`, and the
//! plan that brings an app's jobs in line with its schedules.

use vstd::prelude::*;
use crate::app_data::{copy_strings, AppSchedule, ScheduleView};

verus! {

/// The type tag of the jobs that run an app.
pub const SCHEDULED_APP_JOB: &'static str = "scheduled-app";

/// How long a run may take when its schedule names no timeout, in seconds.
pub const DEFAULT_TIMEOUT_SECS: u64 = 300;

pub open spec fn has_prefix(s: Seq<char>, p: Seq<char>) -> bool {
    p.len() <= s.len() && s.subrange(0, p.len() as int) == p
}

/// The prefix shared by the ids of an app's jobs.
pub open spec fn job_prefix_spec(app_id: Seq<char>) -> Seq<char> {
    app_id + seq![':']
}

/// The id of the job that runs an app on a cron expression.
pub open spec fn job_id_spec(app_id: Seq<char>, cron: Seq<char>) -> Seq<char> {
    app_id + seq![':'] + cron
}

pub proof fn lemma_job_id_has_prefix(app_id: Seq<char>, cron: Seq<char>)
    ensures
        has_prefix(job_id_spec(app_id, cron), job_prefix_spec(app_id)),
{
    assert(job_id_spec(app_id, cron).subrange(0, app_id.len() + 1 as int) =~= job_prefix_spec(app_id));
}

/// Whether `s` starts with `p`.
pub fn starts_with(s: &str, p: &str) -> (r: bool)
    ensures
        r == has_prefix(s@, p@),
{
    let n = s.unicode_len();
    let m = p.unicode_len();
    if m > n {
        return false;
    }
    let mut i: usize = 0;
    while i < m
        invariant
            m == p@.len(),
            n == s@.len(),
            m <= n,
            i <= m,
            s@.subrange(0, i as int) == p@.subrange(0, i as int),
        decreases m - i,
    {
        if s.get_char(i) != p.get_char(i) {
            assert(s@.subrange(0, m as int)[i as int] != p@[i as int]);
            return false;
        }
        assert(s@.subrange(0, i + 1) =~= s@.subrange(0, i as int).push(s@[i as int]));
        assert(p@.subrange(0, i + 1) =~= p@.subrange(0, i as int).push(p@[i as int]));
        i = i + 1;
    }
    assert(p@.subrange(0, m as int) =~= p@);
    true
}

/// The prefix of an app's job ids: the app id and a colon.
pub fn job_prefix(app_id: &str) -> (r: String)
    ensures
        r@ == job_prefix_spec(app_id@),
{
    let mut r = String::from_str(app_id);
    proof {
        reveal_strlit(":");
    }
    r.append(":");
    r
}

/// The id of the job that runs an app on a cron expression.
pub fn job_id(app_id: &str, cron: &str) -> (r: String)
    ensures
        r@ == job_id_spec(app_id@, cron@),
{
    let mut r = job_prefix(app_id);
    r.append(cron);
    r
}

/// The number of seconds a run may take.
pub fn timeout_secs(schedule: &AppSchedule) -> (r: u64)
    ensures
        r == timeout_of(schedule@),
{
    match schedule.timeout {
        Some(t) => t as u64,
        None => DEFAULT_TIMEOUT_SECS,
    }
}

pub open spec fn timeout_of(s: ScheduleView) -> u64 {
    match s.timeout {
        Some(t) => t as u64,
        None => 300,
    }
}

/// What a job carries: which app to run, with which command and schedule.
pub struct ScheduledJobData {
    pub app_id: String,
    pub command: String,
    pub schedule: AppSchedule,
}

pub struct JobDataView {
    pub app_id: Seq<char>,
    pub command: Seq<char>,
    pub schedule: ScheduleView,
}

impl View for ScheduledJobData {
    type V = JobDataView;

    open spec fn view(&self) -> JobDataView {
        JobDataView { app_id: self.app_id@, command: self.command@, schedule: self.schedule@ }
    }
}

/// A recurring job in the registry.
pub struct RecurringJob {
    /// `"{app_id}:{cron}"`
    pub id: String,
    /// The type tag, `"scheduled-app"`
    pub kind: String,
    /// The cron expression on which the job runs
    pub cron: String,
    pub payload: ScheduledJobData,
    /// How long a run may take, in seconds
    pub timeout_secs: u64,
}

pub struct JobView {
    pub id: Seq<char>,
    pub kind: Seq<char>,
    pub cron: Seq<char>,
    pub payload: JobDataView,
    pub timeout_secs: u64,
}

impl View for RecurringJob {
    type V = JobView;

    open spec fn view(&self) -> JobView {
        JobView {
            id: self.id@,
            kind: self.kind@,
            cron: self.cron@,
            payload: self.payload@,
            timeout_secs: self.timeout_secs,
        }
    }
}

/// The job that runs app `app_id` with command `path` on schedule `s`.
pub open spec fn job_spec(app_id: Seq<char>, path: Seq<char>, s: ScheduleView) -> JobView {
    JobView {
        id: job_id_spec(app_id, s.cron),
        kind: SCHEDULED_APP_JOB@,
        cron: s.cron,
        payload: JobDataView { app_id, command: path, schedule: s },
        timeout_secs: timeout_of(s),
    }
}

impl RecurringJob {
    /// The job that runs app `app_id` with command `path` on `schedule`.
    pub fn for_schedule(app_id: &str, path: &str, schedule: &AppSchedule) -> (r: RecurringJob)
        ensures
            r@ == job_spec(app_id@, path@, schedule@),
    {
        RecurringJob {
            id: job_id(app_id, schedule.cron.as_str()),
            kind: String::from_str(SCHEDULED_APP_JOB),
            cron: schedule.cron.clone(),
            payload: ScheduledJobData {
                app_id: String::from_str(app_id),
                command: String::from_str(path),
                schedule: schedule.copy(),
            },
            timeout_secs: timeout_secs(schedule),
        }
    }
}

pub open spec fn jobs_view(s: Seq<RecurringJob>) -> Seq<JobView> {
    s.map_values(|j: RecurringJob| j@)
}

pub open spec fn strings_view(s: Seq<String>) -> Seq<Seq<char>> {
    s.map_values(|x: String| x@)
}

/// The ids among `existing` that no schedule of the app names, in order.
pub open spec fn unscheduled(existing: Seq<Seq<char>>, app_id: Seq<char>, scheds: Seq<ScheduleView>) -> Seq<Seq<char>>
    decreases existing.len(),
{
    if existing.len() == 0 {
        existing
    } else {
        let rest = unscheduled(existing.drop_last(), app_id, scheds);
        if names_job(app_id, scheds, existing.last()) {
            rest
        } else {
            rest.push(existing.last())
        }
    }
}

/// Whether one of the schedules gives the job id `id`.
pub open spec fn names_job(app_id: Seq<char>, scheds: Seq<ScheduleView>, id: Seq<char>) -> bool {
    exists|i: int| 0 <= i < scheds.len() && job_id_spec(app_id, scheds[i].cron) == id
}

/// What to do to the registry for one app: the jobs to insert or replace, in
/// order, and the ids of the jobs to delete.
pub struct SchedulePlan {
    pub upserts: Vec<RecurringJob>,
    pub removals: Vec<String>,
}

/// Plans the registry changes for app `app_id`, run by `path`, given the ids
/// of its jobs that exist now: one job per schedule, and the removal of each
/// existing job that no schedule names.
pub fn plan_schedule(app_id: &str, path: &str, existing: &Vec<String>, schedules: &Vec<AppSchedule>) -> (r: SchedulePlan)
    ensures
        jobs_view(r.upserts@) == schedules@.map_values(
            |s: AppSchedule| job_spec(app_id@, path@, s@),
        ),
        strings_view(r.removals@) == unscheduled(
            strings_view(existing@),
            app_id@,
            schedules@.map_values(|s: AppSchedule| s@),
        ),
{
    let ghost scheds = schedules@.map_values(|s: AppSchedule| s@);
    let mut upserts: Vec<RecurringJob> = Vec::new();
    let mut ids: Vec<String> = Vec::new();
    let mut i: usize = 0;
    while i < schedules.len()
        invariant
            i <= schedules.len(),
            scheds == schedules@.map_values(|s: AppSchedule| s@),
            upserts@.len() == i,
            ids@.len() == i,
            forall|k: int| 0 <= k < i ==> #[trigger] upserts@[k]@ == job_spec(app_id@, path@, scheds[k]),
            forall|k: int| 0 <= k < i ==> #[trigger] ids@[k]@ == job_id_spec(app_id@, scheds[k].cron),
        decreases schedules.len() - i,
    {
        let job = RecurringJob::for_schedule(app_id, path, &schedules[i]);
        ids.push(job.id.clone());
        upserts.push(job);
        i = i + 1;
    }
    assert(jobs_view(upserts@) =~= schedules@.map_values(|s: AppSchedule| job_spec(app_id@, path@, s@)));
    let ghost ex = strings_view(existing@);
    let mut removals: Vec<String> = Vec::new();
    let mut j: usize = 0;
    while j < existing.len()
        invariant
            j <= existing.len(),
            ex == strings_view(existing@),
            ids@.len() == scheds.len(),
            forall|k: int| 0 <= k < ids@.len() ==> #[trigger] ids@[k]@ == job_id_spec(app_id@, scheds[k].cron),
            strings_view(removals@) == unscheduled(ex.take(j as int), app_id@, scheds),
        decreases existing.len() - j,
    {
        let mut named = false;
        let mut k: usize = 0;
        while k < ids.len()
            invariant
                k <= ids@.len(),
                j < existing.len(),
                ids@.len() == scheds.len(),
                forall|q: int| 0 <= q < ids@.len() ==> #[trigger] ids@[q]@ == job_id_spec(app_id@, scheds[q].cron),
                named == exists|q: int| 0 <= q < k && job_id_spec(app_id@, scheds[q].cron) == existing@[j as int]@,
            decreases ids@.len() - k,
        {
            if ids[k] == existing[j] {
                named = true;
            }
            k = k + 1;
        }
        assert(ex.take(j + 1).drop_last() =~= ex.take(j as int));
        assert(ex.take(j + 1).last() == existing@[j as int]@);
        if !named {
            removals.push(existing[j].clone());
            assert(strings_view(removals@) =~= unscheduled(ex.take(j as int), app_id@, scheds).push(existing@[j as int]@));
        }
        j = j + 1;
    }
    assert(ex.take(existing@.len() as int) =~= ex);
    SchedulePlan { upserts, removals }
}

} // verus!
