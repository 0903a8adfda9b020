//! The framework's state: the pool of jobs, the runs under way, whether the
//! scheduler runs, and the configuration.
//!
//! The scheduler loop itself (sleeping, threads, channels) is outside; each
//! pass asks this state what to do with each job and reports back what
//! happened: `begin_job_step`, `record_launch`, `finish_status`, `drop_jobs`.
use vstd::prelude::*;
use crate::config::ConfigData;
use crate::cronjob::{filter_admits, CronFilter, CronJob, CronJobType, JobStatus};
use crate::escape::unescape_spec;
use crate::ids::{uuid_is_v4, uuid_string, uuid_text};
use crate::job_builder::{BuildError, JobBuilder};
use crate::schedule::{cron_accepts, cron_parses, valid_instant};
use crate::text::{lemma_filter_map_step, parse_i64, parse_i64_spec};

verus! {

/// Errors of the framework's start.
#[derive(Debug, PartialEq, Eq, Structural, Clone, Copy)]
pub enum CFError {
    ServerStartup,
    TemplateDirectory,
    ServerShutdownHandle,
}

/// Messages from a job's run or from its cron object to the scheduler.
#[derive(Debug, PartialEq, Eq, Structural, Clone, Copy)]
pub enum SchedulerMessage {
    JobComplete,
    JobDrop,
    JobAbort,
}

/// What the scheduler does with a job in one pass.
#[derive(Debug, PartialEq, Eq, Structural, Clone, Copy)]
pub enum StepDecision {
    /// The job's kind is not the one the scheduler runs.
    Filtered,
    /// The job is suspended.
    Suspended,
    /// The job's timeout has expired; `first_notice` when this is the first
    /// pass to see it.
    TimedOut { first_notice: bool },
    /// The job's schedule is not due.
    NotDue,
    /// A run of the job starts now, with this run identifier.
    Launch { run_id: u128 },
    /// A run is under way (or the job is being dropped): read its status.
    PollStatus,
}

/// A job as the web pages list it.
pub struct JobEntry {
    pub name: String,
    pub id: String,
}

/// The jobs the web pages list, by state.
pub struct JobLists {
    pub active: Vec<JobEntry>,
    pub timed_out: Vec<JobEntry>,
    pub suspended: Vec<JobEntry>,
}

/// The name and identifier text of listed jobs.
pub open spec fn entries_view(v: Seq<JobEntry>) -> Seq<(Seq<char>, Seq<char>)> {
    v.map_values(|e: JobEntry| (e.name@, e.id@))
}

/// No two jobs of the pool share an identifier.
pub open spec fn ids_distinct<J>(pool: Seq<CronJob<J>>) -> bool {
    forall|a: int, b: int|
        0 <= a < pool.len() && 0 <= b < pool.len() && a != b ==> #[trigger] pool[a].id
            != #[trigger] pool[b].id
}

/// Some job of the pool has the identifier `id`.
pub open spec fn pool_has_id<J>(pool: Seq<CronJob<J>>, id: u128) -> bool {
    exists|i: int| 0 <= i < pool.len() && (#[trigger] pool[i]).id == id
}

/// The pool after inserting a job by its identifier: it replaces the job
/// with the same identifier, or is added at the end.
pub open spec fn pool_insert<J>(pool: Seq<CronJob<J>>, job: CronJob<J>) -> Seq<CronJob<J>> {
    if pool_has_id(pool, job.id) {
        pool.update(choose|i: int| 0 <= i < pool.len() && (#[trigger] pool[i]).id == job.id, job)
    } else {
        pool.push(job)
    }
}

/// The run identifier of a launch, or 0.
pub open spec fn launch_id(d: StepDecision) -> u128 {
    match d {
        StepDecision::Launch { run_id } => run_id,
        _ => 0,
    }
}

/// One pass of the scheduler over a job that the filter admits: the daily
/// reset, then, when no run is under way and the job is not being dropped,
/// suspension, timeout and schedule in that order; otherwise the run's
/// status is read.
pub open spec fn step_outcome<J>(
    o: CronJob<J>,
    now: i64,
    has_handle: bool,
    dropped: bool,
    run: u128,
) -> (StepDecision, CronJob<J>) {
    let r = o.after_reset(now as int);
    if !has_handle && !dropped {
        if r.suspended {
            (StepDecision::Suspended, r)
        } else if r.timed_out(now as int) {
            (
                StepDecision::TimedOut { first_notice: !r.timeout_notified },
                CronJob { timeout_notified: true, ..r },
            )
        } else if r.due(now) {
            (
                StepDecision::Launch { run_id: run },
                CronJob {
                    run_id: Some(run),
                    start_time: if r.start_time is None {
                        Some(now)
                    } else {
                        r.start_time
                    },
                    ..r
                },
            )
        } else {
            (StepDecision::NotDue, r)
        }
    } else {
        (StepDecision::PollStatus, r)
    }
}

/// A job after its run reported `msg`: a finished or aborted run is over,
/// and an aborted one marks the job as failed.
pub open spec fn status_outcome<J>(o: CronJob<J>, msg: Option<SchedulerMessage>) -> CronJob<J> {
    match msg {
        Some(SchedulerMessage::JobComplete) => CronJob { run_id: None, ..o },
        Some(SchedulerMessage::JobAbort) => CronJob { run_id: None, failed: true, ..o },
        _ => o,
    }
}

/// The job matches the name and the identifier text that a web page gives.
pub open spec fn job_matches<J>(j: CronJob<J>, name: Seq<char>, id: Seq<char>) -> bool {
    j.name@ == name && uuid_text(j.id) == id
}

/// The entry of a job on the web pages.
pub open spec fn entry_of<J>(j: CronJob<J>) -> (Seq<char>, Seq<char>) {
    (j.name@, uuid_text(j.id))
}

/// The identifier of a job that matches the name and identifier text.
pub open spec fn matching_id<J>(name: Seq<char>, id: Seq<char>) -> spec_fn(CronJob<J>) -> Option<u128> {
    |j: CronJob<J>|
        if job_matches(j, name, id) {
            Some(j.id)
        } else {
            None
        }
}

/// The new suspension state of a job that matches the name and identifier text.
pub open spec fn toggled<J>(name: Seq<char>, id: Seq<char>) -> spec_fn(CronJob<J>) -> Option<bool> {
    |j: CronJob<J>|
        if job_matches(j, name, id) {
            Some(!j.suspended)
        } else {
            None
        }
}

/// Which list of the web pages a job's state at `now` puts it on.
pub open spec fn listed_as(status: JobStatus, list: JobStatus) -> bool {
    match list {
        JobStatus::Suspended => status == JobStatus::Suspended,
        JobStatus::TimedOut => status == JobStatus::TimedOut,
        _ => status != JobStatus::Suspended && status != JobStatus::TimedOut,
    }
}

/// The entry of a job on the list `list` of the web pages, if it is on it.
pub open spec fn list_entry<J>(filter: CronFilter, now: int, list: JobStatus) -> spec_fn(
    CronJob<J>,
) -> Option<(Seq<char>, Seq<char>)> {
    |j: CronJob<J>|
        if filter_admits(filter, j.job.kind()) && listed_as(j.status_at(now), list) {
            Some(entry_of(j))
        } else {
            None
        }
}

/// The framework's state.
pub struct CronFrame<J> {
    jobs: Vec<CronJob<J>>,
    handles: Vec<u128>,
    running: bool,
    quit: bool,
    config: ConfigData,
}

impl<J> CronFrame<J> {
    /// The jobs, in the order they were added.
    pub closed spec fn pool(&self) -> Seq<CronJob<J>> {
        self.jobs@
    }

    /// The identifiers of the jobs whose run is under way.
    pub closed spec fn handle_ids(&self) -> Seq<u128> {
        self.handles@
    }

    pub closed spec fn running_flag(&self) -> bool {
        self.running
    }

    pub closed spec fn quit_flag(&self) -> bool {
        self.quit
    }

    pub closed spec fn settings(&self) -> ConfigData {
        self.config
    }

    /// A run of the job `id` is under way.
    pub open spec fn has_handle_spec(&self, id: u128) -> bool {
        self.handle_ids().contains(id)
    }

    /// No two jobs share an identifier, and each run is recorded once.
    pub closed spec fn wf(&self) -> bool {
        &&& ids_distinct(self.jobs@)
        &&& self.handles@.no_duplicates()
    }

    /// What well-formedness keeps: no two jobs share an identifier, and no
    /// job has two runs recorded.
    pub proof fn lemma_wf(&self)
        requires
            self.wf(),
        ensures
            ids_distinct(self.pool()),
            self.handle_ids().no_duplicates(),
    {
    }

    /// Only the pool may have changed.
    pub open spec fn same_but_pool(&self, other: &Self) -> bool {
        &&& self.handle_ids() == other.handle_ids()
        &&& self.running_flag() == other.running_flag()
        &&& self.quit_flag() == other.quit_flag()
        &&& self.settings() == other.settings()
    }

    /// A framework with no jobs, whose scheduler does not run yet.
    pub fn with_config(config: ConfigData) -> (r: Self)
        ensures
            r.wf(),
            r.pool() == Seq::<CronJob<J>>::empty(),
            r.handle_ids() == Seq::<u128>::empty(),
            !r.running_flag(),
            !r.quit_flag(),
            r.settings() == config,
    {
        CronFrame { jobs: Vec::new(), handles: Vec::new(), running: false, quit: false, config }
    }

    /// The jobs.
    pub fn jobs(&self) -> (r: &Vec<CronJob<J>>)
        ensures
            r@ == self.pool(),
    {
        &self.jobs
    }

    /// The configuration.
    pub fn config(&self) -> (r: &ConfigData)
        ensures
            *r == self.settings(),
    {
        &self.config
    }

    /// The kind of jobs the scheduler runs (`NoFilter` for all).
    pub fn job_filter(&self) -> (f: CronFilter)
        ensures
            f == self.settings().scheduler.job_filter,
    {
        self.config.scheduler.job_filter
    }

    /// Whether the scheduler runs.
    pub fn is_running(&self) -> (b: bool)
        ensures
            b == self.running_flag(),
    {
        self.running
    }

    /// Whether the configured filter lets the job at index `i` through.
    pub fn admits(&self, i: usize) -> (b: bool)
        requires
            i < self.pool().len(),
        ensures
            b == filter_admits(self.settings().scheduler.job_filter, self.pool()[i as int].job.kind()),
    {
        let filter = self.config.scheduler.job_filter;
        filter == CronFilter::NoFilter || self.jobs[i].job.type_to_filter() == filter
    }

    /// Whether the framework has been told to quit.
    pub fn is_quit(&self) -> (b: bool)
        ensures
            b == self.quit_flag(),
    {
        self.quit
    }

    /// Whether the scheduler loop goes on: it stops on quit and on stop.
    pub fn scheduler_active(&self) -> (b: bool)
        ensures
            b == (!self.quit_flag() && self.running_flag()),
    {
        !self.quit && self.running
    }

    /// Whether a run of the job `id` is under way.
    pub fn has_handle(&self, id: u128) -> (b: bool)
        ensures
            b == self.has_handle_spec(id),
    {
        let n = self.handles.len();
        for k in 0..n
            invariant
                n == self.handles@.len(),
                forall|m: int| 0 <= m < k ==> self.handles@[m] != id,
        {
            if self.handles[k] == id {
                return true;
            }
        }
        false
    }

    /// The index of the job with identifier `id`, if any.
    pub fn index_of(&self, id: u128) -> (r: Option<usize>)
        ensures
            r matches Some(k) ==> k < self.pool().len() && self.pool()[k as int].id == id,
            r is None ==> !pool_has_id(self.pool(), id),
    {
        let n = self.jobs.len();
        for k in 0..n
            invariant
                n == self.jobs@.len(),
                forall|m: int| 0 <= m < k ==> self.jobs@[m].id != id,
        {
            if self.jobs[k].id == id {
                return Some(k);
            }
        }
        None
    }

    /// Adds a job to the pool; a job with the same identifier is replaced.
    pub fn add_job(&mut self, job: CronJob<J>)
        requires
            old(self).wf(),
        ensures
            final(self).wf(),
            final(self).pool() == pool_insert(old(self).pool(), job),
            final(self).same_but_pool(old(self)),
    {
        let found = self.index_of(job.id);
        let ghost pool = self.jobs@;
        match found {
            Some(k) => {
                proof {
                    assert(pool_has_id(pool, job.id)) by {
                        assert(pool[k as int].id == job.id);
                    }
                    let c = choose|i: int| 0 <= i < pool.len() && (#[trigger] pool[i]).id == job.id;
                    assert(c == k) by {
                        if c != k {
                            assert(pool[c].id != pool[k as int].id);
                        }
                    }
                }
                self.jobs.set(k, job);
                proof {
                    lemma_same_ids_distinct(pool, self.jobs@);
                }
            },
            None => {
                self.jobs.push(job);
                assert(ids_distinct(self.jobs@)) by {
                    assert forall|a: int, b: int|
                        0 <= a < self.jobs@.len() && 0 <= b < self.jobs@.len() && a != b implies #[trigger] self.jobs@[a].id
                        != #[trigger] self.jobs@[b].id by {
                        if a < pool.len() && b < pool.len() {
                            assert(self.jobs@[a] == pool[a]);
                            assert(self.jobs@[b] == pool[b]);
                        } else if a < pool.len() {
                            assert(self.jobs@[a] == pool[a]);
                        } else {
                            assert(self.jobs@[b] == pool[b]);
                        }
                    }
                }
            },
        }
    }

    /// Creates a global job and adds it to the pool; returns its identifier.
    pub fn new_job(&mut self, name: &str, job: J, cron_expr: &str, timeout: &str) -> (id: u128)
        requires
            old(self).wf(),
            cron_accepts(cron_expr@),
            parse_i64_spec(timeout@) is Some,
        ensures
            final(self).wf(),
            final(self).same_but_pool(old(self)),
            uuid_is_v4(id),
            exists|j: CronJob<J>|
                #![trigger pool_insert(old(self).pool(), j)]
                {
                    &&& j.id == id
                    &&& j.name@ == name@
                    &&& j.schedule@ == cron_expr@
                    &&& j.job == (CronJobType::Global { job })
                    &&& j.timeout == CronJob::<J>::timeout_of(parse_i64_spec(timeout@).unwrap())
                    &&& !j.suspended && !j.timeout_notified && !j.failed
                    &&& j.start_time is None && j.run_id is None
                    &&& final(self).pool() == pool_insert(old(self).pool(), j)
                },
    {
        let b = JobBuilder::global_job(name, job, cron_expr, timeout);
        let j = b.build();
        let id = j.id;
        self.add_job(j);
        id
    }

    /// Creates a global job and adds it to the pool, or says which part of
    /// its description does not read (and adds nothing).
    pub fn try_new_job(&mut self, name: &str, job: J, cron_expr: &str, timeout: &str) -> (r: Result<
        u128,
        BuildError,
    >)
        requires
            old(self).wf(),
        ensures
            final(self).wf(),
            final(self).same_but_pool(old(self)),
            r is Ok <==> cron_accepts(cron_expr@) && parse_i64_spec(timeout@) is Some,
            r == Err::<u128, BuildError>(BuildError::InvalidCronExpression) <==> !cron_accepts(
                cron_expr@,
            ),
            r == Err::<u128, BuildError>(BuildError::InvalidTimeout) <==> (cron_accepts(cron_expr@)
                && parse_i64_spec(timeout@) is None),
            r is Err ==> final(self).pool() == old(self).pool(),
            r matches Ok(id) ==> uuid_is_v4(id),
            r matches Ok(id) ==> exists|j: CronJob<J>|
                #![trigger pool_insert(old(self).pool(), j)]
                {
                    &&& j.id == id
                    &&& j.name@ == name@
                    &&& j.schedule@ == cron_expr@
                    &&& j.job == (CronJobType::Global { job })
                    &&& j.timeout == CronJob::<J>::timeout_of(parse_i64_spec(timeout@).unwrap())
                    &&& !j.suspended && !j.timeout_notified && !j.failed
                    &&& j.start_time is None && j.run_id is None
                    &&& final(self).pool() == pool_insert(old(self).pool(), j)
                },
    {
        if !cron_parses(cron_expr) {
            return Err(BuildError::InvalidCronExpression);
        }
        if parse_i64(timeout).is_none() {
            return Err(BuildError::InvalidTimeout);
        }
        Ok(self.new_job(name, job, cron_expr, timeout))
    }

    /// Starts the scheduler unless it runs already; returns whether it was
    /// started (and a scheduler loop is to be spawned). Each pass of that
    /// loop decides through `begin_job_step` (filter, daily reset,
    /// suspension, timeout, launch or poll), `record_launch`,
    /// `finish_status` and `drop_jobs`, whose contracts state what a pass
    /// does to each job.
    pub fn start_scheduler(&mut self) -> (started: bool)
        requires
            old(self).wf(),
        ensures
            final(self).wf(),
            started == !old(self).running_flag(),
            final(self).running_flag(),
            final(self).quit_flag() == (old(self).quit_flag() && old(self).running_flag()),
            final(self).pool() == old(self).pool(),
            final(self).handle_ids() == old(self).handle_ids(),
            final(self).settings() == old(self).settings(),
    {
        if self.running {
            return false;
        }
        self.running = true;
        self.quit = false;
        true
    }

    /// Stops the scheduler: its loop ends at its next pass.
    pub fn stop_scheduler(&mut self)
        requires
            old(self).wf(),
        ensures
            final(self).wf(),
            !final(self).running_flag(),
            final(self).quit_flag() == old(self).quit_flag(),
            final(self).pool() == old(self).pool(),
            final(self).handle_ids() == old(self).handle_ids(),
            final(self).settings() == old(self).settings(),
    {
        self.running = false;
    }

    /// Stops the scheduler and marks the framework as quitting.
    pub fn quit(&mut self)
        requires
            old(self).wf(),
        ensures
            final(self).wf(),
            !final(self).running_flag(),
            final(self).quit_flag(),
            final(self).pool() == old(self).pool(),
            final(self).handle_ids() == old(self).handle_ids(),
            final(self).settings() == old(self).settings(),
    {
        self.running = false;
        self.quit = true;
    }

    /// One pass of the scheduler over the job at index `i`, at time `now`;
    /// `dropped` tells whether the job's cron object asked for it to be
    /// dropped. A launch starts a run with a fresh random identifier.
    pub fn begin_job_step(&mut self, i: usize, now: i64, dropped: bool) -> (d: StepDecision)
        requires
            old(self).wf(),
            i < old(self).pool().len(),
            valid_instant(now as int),
        ensures
            final(self).wf(),
            final(self).same_but_pool(old(self)),
            final(self).pool() == old(self).pool().update(i as int, final(self).pool()[i as int]),
            !filter_admits(old(self).settings().scheduler.job_filter, old(self).pool()[i as int].job.kind())
                ==> d == StepDecision::Filtered && final(self).pool() == old(self).pool(),
            d matches StepDecision::Launch { run_id } ==> uuid_is_v4(run_id),
            filter_admits(old(self).settings().scheduler.job_filter, old(self).pool()[i as int].job.kind())
                ==> (d, final(self).pool()[i as int]) == step_outcome(
                old(self).pool()[i as int],
                now,
                old(self).has_handle_spec(old(self).pool()[i as int].id),
                dropped,
                launch_id(d),
            ),
    {
        let filter = self.config.scheduler.job_filter;
        if filter != CronFilter::NoFilter && self.jobs[i].job.type_to_filter() != filter {
            return StepDecision::Filtered;
        }
        let ghost pool = self.jobs@;
        let id = self.jobs[i].id;
        let handle = self.has_handle(id);
        self.jobs[i].reset_timeout(now);
        let d = if !handle && !dropped {
            if self.jobs[i].suspended {
                StepDecision::Suspended
            } else if self.jobs[i].check_timeout(now) {
                let first = !self.jobs[i].timeout_notified;
                self.jobs[i].timeout_notified = true;
                StepDecision::TimedOut { first_notice: first }
            } else {
                match self.jobs[i].try_schedule(now) {
                    Some(run) => StepDecision::Launch { run_id: run },
                    None => StepDecision::NotDue,
                }
            }
        } else {
            StepDecision::PollStatus
        };
        proof {
            lemma_same_ids_distinct(pool, self.jobs@);
        }
        assert(self.jobs@ =~= pool.update(i as int, self.jobs@[i as int]));
        d
    }

    /// Records that the run of the job `id` has started.
    pub fn record_launch(&mut self, id: u128)
        requires
            old(self).wf(),
        ensures
            final(self).wf(),
            forall|x: u128| final(self).has_handle_spec(x) == (old(self).has_handle_spec(x) || x == id),
            final(self).running_flag() == old(self).running_flag(),
            final(self).quit_flag() == old(self).quit_flag(),
            final(self).pool() == old(self).pool(),
            final(self).settings() == old(self).settings(),
    {
        if !self.has_handle(id) {
            let ghost h = self.handles@;
            self.handles.push(id);
            assert forall|x: u128| self.handles@.contains(x) == (h.contains(x) || x == id) by {
                if h.contains(x) {
                    let k = choose|k: int| 0 <= k < h.len() && h[k] == x;
                    assert(self.handles@[k] == x);
                }
                if x == id {
                    assert(self.handles@[h.len() as int] == x);
                }
                if self.handles@.contains(x) && x != id {
                    let k = choose|k: int| 0 <= k < self.handles@.len() && self.handles@[k] == x;
                    assert(h[k] == x);
                }
            }
        }
    }

    fn remove_handle(&mut self, id: u128)
        requires
            old(self).wf(),
        ensures
            final(self).wf(),
            forall|x: u128| final(self).has_handle_spec(x) == (old(self).has_handle_spec(x) && x != id),
            final(self).running_flag() == old(self).running_flag(),
            final(self).quit_flag() == old(self).quit_flag(),
            final(self).pool() == old(self).pool(),
            final(self).settings() == old(self).settings(),
    {
        let n = self.handles.len();
        for k in 0..n
            invariant
                n == self.handles@.len(),
                forall|m: int| 0 <= m < k ==> self.handles@[m] != id,
                self.wf(),
                self.handles@ == old(self).handles@,
                self.jobs@ == old(self).jobs@,
                self.running == old(self).running,
                self.quit == old(self).quit,
                self.config == old(self).config,
        {
            if self.handles[k] == id {
                let ghost h = self.handles@;
                self.handles.remove(k);
                assert forall|x: u128| self.handles@.contains(x) == (h.contains(x) && x != id) by {
                    if h.contains(x) && x != id {
                        let m = choose|m: int| 0 <= m < h.len() && h[m] == x;
                        assert(m != k);
                        if m < k {
                            assert(self.handles@[m] == x);
                        } else {
                            assert(self.handles@[m - 1] == x);
                        }
                    }
                    if self.handles@.contains(x) {
                        let m = choose|m: int| 0 <= m < self.handles@.len() && self.handles@[m] == x;
                        if m < k {
                            assert(h[m] == x);
                            assert(h[m] != h[k as int]);
                        } else {
                            assert(h[m + 1] == x);
                            assert(h[m + 1] != h[k as int]);
                        }
                    }
                }
                assert(self.handles@.no_duplicates()) by {
                    assert forall|a: int, b: int|
                        0 <= a < self.handles@.len() && 0 <= b < self.handles@.len() && a != b implies self.handles@[a]
                        != self.handles@[b] by {
                        let a2 = if a < k { a } else { a + 1 };
                        let b2 = if b < k { b } else { b + 1 };
                        assert(self.handles@[a] == h[a2]);
                        assert(self.handles@[b] == h[b2]);
                    }
                }
                return ;
            }
        }
    }

    /// Records what the run of the job at index `i` reported (`None` when it
    /// reported nothing yet): a finished or aborted run is over.
    pub fn finish_status(&mut self, i: usize, msg: Option<SchedulerMessage>)
        requires
            old(self).wf(),
            i < old(self).pool().len(),
            msg != Some(SchedulerMessage::JobDrop),
        ensures
            final(self).wf(),
            final(self).pool() == old(self).pool().update(
                i as int,
                status_outcome(old(self).pool()[i as int], msg),
            ),
            msg is None ==> final(self).handle_ids() == old(self).handle_ids(),
            msg is Some ==> forall|x: u128|
                final(self).has_handle_spec(x) == (old(self).has_handle_spec(x) && x != old(
                    self,
                ).pool()[i as int].id),
            final(self).running_flag() == old(self).running_flag(),
            final(self).quit_flag() == old(self).quit_flag(),
            final(self).settings() == old(self).settings(),
    {
        let ghost pool = self.jobs@;
        match msg {
            Some(m) => {
                let id = self.jobs[i].id;
                self.remove_handle(id);
                self.jobs[i].run_id = None;
                if m == SchedulerMessage::JobAbort {
                    self.jobs[i].failed = true;
                }
                proof {
                    lemma_same_ids_distinct(pool, self.jobs@);
                }
                assert(self.jobs@ =~= pool.update(i as int, status_outcome(pool[i as int], msg)));
            },
            None => {
                assert(self.jobs@ =~= pool.update(i as int, pool[i as int]));
            },
        }
    }

    /// Whether the job at index `k` has the given name and identifier text.
    fn matches_at(&self, k: usize, name: &String, id: &String) -> (b: bool)
        requires
            k < self.pool().len(),
        ensures
            b == job_matches(self.pool()[k as int], name@, id@),
    {
        if self.jobs[k].name == *name {
            let text = uuid_string(self.jobs[k].id);
            text == *id
        } else {
            false
        }
    }

    /// The index of the first job with the given name and identifier text.
    pub fn find_job(&self, name: &str, id: &str) -> (r: Option<usize>)
        ensures
            r matches Some(k) ==> k < self.pool().len() && job_matches(self.pool()[k as int], name@, id@)
                && forall|m: int| 0 <= m < k ==> !job_matches(self.pool()[m], name@, id@),
            r is None ==> forall|m: int|
                0 <= m < self.pool().len() ==> !job_matches(self.pool()[m], name@, id@),
    {
        let name_s = name.to_owned();
        let id_s = id.to_owned();
        let n = self.jobs.len();
        for k in 0..n
            invariant
                n == self.pool().len(),
                name_s@ == name@,
                id_s@ == id@,
                forall|m: int| 0 <= m < k ==> !job_matches(self.pool()[m], name@, id@),
        {
            if self.matches_at(k, &name_s, &id_s) {
                return Some(k);
            }
        }
        None
    }

    /// Sets a new timeout on every job with the given name and identifier
    /// text, and opens a new timeout window for it; returns how many jobs
    /// changed.
    pub fn update_timeout(&mut self, name: &str, id: &str, value: i64) -> (count: usize)
        requires
            old(self).wf(),
        ensures
            final(self).wf(),
            final(self).same_but_pool(old(self)),
            final(self).pool().len() == old(self).pool().len(),
            forall|k: int|
                0 <= k < old(self).pool().len() ==> #[trigger] final(self).pool()[k] == if job_matches(
                    old(self).pool()[k],
                    name@,
                    id@,
                ) {
                    CronJob {
                        start_time: None,
                        timeout: CronJob::<J>::timeout_of(value),
                        ..old(self).pool()[k]
                    }
                } else {
                    old(self).pool()[k]
                },
            count == old(self).pool().filter_map(matching_id::<J>(name@, id@)).len(),
    {
        let ghost f = matching_id::<J>(name@, id@);
        let ghost pool = self.jobs@;
        let name_s = name.to_owned();
        let id_s = id.to_owned();
        let n = self.jobs.len();
        let mut count: usize = 0;
        for k in 0..n
            invariant
                n == pool.len(),
                self.jobs@.len() == n,
                name_s@ == name@,
                id_s@ == id@,
                forall|m: int|
                    0 <= m < k ==> #[trigger] self.jobs@[m] == if job_matches(pool[m], name@, id@) {
                        CronJob { start_time: None, timeout: CronJob::<J>::timeout_of(value), ..pool[m] }
                    } else {
                        pool[m]
                    },
                forall|m: int| k <= m < n ==> #[trigger] self.jobs@[m] == pool[m],
                f == matching_id::<J>(name@, id@),
                count == pool.take(k as int).filter_map(f).len(),
                count <= k,
                self.handles@ == old(self).handles@,
                self.running == old(self).running,
                self.quit == old(self).quit,
                self.config == old(self).config,
        {
            proof {
                lemma_filter_map_step(pool, f, k as int);
            }
            if self.matches_at(k, &name_s, &id_s) {
                self.jobs[k].start_time = None;
                self.jobs[k].set_timeout(value);
                count = count + 1;
            }
        }
        assert(pool.take(n as int) =~= pool);
        proof {
            lemma_same_ids_distinct(pool, self.jobs@);
        }
        count
    }

    /// Sets the schedule of every job with the given name and identifier text
    /// to the expression read from a URL path, where the `cron` crate accepts
    /// it. Returns `None` when no job matches, else whether it was accepted.
    pub fn update_schedule(&mut self, name: &str, id: &str, expression: &str) -> (r: Option<bool>)
        requires
            old(self).wf(),
        ensures
            final(self).wf(),
            final(self).same_but_pool(old(self)),
            final(self).pool().len() == old(self).pool().len(),
            r is None <==> forall|k: int|
                0 <= k < old(self).pool().len() ==> !job_matches(old(self).pool()[k], name@, id@),
            r matches Some(ok) ==> ok == cron_accepts(unescape_spec(expression@)),
            forall|k: int|
                0 <= k < old(self).pool().len() ==> {
                    let o = #[trigger] old(self).pool()[k];
                    let j = final(self).pool()[k];
                    if job_matches(o, name@, id@) && cron_accepts(unescape_spec(expression@)) {
                        j.schedule@ == unescape_spec(expression@) && (CronJob { schedule: o.schedule, ..j }) == o
                    } else {
                        j == o
                    }
                },
    {
        let ghost pool = self.jobs@;
        let name_s = name.to_owned();
        let id_s = id.to_owned();
        let n = self.jobs.len();
        let mut r: Option<bool> = None;
        for k in 0..n
            invariant
                n == pool.len(),
                self.jobs@.len() == n,
                name_s@ == name@,
                id_s@ == id@,
                forall|m: int|
                    0 <= m < k ==> {
                        let o = #[trigger] pool[m];
                        let j = self.jobs@[m];
                        if job_matches(o, name@, id@) && cron_accepts(unescape_spec(expression@)) {
                            j.schedule@ == unescape_spec(expression@) && (CronJob { schedule: o.schedule, ..j }) == o
                        } else {
                            j == o
                        }
                    },
                forall|m: int| k <= m < n ==> #[trigger] self.jobs@[m] == pool[m],
                r is None <==> forall|m: int| 0 <= m < k ==> !job_matches(pool[m], name@, id@),
                r matches Some(ok) ==> ok == cron_accepts(unescape_spec(expression@)),
                self.handles@ == old(self).handles@,
                self.running == old(self).running,
                self.quit == old(self).quit,
                self.config == old(self).config,
        {
            if self.matches_at(k, &name_s, &id_s) {
                let ok = self.jobs[k].set_schedule(expression);
                r = Some(ok);
            }
        }
        proof {
            lemma_same_ids_distinct(pool, self.jobs@);
        }
        r
    }

    /// Suspends every job with the given name and identifier text that was
    /// not suspended, and resumes every one that was; returns, for each in
    /// pool order, whether it is now suspended.
    pub fn toggle_suspension(&mut self, name: &str, id: &str) -> (r: Vec<bool>)
        requires
            old(self).wf(),
        ensures
            final(self).wf(),
            final(self).same_but_pool(old(self)),
            final(self).pool().len() == old(self).pool().len(),
            forall|k: int|
                0 <= k < old(self).pool().len() ==> #[trigger] final(self).pool()[k] == if job_matches(
                    old(self).pool()[k],
                    name@,
                    id@,
                ) {
                    CronJob { suspended: !old(self).pool()[k].suspended, ..old(self).pool()[k] }
                } else {
                    old(self).pool()[k]
                },
            r@ == old(self).pool().filter_map(toggled::<J>(name@, id@)),
    {
        let ghost f = toggled::<J>(name@, id@);
        let ghost pool = self.jobs@;
        let name_s = name.to_owned();
        let id_s = id.to_owned();
        let n = self.jobs.len();
        let mut r: Vec<bool> = Vec::new();
        for k in 0..n
            invariant
                n == pool.len(),
                self.jobs@.len() == n,
                name_s@ == name@,
                id_s@ == id@,
                forall|m: int|
                    0 <= m < k ==> #[trigger] self.jobs@[m] == if job_matches(pool[m], name@, id@) {
                        CronJob { suspended: !pool[m].suspended, ..pool[m] }
                    } else {
                        pool[m]
                    },
                forall|m: int| k <= m < n ==> #[trigger] self.jobs@[m] == pool[m],
                f == toggled::<J>(name@, id@),
                r@ == pool.take(k as int).filter_map(f),
                self.handles@ == old(self).handles@,
                self.running == old(self).running,
                self.quit == old(self).quit,
                self.config == old(self).config,
        {
            proof {
                lemma_filter_map_step(pool, f, k as int);
            }
            if self.matches_at(k, &name_s, &id_s) {
                let now_suspended = !self.jobs[k].suspended;
                self.jobs[k].suspended = now_suspended;
                r.push(now_suspended);
            }
        }
        assert(pool.take(n as int) =~= pool);
        proof {
            lemma_same_ids_distinct(pool, self.jobs@);
        }
        r
    }

    /// The jobs the scheduler runs, listed by their state at `now`: active
    /// (awaiting their schedule or running), timed out, and suspended, each
    /// in pool order.
    pub fn job_lists(&self, now: i64) -> (r: JobLists)
        ensures
            entries_view(r.active@) == self.pool().filter_map(
                list_entry::<J>(self.settings().scheduler.job_filter, now as int, JobStatus::Running),
            ),
            entries_view(r.timed_out@) == self.pool().filter_map(
                list_entry::<J>(self.settings().scheduler.job_filter, now as int, JobStatus::TimedOut),
            ),
            entries_view(r.suspended@) == self.pool().filter_map(
                list_entry::<J>(self.settings().scheduler.job_filter, now as int, JobStatus::Suspended),
            ),
    {
        let ghost filter = self.config.scheduler.job_filter;
        let ghost fa = list_entry::<J>(filter, now as int, JobStatus::Running);
        let ghost ft = list_entry::<J>(filter, now as int, JobStatus::TimedOut);
        let ghost fs = list_entry::<J>(filter, now as int, JobStatus::Suspended);
        let ghost pool = self.jobs@;
        let job_filter = self.config.scheduler.job_filter;
        let mut active: Vec<JobEntry> = Vec::new();
        let mut timed_out: Vec<JobEntry> = Vec::new();
        let mut suspended: Vec<JobEntry> = Vec::new();
        let n = self.jobs.len();
        for k in 0..n
            invariant
                n == pool.len(),
                pool == self.jobs@,
                job_filter == filter,
                fa == list_entry::<J>(filter, now as int, JobStatus::Running),
                ft == list_entry::<J>(filter, now as int, JobStatus::TimedOut),
                fs == list_entry::<J>(filter, now as int, JobStatus::Suspended),
                entries_view(active@) == pool.take(k as int).filter_map(fa),
                entries_view(timed_out@) == pool.take(k as int).filter_map(ft),
                entries_view(suspended@) == pool.take(k as int).filter_map(fs),
        {
            proof {
                lemma_filter_map_step(pool, fa, k as int);
                lemma_filter_map_step(pool, ft, k as int);
                lemma_filter_map_step(pool, fs, k as int);
            }
            let job = &self.jobs[k];
            let kind = job.job.type_to_filter();
            if job_filter == CronFilter::NoFilter || job_filter == kind {
                let status = job.status_kind(now);
                let entry = JobEntry { name: job.name.clone(), id: uuid_string(job.id) };
                let ghost e = entry;
                if status == JobStatus::Suspended {
                    let ghost before = suspended@;
                    suspended.push(entry);
                    assert(entries_view(suspended@) =~= entries_view(before).push((e.name@, e.id@)));
                } else if status == JobStatus::TimedOut {
                    let ghost before = timed_out@;
                    timed_out.push(entry);
                    assert(entries_view(timed_out@) =~= entries_view(before).push((e.name@, e.id@)));
                } else {
                    let ghost before = active@;
                    active.push(entry);
                    assert(entries_view(active@) =~= entries_view(before).push((e.name@, e.id@)));
                }
            }
        }
        assert(pool.take(n as int) =~= pool);
        JobLists { active, timed_out, suspended }
    }

    /// Removes from the pool the jobs whose identifiers are listed.
    pub fn drop_jobs(&mut self, ids: &Vec<u128>)
        requires
            old(self).wf(),
        ensures
            final(self).wf(),
            final(self).pool() == old(self).pool().filter_map(keep_unlisted(ids@)),
            final(self).same_but_pool(old(self)),
    {
        let ghost f = keep_unlisted::<J>(ids@);
        let ghost pool = self.jobs@;
        let n = self.jobs.len();
        let mut stack: Vec<CronJob<J>> = Vec::new();
        while self.jobs.len() > 0
            invariant
                n == pool.len(),
                stack@.len() + self.jobs@.len() == n,
                self.jobs@ == pool.take(self.jobs@.len() as int),
                forall|m: int| 0 <= m < stack@.len() ==> stack@[m] == pool[n - 1 - m],
                self.handles@ == old(self).handles@,
                self.running == old(self).running,
                self.quit == old(self).quit,
                self.config == old(self).config,
            decreases self.jobs@.len(),
        {
            let ghost before = self.jobs@;
            let j = self.jobs.pop().unwrap();
            assert(self.jobs@ =~= pool.take(self.jobs@.len() as int));
            stack.push(j);
        }
        let mut kept: Vec<CronJob<J>> = Vec::new();
        let mut k: usize = 0;
        assert(pool.take(0) =~= Seq::<CronJob<J>>::empty());
        while k < n
            invariant
                k <= n,
                n == pool.len(),
                stack@.len() == n - k,
                forall|m: int| 0 <= m < n - k ==> stack@[m] == pool[n - 1 - m],
                kept@ == pool.take(k as int).filter_map(f),
                f == keep_unlisted::<J>(ids@),
                self.jobs@ == Seq::<CronJob<J>>::empty(),
                self.handles@ == old(self).handles@,
                self.running == old(self).running,
                self.quit == old(self).quit,
                self.config == old(self).config,
            decreases n - k,
        {
            let j = stack.pop().unwrap();
            assert(j == pool[k as int]);
            proof {
                assert(pool.take(k + 1).drop_last() =~= pool.take(k as int));
                assert(pool.take(k + 1).last() == pool[k as int]);
            }
            let mut found = false;
            let m = ids.len();
            for q in 0..m
                invariant
                    m == ids@.len(),
                    found == exists|x: int| 0 <= x < q && ids@[x] == j.id,
            {
                if ids[q] == j.id {
                    found = true;
                }
            }
            assert(found == ids@.contains(j.id));
            if !found {
                kept.push(j);
            }
            k = k + 1;
        }
        assert(pool.take(n as int) =~= pool);
        proof {
            lemma_kept_distinct(pool, ids@);
        }
        self.jobs = kept;
    }
}

/// Keeps a job unless its identifier is listed.
pub open spec fn keep_unlisted<J>(ids: Seq<u128>) -> spec_fn(CronJob<J>) -> Option<CronJob<J>> {
    |j: CronJob<J>|
        if ids.contains(j.id) {
            None
        } else {
            Some(j)
        }
}

/// Two pools whose jobs have the same identifiers, index by index: if one
/// has distinct identifiers, so has the other.
proof fn lemma_same_ids_distinct<J>(a: Seq<CronJob<J>>, b: Seq<CronJob<J>>)
    requires
        ids_distinct(a),
        a.len() == b.len(),
        forall|k: int| 0 <= k < a.len() ==> #[trigger] b[k].id == a[k].id,
    ensures
        ids_distinct(b),
{
    assert forall|x: int, y: int|
        0 <= x < b.len() && 0 <= y < b.len() && x != y implies #[trigger] b[x].id != #[trigger] b[y].id by {
        assert(b[x].id == a[x].id);
        assert(b[y].id == a[y].id);
    }
}

proof fn lemma_kept_distinct<J>(pool: Seq<CronJob<J>>, ids: Seq<u128>)
    requires
        ids_distinct(pool),
    ensures
        ids_distinct(pool.filter_map(keep_unlisted::<J>(ids))),
        forall|k: int|
            0 <= k < pool.filter_map(keep_unlisted::<J>(ids)).len() ==> exists|m: int|
                0 <= m < pool.len() && #[trigger] pool.filter_map(keep_unlisted::<J>(ids))[k]
                    == pool[m],
    decreases pool.len(),
{
    let f = keep_unlisted::<J>(ids);
    if pool.len() > 0 {
        let init = pool.drop_last();
        assert(ids_distinct(init)) by {
            assert forall|a: int, b: int|
                0 <= a < init.len() && 0 <= b < init.len() && a != b implies #[trigger] init[a].id
                != #[trigger] init[b].id by {
                assert(init[a] == pool[a]);
                assert(init[b] == pool[b]);
            }
        }
        lemma_kept_distinct(init, ids);
        let r = init.filter_map(f);
        let fm = pool.filter_map(f);
        if ids.contains(pool.last().id) {
            assert(fm == r);
            assert forall|k: int| 0 <= k < fm.len() implies exists|m: int|
                0 <= m < pool.len() && #[trigger] fm[k] == pool[m] by {
                let m = choose|m: int| 0 <= m < init.len() && r[k] == init[m];
                assert(pool[m] == init[m]);
            }
        } else {
            assert(fm == r + seq![pool.last()]);
            assert forall|k: int| 0 <= k < fm.len() implies exists|m: int|
                0 <= m < pool.len() && #[trigger] fm[k] == pool[m] by {
                if k < r.len() {
                    assert(fm[k] == r[k]);
                    let m = choose|m: int| 0 <= m < init.len() && r[k] == init[m];
                    assert(pool[m] == init[m]);
                } else {
                    assert(fm[k] == pool[pool.len() - 1]);
                }
            }
            assert forall|a: int, b: int|
                0 <= a < fm.len() && 0 <= b < fm.len() && a != b implies #[trigger] fm[a].id
                != #[trigger] fm[b].id by {
                if a < r.len() && b < r.len() {
                    assert(fm[a] == r[a]);
                    assert(fm[b] == r[b]);
                } else if a < r.len() {
                    assert(fm[a] == r[a]);
                    let m = choose|m: int| 0 <= m < init.len() && r[a] == init[m];
                    assert(pool[m] == init[m]);
                    assert(fm[b] == pool[pool.len() - 1]);
                } else {
                    assert(fm[b] == r[b]);
                    let m = choose|m: int| 0 <= m < init.len() && r[b] == init[m];
                    assert(pool[m] == init[m]);
                    assert(fm[a] == pool[pool.len() - 1]);
                }
            }
        }
    }
}

} // verus!
