//! A cron job: its schedule, its daily timeout, and its run state.
//!
//! Times are milliseconds since the Unix epoch (UTC); durations are
//! milliseconds. The job's callable is the type parameter `J`, which the
//! scheduling logic carries along and never inspects.
use vstd::prelude::*;
use crate::escape::{unescape_expression, unescape_spec};
use crate::ids::{new_uuid_v4, uuid_is_v4, uuid_string, uuid_text};
use crate::schedule::{cron_accepts, cron_next, cron_next_after, cron_parses, valid_instant};
use crate::text::{decimal_i64, int_decimal, push_all, push_str, string_from_chars};

verus! {

/// One day in milliseconds: a timed-out job is released this long after its timeout expired.
pub open spec fn day_ms() -> int {
    86_400_000
}

/// The kinds of jobs, and `NoFilter` (shown as `None`) for "every kind" when used as a filter.
#[derive(Debug, PartialEq, Eq, Structural, Clone, Copy)]
pub enum CronFilter {
    NoFilter,
    Global,
    Function,
    Method,
    CLI,
}

/// What a job runs: a global function, an associated function of a cron
/// object, a method of a cron object instance, or a program added from the
/// command line.
#[derive(Debug, Clone)]
pub enum CronJobType<J> {
    Global { job: J },
    Function { job: J },
    Method { job: J },
    CLI { job_name: String },
}

/// The name of a job kind.
pub open spec fn kind_name(k: CronFilter) -> Seq<char> {
    match k {
        CronFilter::Global => "Global"@,
        CronFilter::Function => "Function"@,
        CronFilter::Method => "Method"@,
        CronFilter::CLI => "CLI"@,
        CronFilter::NoFilter => "None"@,
    }
}

impl<J> CronJobType<J> {
    /// The kind of the job.
    pub open spec fn kind(&self) -> CronFilter {
        match self {
            CronJobType::Global { .. } => CronFilter::Global,
            CronJobType::Function { .. } => CronFilter::Function,
            CronJobType::Method { .. } => CronFilter::Method,
            CronJobType::CLI { .. } => CronFilter::CLI,
        }
    }

    /// The name of the job's kind.
    pub fn job_type(&self) -> (s: String)
        ensures
            s@ == kind_name(self.kind()),
    {
        match self {
            CronJobType::Global { .. } => String::from_str("Global"),
            CronJobType::Function { .. } => String::from_str("Function"),
            CronJobType::Method { .. } => String::from_str("Method"),
            CronJobType::CLI { .. } => String::from_str("CLI"),
        }
    }

    /// The filter that selects jobs of this kind.
    pub fn type_to_filter(&self) -> (f: CronFilter)
        ensures
            f == self.kind(),
    {
        match self {
            CronJobType::Global { .. } => CronFilter::Global,
            CronJobType::Function { .. } => CronFilter::Function,
            CronJobType::Method { .. } => CronFilter::Method,
            CronJobType::CLI { .. } => CronFilter::CLI,
        }
    }
}

/// Whether a filter lets a job of kind `k` through.
pub open spec fn filter_admits(filter: CronFilter, k: CronFilter) -> bool {
    filter == CronFilter::NoFilter || filter == k
}

/// The state of a job as the web pages show it.
#[derive(Debug, PartialEq, Eq, Structural, Clone, Copy)]
pub enum JobStatus {
    Suspended,
    TimedOut,
    Running,
    AwaitingSchedule,
}

/// The text of a job state.
pub open spec fn status_name(s: JobStatus) -> Seq<char> {
    match s {
        JobStatus::Suspended => "Suspended"@,
        JobStatus::TimedOut => "Timed-Out"@,
        JobStatus::Running => "Running"@,
        JobStatus::AwaitingSchedule => "Awaiting Schedule"@,
    }
}

/// Seconds of a duration in milliseconds, truncated toward zero.
pub open spec fn trunc_seconds(ms: int) -> int {
    if ms >= 0 {
        ms / 1000
    } else {
        -((-ms) / 1000)
    }
}

/// The text of a timeout: seconds and milliseconds, or `None`.
pub open spec fn timeout_text(t: Option<i64>) -> Seq<char> {
    match t {
        Some(ms) => int_decimal(trunc_seconds(ms as int)) + " s \n "@ + int_decimal(ms as int)
            + " ms"@,
        None => "None"@,
    }
}

/// The next firing of a job as its web page shows it: none while its
/// timeout has expired, else the next firing of the schedule, if any.
#[derive(Debug, PartialEq, Eq, Structural, Clone, Copy)]
pub enum Upcoming {
    BlockedByTimeout,
    At { ms: i64 },
    NoFiring,
}

/// A job with its schedule and run state.
#[derive(Debug, Clone)]
pub struct CronJob<J> {
    /// The job's identifier (a random UUID).
    pub id: u128,
    pub name: String,
    pub job: CronJobType<J>,
    /// While set, the scheduler does not start the job.
    pub suspended: bool,
    /// The cron expression of the schedule. `JobBuilder::build` and
    /// `set_schedule` store only expressions the `cron` crate accepts; the
    /// field itself is public and holds whatever is put in it.
    pub schedule: String,
    /// The daily timeout in milliseconds, if any.
    pub timeout: Option<i64>,
    /// Whether the timeout has been reported.
    pub timeout_notified: bool,
    /// When the job was first started within the current timeout window.
    pub start_time: Option<i64>,
    /// The identifier of the current run, while one is under way.
    pub run_id: Option<u128>,
    /// Whether a run has aborted.
    pub failed: bool,
}

impl<J> CronJob<J> {
    /// The timeout has expired at `now`.
    pub open spec fn timed_out(&self, now: int) -> bool {
        match (self.timeout, self.start_time) {
            (Some(t), Some(s)) => now >= s + t,
            _ => false,
        }
    }

    /// A day has passed since the timeout expired.
    pub open spec fn reset_due(&self, now: int) -> bool {
        match (self.timeout, self.start_time) {
            (Some(t), Some(s)) => now >= s + t + day_ms(),
            _ => false,
        }
    }

    /// The job after the daily reset check at `now`.
    pub open spec fn after_reset(self, now: int) -> CronJob<J> {
        if self.reset_due(now) {
            CronJob { start_time: None, ..self }
        } else {
            self
        }
    }

    /// The next firing of the schedule falls within a second of `now`.
    pub open spec fn due(&self, now: i64) -> bool {
        match cron_next_after(self.schedule@, now) {
            Some(n) => n - now <= 1000,
            None => false,
        }
    }

    /// The job's state at `now`: suspension first, then the timeout, then a run.
    pub open spec fn status_at(&self, now: int) -> JobStatus {
        if self.suspended {
            JobStatus::Suspended
        } else if self.timed_out(now) {
            JobStatus::TimedOut
        } else if self.run_id is Some {
            JobStatus::Running
        } else {
            JobStatus::AwaitingSchedule
        }
    }

    /// The timeout that `set_timeout(value)` sets.
    pub open spec fn timeout_of(value: i64) -> Option<i64> {
        if value > 0 {
            Some(value)
        } else {
            None
        }
    }

    /// The job's name.
    pub fn name(&self) -> (s: String)
        ensures
            s@ == self.name@,
    {
        self.name.clone()
    }

    /// Whether the next firing of the schedule is within a second of `now`.
    pub fn check_schedule(&self, now: i64) -> (b: bool)
        requires
            valid_instant(now as int),
        ensures
            b == self.due(now),
    {
        match cron_next(self.schedule.as_str(), now) {
            Some(next) => (next as i128) - (now as i128) <= 1000,
            None => false,
        }
    }

    /// Sets the timeout from a value in milliseconds; a value that is not
    /// positive removes the timeout.
    pub fn set_timeout(&mut self, value: i64)
        ensures
            *final(self) == (CronJob { timeout: Self::timeout_of(value), ..*old(self) }),
    {
        self.timeout = if value > 0 {
            Some(value)
        } else {
            None
        };
    }

    /// The job's state at `now`.
    pub fn status_kind(&self, now: i64) -> (s: JobStatus)
        ensures
            s == self.status_at(now as int),
    {
        if self.suspended {
            JobStatus::Suspended
        } else if self.check_timeout(now) {
            JobStatus::TimedOut
        } else if self.run_id.is_some() {
            JobStatus::Running
        } else {
            JobStatus::AwaitingSchedule
        }
    }

    /// The text of the job's state at `now`.
    pub fn status(&self, now: i64) -> (s: String)
        ensures
            s@ == status_name(self.status_at(now as int)),
    {
        match self.status_kind(now) {
            JobStatus::Suspended => String::from_str("Suspended"),
            JobStatus::TimedOut => String::from_str("Timed-Out"),
            JobStatus::Running => String::from_str("Running"),
            JobStatus::AwaitingSchedule => String::from_str("Awaiting Schedule"),
        }
    }

    /// Replaces the schedule with the expression read from a URL path, if
    /// the `cron` crate accepts it; returns whether it did.
    pub fn set_schedule(&mut self, expression: &str) -> (ok: bool)
        ensures
            ok == cron_accepts(unescape_spec(expression@)),
            ok ==> final(self).schedule@ == unescape_spec(expression@),
            ok ==> (CronJob { schedule: old(self).schedule, ..*final(self) }) == *old(self),
            !ok ==> *final(self) == *old(self),
    {
        let expr = unescape_expression(expression);
        if cron_parses(expr.as_str()) {
            self.schedule = expr;
            true
        } else {
            false
        }
    }

    /// Whether the timeout has expired at `now`.
    pub fn check_timeout(&self, now: i64) -> (b: bool)
        ensures
            b == self.timed_out(now as int),
    {
        match (self.timeout, self.start_time) {
            (Some(t), Some(s)) => (now as i128) >= (s as i128) + (t as i128),
            _ => false,
        }
    }

    /// Releases a timed-out job a day after its timeout expired: the start
    /// of its timeout window is forgotten.
    pub fn reset_timeout(&mut self, now: i64)
        ensures
            *final(self) == old(self).after_reset(now as int),
    {
        let due = match (self.timeout, self.start_time) {
            (Some(t), Some(s)) => (now as i128) >= (s as i128) + (t as i128) + 86_400_000i128,
            _ => false,
        };
        if due {
            self.start_time = None;
        }
    }

    /// The cron expression of the schedule.
    pub fn schedule(&self) -> (s: String)
        ensures
            s@ == self.schedule@,
    {
        self.schedule.clone()
    }

    /// The timeout as seconds and milliseconds, or `None`.
    pub fn timeout_to_string(&self) -> (s: String)
        ensures
            s@ == timeout_text(self.timeout),
    {
        match self.timeout {
            Some(ms) => {
                let secs: i64 = if ms >= 0 {
                    ms / 1000
                } else {
                    (0i128 - ((0i128 - (ms as i128)) / 1000)) as i64
                };
                let mut v = decimal_i64(secs);
                push_str(&mut v, " s \n ");
                let d = decimal_i64(ms);
                push_all(&mut v, &d);
                push_str(&mut v, " ms");
                string_from_chars(&v)
            },
            None => String::from_str("None"),
        }
    }

    /// The name of the job's kind.
    pub fn type_to_string(&self) -> (s: String)
        ensures
            s@ == kind_name(self.job.kind()),
    {
        self.job.job_type()
    }

    /// The next firing of the schedule after `now`, in UTC.
    pub fn upcoming_utc(&self, now: i64) -> (r: Option<i64>)
        requires
            valid_instant(now as int),
        ensures
            r == cron_next_after(self.schedule@, now),
    {
        cron_next(self.schedule.as_str(), now)
    }

    /// The next firing after `now` as the job page shows it: a job whose
    /// timeout has expired has none until it is released.
    pub fn upcoming(&self, now: i64) -> (r: Upcoming)
        requires
            valid_instant(now as int),
        ensures
            self.timed_out(now as int) ==> r == Upcoming::BlockedByTimeout,
            !self.timed_out(now as int) ==> r == match cron_next_after(self.schedule@, now) {
                Some(n) => Upcoming::At { ms: n },
                None => Upcoming::NoFiring,
            },
    {
        if self.check_timeout(now) {
            Upcoming::BlockedByTimeout
        } else {
            match self.upcoming_utc(now) {
                Some(n) => Upcoming::At { ms: n },
                None => Upcoming::NoFiring,
            }
        }
    }

    /// The identifier of the current run, or `None`.
    pub fn run_id(&self) -> (s: String)
        ensures
            s@ == match self.run_id {
                Some(r) => uuid_text(r),
                None => "None"@,
            },
    {
        match self.run_id {
            Some(r) => uuid_string(r),
            None => String::from_str("None"),
        }
    }

    /// The job's identifier as text.
    pub fn id_string(&self) -> (s: String)
        ensures
            s@ == uuid_text(self.id),
    {
        uuid_string(self.id)
    }

    /// Starts a run when the schedule is due at `now`: the run gets a fresh
    /// random identifier, and the timeout window opens at `now` unless it is
    /// open already. Returns the run's identifier, or `None` when not due.
    pub fn try_schedule(&mut self, now: i64) -> (r: Option<u128>)
        requires
            valid_instant(now as int),
        ensures
            r is Some == old(self).due(now),
            r is None ==> *final(self) == *old(self),
            r matches Some(run) ==> uuid_is_v4(run),
            r matches Some(run) ==> *final(self) == (CronJob {
                run_id: Some(run),
                start_time: if old(self).start_time is None {
                    Some(now)
                } else {
                    old(self).start_time
                },
                ..*old(self)
            }),
    {
        if self.check_schedule(now) {
            let run = new_uuid_v4();
            self.run_id = Some(run);
            if self.start_time.is_none() {
                self.start_time = Some(now);
            }
            Some(run)
        } else {
            None
        }
    }
}

} // verus!
