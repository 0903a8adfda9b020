//! The description of a job before it is built: its name, what it runs, its
//! cron expression and its timeout, both still text.
use vstd::prelude::*;
use crate::cronjob::{CronJob, CronJobType};
use crate::ids::{new_uuid_v4, uuid_is_v4};
use crate::schedule::{cron_accepts, cron_parses};
use crate::text::{parse_i64, parse_i64_spec};

verus! {

/// A job described by text, as the macros and `CronFrame::new_job` give it.
#[derive(Debug, Clone)]
pub enum JobBuilder<J> {
    Global { name: String, job: J, cron_expr: String, timeout: String },
    Method { name: String, job: J, cron_expr: String, timeout: String },
    Function { name: String, job: J, cron_expr: String, timeout: String },
    CLI { name: String, cron_expr: String, timeout: String },
}

/// Why a description cannot be built.
#[derive(Debug, PartialEq, Eq, Structural, Clone, Copy)]
pub enum BuildError {
    /// The `cron` crate does not accept the expression.
    InvalidCronExpression,
    /// The timeout is not a 64-bit integer.
    InvalidTimeout,
}

impl<J> JobBuilder<J> {
    pub open spec fn name_of(&self) -> Seq<char> {
        match self {
            JobBuilder::Global { name, .. } => name@,
            JobBuilder::Method { name, .. } => name@,
            JobBuilder::Function { name, .. } => name@,
            JobBuilder::CLI { name, .. } => name@,
        }
    }

    pub open spec fn expr_of(&self) -> Seq<char> {
        match self {
            JobBuilder::Global { cron_expr, .. } => cron_expr@,
            JobBuilder::Method { cron_expr, .. } => cron_expr@,
            JobBuilder::Function { cron_expr, .. } => cron_expr@,
            JobBuilder::CLI { cron_expr, .. } => cron_expr@,
        }
    }

    pub open spec fn timeout_text_of(&self) -> Seq<char> {
        match self {
            JobBuilder::Global { timeout, .. } => timeout@,
            JobBuilder::Method { timeout, .. } => timeout@,
            JobBuilder::Function { timeout, .. } => timeout@,
            JobBuilder::CLI { timeout, .. } => timeout@,
        }
    }

    /// What the built job runs.
    pub open spec fn job_of(self) -> CronJobType<J> {
        match self {
            JobBuilder::Global { job, .. } => CronJobType::Global { job },
            JobBuilder::Method { job, .. } => CronJobType::Method { job },
            JobBuilder::Function { job, .. } => CronJobType::Function { job },
            JobBuilder::CLI { name, .. } => CronJobType::CLI { job_name: name },
        }
    }

    /// Both the expression and the timeout read.
    pub open spec fn buildable(&self) -> bool {
        cron_accepts(self.expr_of()) && parse_i64_spec(self.timeout_text_of()) is Some
    }

    /// The job built from this description with the identifier `id`: not
    /// suspended, never run, with a timeout only if the given one is positive.
    pub open spec fn built(self, id: u128, name: String, schedule: String) -> CronJob<J> {
        CronJob {
            id,
            name,
            job: self.job_of(),
            suspended: false,
            schedule,
            timeout: CronJob::<J>::timeout_of(parse_i64_spec(self.timeout_text_of()).unwrap()),
            timeout_notified: false,
            start_time: None,
            run_id: None,
            failed: false,
        }
    }

    /// Describes a global job.
    pub fn global_job(name: &str, job: J, cron_expr: &str, timeout: &str) -> (r: Self)
        ensures
            r is Global,
            r.job_of() == (CronJobType::Global { job }),
            r.name_of() == name@,
            r.expr_of() == cron_expr@,
            r.timeout_text_of() == timeout@,
    {
        JobBuilder::Global {
            name: name.to_owned(),
            job,
            cron_expr: cron_expr.to_owned(),
            timeout: timeout.to_owned(),
        }
    }

    /// Describes a method job; `job` runs the method on its cron object.
    pub fn method_job(name: &str, job: J, cron_expr: String, timeout: String) -> (r: Self)
        ensures
            r is Method,
            r.job_of() == (CronJobType::Method { job }),
            r.name_of() == name@,
            r.expr_of() == cron_expr@,
            r.timeout_text_of() == timeout@,
    {
        JobBuilder::Method { name: name.to_owned(), job, cron_expr, timeout }
    }

    /// Describes a function job of a cron object.
    pub fn function_job(name: &str, job: J, cron_expr: &str, timeout: &str) -> (r: Self)
        ensures
            r is Function,
            r.job_of() == (CronJobType::Function { job }),
            r.name_of() == name@,
            r.expr_of() == cron_expr@,
            r.timeout_text_of() == timeout@,
    {
        JobBuilder::Function {
            name: name.to_owned(),
            job,
            cron_expr: cron_expr.to_owned(),
            timeout: timeout.to_owned(),
        }
    }

    /// Describes a job that runs the program `name` added from the command line.
    pub fn cli_job(name: &str, cron_expr: &str, timeout: &str) -> (r: Self)
        ensures
            r is CLI,
            r.name_of() == name@,
            r.expr_of() == cron_expr@,
            r.timeout_text_of() == timeout@,
    {
        JobBuilder::CLI {
            name: name.to_owned(),
            cron_expr: cron_expr.to_owned(),
            timeout: timeout.to_owned(),
        }
    }

    /// Builds the job, with a fresh random identifier.
    pub fn build(self) -> (r: CronJob<J>)
        requires
            self.buildable(),
        ensures
            r == self.built(r.id, r.name, r.schedule),
            r.name@ == self.name_of(),
            r.schedule@ == self.expr_of(),
            uuid_is_v4(r.id),
    {
        let ghost this = self;
        let (name, job, cron_expr, timeout) = match self {
            JobBuilder::Global { name, job, cron_expr, timeout } => {
                (name, CronJobType::Global { job }, cron_expr, timeout)
            },
            JobBuilder::Method { name, job, cron_expr, timeout } => {
                (name, CronJobType::Method { job }, cron_expr, timeout)
            },
            JobBuilder::Function { name, job, cron_expr, timeout } => {
                (name, CronJobType::Function { job }, cron_expr, timeout)
            },
            JobBuilder::CLI { name, cron_expr, timeout } => {
                let job_name = name.clone();
                (name, CronJobType::CLI { job_name }, cron_expr, timeout)
            },
        };
        let t = parse_i64(timeout.as_str()).unwrap();
        let timeout = if t > 0 {
            Some(t)
        } else {
            None
        };
        CronJob {
            id: new_uuid_v4(),
            name,
            job,
            suspended: false,
            schedule: cron_expr,
            timeout,
            timeout_notified: false,
            start_time: None,
            run_id: None,
            failed: false,
        }
    }

    /// Builds the job, or says which part of the description does not read.
    pub fn try_build(self) -> (r: Result<CronJob<J>, BuildError>)
        ensures
            r is Ok <==> self.buildable(),
            r == Err::<CronJob<J>, BuildError>(BuildError::InvalidCronExpression) <==> !cron_accepts(
                self.expr_of(),
            ),
            r == Err::<CronJob<J>, BuildError>(BuildError::InvalidTimeout) <==> (cron_accepts(
                self.expr_of(),
            ) && parse_i64_spec(self.timeout_text_of()) is None),
            r matches Ok(j) ==> j == self.built(j.id, j.name, j.schedule) && j.name@
                == self.name_of() && j.schedule@ == self.expr_of() && uuid_is_v4(j.id),
    {
        let (expr_ok, timeout_ok) = match &self {
            JobBuilder::Global { cron_expr, timeout, .. } => (
                cron_parses(cron_expr.as_str()),
                parse_i64(timeout.as_str()).is_some(),
            ),
            JobBuilder::Method { cron_expr, timeout, .. } => (
                cron_parses(cron_expr.as_str()),
                parse_i64(timeout.as_str()).is_some(),
            ),
            JobBuilder::Function { cron_expr, timeout, .. } => (
                cron_parses(cron_expr.as_str()),
                parse_i64(timeout.as_str()).is_some(),
            ),
            JobBuilder::CLI { cron_expr, timeout, .. } => (
                cron_parses(cron_expr.as_str()),
                parse_i64(timeout.as_str()).is_some(),
            ),
        };
        if !expr_ok {
            Err(BuildError::InvalidCronExpression)
        } else if !timeout_ok {
            Err(BuildError::InvalidTimeout)
        } else {
            Ok(self.build())
        }
    }
}

} // verus!
