//! CronFrame: cron jobs defined on functions and on the methods of objects,
//! run by a scheduler that honours each job's daily timeout.
//!
//! This crate holds the framework's logic: cron expressions and their
//! timeouts, the jobs and their state, the scheduler's decisions, the
//! configuration, and what the web pages and the command-line tool compute.
pub mod text;
pub mod ids;
pub mod schedule;
pub mod escape;
pub mod cronjob;
pub mod cronframe_expr;
pub mod config;
pub mod job_builder;
pub mod cronframe;
pub mod logger;
pub mod cli;
pub mod laws;
pub mod utils;

pub use config::{ConfigData, ConfigDataToml, LoggerConfig, LoggerConfigToml, SchedulerConfig,
    SchedulerConfigToml, ServerConfig, ServerConfigToml};
pub use cronframe::{CFError, CronFrame, SchedulerMessage, StepDecision};
pub use cronframe_expr::CronFrameExpr;
pub use cronjob::{CronFilter, CronJob, CronJobType, JobStatus, Upcoming};
pub use job_builder::{BuildError, JobBuilder};
