use cronframe::schedule::valid_instant_ms;
use cronframe::{BuildError, CronFilter, CronJob, CronJobType, JobBuilder, JobStatus};

// 2023-11-14T22:13:20Z
const NOW: i64 = 1_700_000_000_000;
const DAY: i64 = 86_400_000;

fn job(expr: &str, timeout: &str) -> CronJob<u8> {
    JobBuilder::global_job("my_job", 7u8, expr, timeout).build()
}

#[test]
fn kinds_and_names() {
    let g: CronJobType<u8> = CronJobType::Global { job: 1 };
    let f: CronJobType<u8> = CronJobType::Function { job: 1 };
    let m: CronJobType<u8> = CronJobType::Method { job: 1 };
    let c: CronJobType<u8> = CronJobType::CLI { job_name: "backup".to_string() };
    assert_eq!(g.job_type(), "Global");
    assert_eq!(f.job_type(), "Function");
    assert_eq!(m.job_type(), "Method");
    assert_eq!(c.job_type(), "CLI");
    assert_eq!(g.type_to_filter(), CronFilter::Global);
    assert_eq!(f.type_to_filter(), CronFilter::Function);
    assert_eq!(m.type_to_filter(), CronFilter::Method);
    assert_eq!(c.type_to_filter(), CronFilter::CLI);
}

#[test]
fn build_reads_the_description() {
    let j = job("0/5 * * * * * *", "15000");
    assert_eq!(j.name, "my_job");
    assert_eq!(j.schedule(), "0/5 * * * * * *");
    assert_eq!(j.timeout, Some(15000));
    assert!(matches!(j.job, CronJobType::Global { job: 7 }));
    assert!(!j.suspended && !j.failed && !j.timeout_notified);
    assert_eq!(j.start_time, None);
    assert_eq!(j.run_id(), "None");
    assert_eq!(job("* * * * * * *", "0").timeout, None);
    assert_eq!(job("* * * * * * *", "-5").timeout, None);
    let cli: CronJob<u8> = JobBuilder::cli_job("backup", "0 0 * * * * *", "0").build();
    assert!(matches!(cli.job, CronJobType::CLI { ref job_name } if job_name == "backup"));
}

#[test]
fn build_errors() {
    let r = JobBuilder::global_job("bad", 0u8, "not a cron", "0").try_build();
    assert_eq!(r.err(), Some(BuildError::InvalidCronExpression));
    let r = JobBuilder::global_job("bad", 0u8, "* * * * * * *", "soon").try_build();
    assert_eq!(r.err(), Some(BuildError::InvalidTimeout));
    // the expression is checked first
    let r = JobBuilder::function_job("bad", 0u8, "nope", "soon").try_build();
    assert_eq!(r.err(), Some(BuildError::InvalidCronExpression));
    let r = JobBuilder::method_job("ok", 0u8, "0 * * * * *".to_string(), "10".to_string()).try_build();
    assert!(r.is_ok());
}

#[test]
fn schedule_due_within_a_second() {
    let j = job("0 * * * * * *", "0");
    // next firing is 22:14:00
    assert_eq!(j.upcoming_utc(NOW), Some(1_700_000_040_000));
    assert!(!j.check_schedule(NOW));
    assert!(j.check_schedule(1_700_000_039_500));
    assert!(j.check_schedule(1_700_000_039_000));
    assert!(!j.check_schedule(1_700_000_038_999));
    // at the firing itself, the next one is a minute later
    assert_eq!(j.upcoming_utc(1_700_000_040_000), Some(1_700_000_100_000));
}

#[test]
fn timeouts() {
    let mut j = job("* * * * * * *", "0");
    assert!(!j.check_timeout(NOW));
    j.set_timeout(1000);
    assert_eq!(j.timeout, Some(1000));
    assert!(!j.check_timeout(NOW)); // never started
    j.start_time = Some(NOW);
    assert!(!j.check_timeout(NOW + 999));
    assert!(j.check_timeout(NOW + 1000));
    assert_eq!(j.status(NOW + 1000), "Timed-Out");
    j.set_timeout(0);
    assert_eq!(j.timeout, None);
    assert!(!j.check_timeout(NOW + DAY * 10));
}

#[test]
fn daily_reset() {
    let mut j = job("* * * * * * *", "1000");
    j.start_time = Some(NOW);
    j.reset_timeout(NOW + 1000 + DAY - 1);
    assert_eq!(j.start_time, Some(NOW));
    assert!(j.check_timeout(NOW + 1000 + DAY - 1));
    j.reset_timeout(NOW + 1000 + DAY);
    assert_eq!(j.start_time, None);
    assert!(!j.check_timeout(NOW + 1000 + DAY));
}

#[test]
fn status_precedence() {
    let mut j = job("* * * * * * *", "1000");
    assert_eq!(j.status(NOW), "Awaiting Schedule");
    j.run_id = Some(1);
    assert_eq!(j.status(NOW), "Running");
    assert_eq!(j.status_kind(NOW), JobStatus::Running);
    j.start_time = Some(NOW - 5000);
    assert_eq!(j.status(NOW), "Timed-Out");
    j.suspended = true;
    assert_eq!(j.status(NOW), "Suspended");
}

#[test]
fn set_schedule_reads_escaped_expressions() {
    let mut j = job("* * * * * * *", "0");
    assert!(j.set_schedule("0slh5%20*%20*%20*%20*%20*%20*"));
    assert_eq!(j.schedule(), "0/5 * * * * * *");
    assert!(!j.set_schedule("bogus"));
    assert_eq!(j.schedule(), "0/5 * * * * * *");
}

#[test]
fn timeout_text() {
    let mut j = job("* * * * * * *", "0");
    assert_eq!(j.timeout_to_string(), "None");
    j.set_timeout(15500);
    assert_eq!(j.timeout_to_string(), "15 s \n 15500 ms");
    j.timeout = Some(-2500);
    assert_eq!(j.timeout_to_string(), "-2 s \n -2500 ms");
    assert_eq!(j.type_to_string(), "Global");
}

#[test]
fn try_schedule_starts_a_run() {
    let mut j = job("0 * * * * * *", "0");
    assert_eq!(j.try_schedule(NOW), None);
    assert_eq!(j.run_id, None);
    let run = j.try_schedule(1_700_000_039_500).expect("due");
    assert_eq!(j.run_id, Some(run));
    assert_eq!(j.start_time, Some(1_700_000_039_500));
    assert_eq!(j.run_id(), uuid::Uuid::from_u128(run).to_string());
    // the timeout window stays where it opened
    j.try_schedule(1_700_000_099_500).expect("due");
    assert_eq!(j.start_time, Some(1_700_000_039_500));
}

#[test]
fn uuid_text_form() {
    let mut j = job("* * * * * * *", "0");
    // a built job carries a version-4 identifier
    assert_eq!((j.id >> 76) & 0xf, 4);
    assert_eq!((j.id >> 62) & 0x3, 2);
    assert_eq!(j.id_string().chars().nth(14), Some('4'));
    assert_eq!(j.id_string().len(), 36);
    j.id = 0x67e5504410b1426f9247bb680e5fe0c8;
    assert_eq!(j.id_string(), "67e55044-10b1-426f-9247-bb680e5fe0c8");
    j.id = 0;
    assert_eq!(j.id_string(), "00000000-0000-0000-0000-000000000000");
    j.run_id = Some(0x67e5504410b1426f9247bb680e5fe0c8);
    assert_eq!(j.run_id(), "67e55044-10b1-426f-9247-bb680e5fe0c8");
}

#[test]
fn upcoming_as_the_job_page_shows_it() {
    let mut j = job("0 * * * * * *", "1000");
    assert_eq!(j.upcoming(NOW), cronframe::Upcoming::At { ms: 1_700_000_040_000 });
    j.start_time = Some(NOW);
    assert_eq!(j.upcoming(NOW + 500), cronframe::Upcoming::At { ms: 1_700_000_040_000 });
    assert_eq!(j.upcoming(NOW + 1000), cronframe::Upcoming::BlockedByTimeout);
    // released a day after the timeout expired
    j.reset_timeout(NOW + 1000 + DAY);
    assert_eq!(j.upcoming(NOW + 1000 + DAY), cronframe::Upcoming::At { ms: NOW + DAY + 40_000 });
    let late = job("0 0 0 1 1 * 1980", "0");
    assert_eq!(late.upcoming(NOW), cronframe::Upcoming::NoFiring);
}

#[test]
fn clock_readings_the_cron_search_accepts() {
    assert!(valid_instant_ms(NOW));
    assert!(valid_instant_ms(-NOW));
    assert!(valid_instant_ms(i64::MIN));
    assert!(valid_instant_ms(i64::MAX));
    assert!(valid_instant_ms(8_210_266_876_798_999));
    assert!(!valid_instant_ms(8_210_266_876_799_000));
    assert!(!valid_instant_ms(8_210_266_876_799_999));
    assert!(valid_instant_ms(8_210_266_876_800_000));
    // before 1970 the schedule's first year is still ahead; past chrono's range nothing follows
    let j = job("0 * * * * * *", "0");
    assert!(j.upcoming_utc(-NOW).expect("a firing from 1970 on") >= 0);
    assert_eq!(j.upcoming_utc(i64::MAX), None);
    assert_eq!(j.upcoming_utc(i64::MIN), None);
    assert!(!j.check_schedule(i64::MIN));
}
