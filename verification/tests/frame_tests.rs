use cronframe::{
    CronFilter, CronFrame, CronJob, CronJobType, ConfigData, JobBuilder, SchedulerMessage,
    StepDecision,
};

const NOW: i64 = 1_700_000_000_000;
const DUE: i64 = 1_700_000_039_500; // half a second before 22:14:00

fn frame() -> CronFrame<u8> {
    CronFrame::with_config(ConfigData::default())
}

fn global(name: &str, expr: &str, timeout: &str) -> CronJob<u8> {
    JobBuilder::global_job(name, 1u8, expr, timeout).build()
}

#[test]
fn new_frame_is_idle() {
    let f = frame();
    assert!(f.jobs().is_empty());
    assert!(!f.is_running());
    assert!(!f.is_quit());
    assert!(!f.scheduler_active());
    assert_eq!(f.job_filter(), CronFilter::NoFilter);
}

#[test]
fn add_job_replaces_by_id() {
    let mut f = frame();
    let a = global("a", "0 * * * * * *", "0");
    let mut b = global("b", "0 * * * * * *", "0");
    let a_id = a.id;
    f.add_job(a);
    f.add_job(b.clone());
    assert_eq!(f.jobs().len(), 2);
    b.id = a_id;
    b.name = "a2".to_string();
    f.add_job(b);
    assert_eq!(f.jobs().len(), 2);
    assert_eq!(f.jobs()[0].name, "a2");
    assert_eq!(f.index_of(a_id), Some(0));
}

#[test]
fn new_job_and_errors() {
    let mut f = frame();
    let id = f.new_job("hello_job", 3u8, "* * * * * * *", "0");
    assert_eq!(f.jobs()[0].id, id);
    assert_eq!(f.jobs()[0].name, "hello_job");
    assert_eq!(f.try_new_job("bad", 3u8, "nope", "0"), Err(cronframe::BuildError::InvalidCronExpression));
    assert_eq!(f.try_new_job("bad", 3u8, "* * * * * * *", "x"), Err(cronframe::BuildError::InvalidTimeout));
    assert_eq!(f.try_new_job("bad", 3u8, "nope", "x"), Err(cronframe::BuildError::InvalidCronExpression));
    assert_eq!(f.jobs().len(), 1);
    assert!(f.try_new_job("ok", 3u8, "0/5 * * * * * *", "100").is_ok());
    assert_eq!(f.jobs().len(), 2);
}

#[test]
fn start_stop_quit() {
    let mut f = frame();
    assert!(f.start_scheduler());
    assert!(f.is_running());
    assert!(!f.start_scheduler()); // already running: nothing to start
    assert!(f.scheduler_active());
    f.stop_scheduler();
    assert!(!f.scheduler_active());
    assert!(f.start_scheduler()); // resumes after a stop
    f.quit();
    assert!(f.is_quit());
    assert!(!f.is_running());
    assert!(f.start_scheduler());
    assert!(!f.is_quit());
}

#[test]
fn a_pass_launches_a_due_job_once() {
    let mut f = frame();
    f.add_job(global("a", "0 * * * * * *", "0"));
    let id = f.jobs()[0].id;
    assert_eq!(f.begin_job_step(0, NOW, false), StepDecision::NotDue);
    let run = match f.begin_job_step(0, DUE, false) {
        StepDecision::Launch { run_id } => run_id,
        other => panic!("expected a launch, got {other:?}"),
    };
    assert_eq!(f.jobs()[0].run_id, Some(run));
    assert_eq!(f.jobs()[0].start_time, Some(DUE));
    f.record_launch(id);
    assert!(f.has_handle(id));
    // while the run is under way, the pass reads its status
    assert_eq!(f.begin_job_step(0, DUE, false), StepDecision::PollStatus);
    f.finish_status(0, None);
    assert!(f.has_handle(id));
    f.finish_status(0, Some(SchedulerMessage::JobComplete));
    assert!(!f.has_handle(id));
    assert_eq!(f.jobs()[0].run_id, None);
    assert!(!f.jobs()[0].failed);
}

#[test]
fn aborted_run_marks_failure() {
    let mut f = frame();
    f.add_job(global("a", "0 * * * * * *", "0"));
    let id = f.jobs()[0].id;
    assert!(matches!(f.begin_job_step(0, DUE, false), StepDecision::Launch { .. }));
    f.record_launch(id);
    f.finish_status(0, Some(SchedulerMessage::JobAbort));
    assert!(f.jobs()[0].failed);
    assert_eq!(f.jobs()[0].run_id, None);
    assert!(!f.has_handle(id));
}

#[test]
fn timed_out_job_is_reported_once_and_not_run() {
    let mut f = frame();
    f.add_job(global("a", "0 * * * * * *", "1000"));
    let id = f.jobs()[0].id;
    assert!(matches!(f.begin_job_step(0, DUE, false), StepDecision::Launch { .. }));
    f.record_launch(id);
    f.finish_status(0, Some(SchedulerMessage::JobComplete));
    let later = DUE + 60_000; // due again, but the timeout has expired
    assert_eq!(f.begin_job_step(0, later, false), StepDecision::TimedOut { first_notice: true });
    assert_eq!(f.begin_job_step(0, later, false), StepDecision::TimedOut { first_notice: false });
    // a day after the expiry, the job is released and runs again
    let next_day = DUE + 1000 + 86_400_000 + 59_000;
    assert!(matches!(f.begin_job_step(0, next_day, false), StepDecision::Launch { .. }));
    assert_eq!(f.jobs()[0].start_time, Some(next_day));
}

#[test]
fn suspended_job_is_not_run() {
    let mut f = frame();
    f.add_job(global("a", "0 * * * * * *", "0"));
    let id_text = f.jobs()[0].id_string();
    assert_eq!(f.toggle_suspension("a", &id_text), vec![true]);
    assert_eq!(f.begin_job_step(0, DUE, false), StepDecision::Suspended);
    assert_eq!(f.toggle_suspension("a", &id_text), vec![false]);
    assert!(matches!(f.begin_job_step(0, DUE, false), StepDecision::Launch { .. }));
    assert_eq!(f.toggle_suspension("other", &id_text), Vec::<bool>::new());
}

#[test]
fn filter_leaves_other_kinds_alone() {
    let mut config = ConfigData::default();
    config.scheduler.job_filter = CronFilter::Method;
    let mut f: CronFrame<u8> = CronFrame::with_config(config);
    f.add_job(global("a", "0 * * * * * *", "0"));
    f.add_job(JobBuilder::method_job("m", 2u8, "0 * * * * * *".to_string(), "0".to_string()).build());
    assert!(!f.admits(0));
    assert!(f.admits(1));
    assert_eq!(f.begin_job_step(0, DUE, false), StepDecision::Filtered);
    assert_eq!(f.jobs()[0].run_id, None);
    assert!(matches!(f.begin_job_step(1, DUE, false), StepDecision::Launch { .. }));
}

#[test]
fn dropped_jobs_leave_the_pool() {
    let mut f = frame();
    f.add_job(global("a", "0 * * * * * *", "0"));
    f.add_job(global("b", "0 * * * * * *", "0"));
    f.add_job(global("c", "0 * * * * * *", "0"));
    let b = f.jobs()[1].id;
    // a job being dropped is not launched; its status is read
    assert_eq!(f.begin_job_step(1, DUE, true), StepDecision::PollStatus);
    f.drop_jobs(&vec![b]);
    let names: Vec<String> = f.jobs().iter().map(|j| j.name.clone()).collect();
    assert_eq!(names, vec!["a".to_string(), "c".to_string()]);
}

#[test]
fn web_updates_find_jobs_by_name_and_id() {
    let mut f = frame();
    f.add_job(global("a", "0 * * * * * *", "0"));
    f.add_job(global("b", "0 * * * * * *", "0"));
    let id_b = f.jobs()[1].id_string();
    assert_eq!(f.find_job("b", &id_b), Some(1));
    assert_eq!(f.find_job("a", &id_b), None);
    assert_eq!(f.update_timeout("b", &id_b, 5000), 1);
    assert_eq!(f.jobs()[1].timeout, Some(5000));
    assert_eq!(f.jobs()[1].start_time, None);
    assert_eq!(f.jobs()[0].timeout, None);
    assert_eq!(f.update_schedule("b", &id_b, "0slh10%20*%20*%20*%20*%20*%20*"), Some(true));
    assert_eq!(f.jobs()[1].schedule, "0/10 * * * * * *");
    assert_eq!(f.update_schedule("b", &id_b, "junk"), Some(false));
    assert_eq!(f.jobs()[1].schedule, "0/10 * * * * * *");
    assert_eq!(f.update_schedule("zz", &id_b, "* * * * * * *"), None);
}

#[test]
fn job_lists_by_state() {
    let mut f = frame();
    f.add_job(global("active", "0 * * * * * *", "0"));
    f.add_job(global("late", "0 * * * * * *", "1000"));
    f.add_job(global("paused", "0 * * * * * *", "0"));
    let late = f.jobs()[1].id_string();
    let paused = f.jobs()[2].id_string();
    f.toggle_suspension("paused", &paused);
    assert!(matches!(f.begin_job_step(1, DUE, false), StepDecision::Launch { .. }));
    let lists = f.job_lists(DUE + 5000);
    let names = |v: &Vec<cronframe::cronframe::JobEntry>| v.iter().map(|e| e.name.clone()).collect::<Vec<_>>();
    assert_eq!(names(&lists.active), vec!["active".to_string()]);
    assert_eq!(names(&lists.timed_out), vec!["late".to_string()]);
    assert_eq!(names(&lists.suspended), vec!["paused".to_string()]);
    assert_eq!(lists.timed_out[0].id, late);
    assert!(matches!(f.jobs()[0].job, CronJobType::Global { .. }));
}
