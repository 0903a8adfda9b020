//! Laws of the scheduler and of the daily timeout.
use vstd::prelude::*;
use crate::cronframe::{
    job_matches, matching_id, toggled, ids_distinct, keep_unlisted, list_entry, pool_has_id, pool_insert, status_outcome, step_outcome,
    SchedulerMessage, StepDecision,
};
use crate::cronjob::{filter_admits, timeout_text, CronFilter, CronJob, JobStatus};
use crate::ids::uuid_text;
use crate::schedule::cron_next_after;
use crate::text::int_decimal;

verus! {

/// A timeout of 0 (or less) deactivates the timeout: the job then never
/// times out, whatever the time.
pub proof fn lemma_nonpositive_timeout_disables<J>(j: CronJob<J>, value: i64, now: int)
    requires
        value <= 0,
    ensures
        !(CronJob { timeout: CronJob::<J>::timeout_of(value), ..j }).timed_out(now),
{
}

/// The timed-out state resets every day: once a day has passed since the
/// timeout expired, the daily check releases the job, which is then no
/// longer timed out.
pub proof fn lemma_daily_reset_releases<J>(j: CronJob<J>, now: int)
    requires
        j.reset_due(now),
    ensures
        j.timed_out(now),
        !j.after_reset(now).timed_out(now),
{
}

/// Before a day has passed since the timeout expired, the daily check
/// leaves the job as it is.
pub proof fn lemma_reset_waits_a_day<J>(j: CronJob<J>, now: int)
    requires
        !j.reset_due(now),
    ensures
        j.after_reset(now) == j,
{
}

/// A job whose run is under way is never started again by the scheduler:
/// its pass only reads the run's status.
pub proof fn lemma_no_double_launch<J>(o: CronJob<J>, now: i64, dropped: bool, run: u128)
    ensures
        step_outcome(o, now, true, dropped, run).0 == StepDecision::PollStatus,
{
}

/// A job whose cron object asked for it to be dropped is never started
/// again: its pass only reads the status that ends it.
pub proof fn lemma_dropped_job_not_launched<J>(o: CronJob<J>, now: i64, has_handle: bool, run: u128)
    ensures
        step_outcome(o, now, has_handle, true, run).0 == StepDecision::PollStatus,
        step_outcome(o, now, has_handle, true, run).1 == o.after_reset(now as int),
{
}

/// The scheduler starts a job only when no run of it is under way, it is
/// not being dropped, it is not suspended, its timeout (after the daily
/// check) has not expired, and its schedule is due; the run then gets the
/// given identifier.
pub proof fn lemma_launch_conditions<J>(
    o: CronJob<J>,
    now: i64,
    has_handle: bool,
    dropped: bool,
    run: u128,
)
    requires
        step_outcome(o, now, has_handle, dropped, run).0 is Launch,
    ensures
        !has_handle,
        !dropped,
        !o.suspended,
        !o.after_reset(now as int).timed_out(now as int),
        o.due(now),
        step_outcome(o, now, has_handle, dropped, run).1.run_id == Some(run),
{
}

/// The scheduler's pass changes nothing of a job but its run state, its
/// timeout window and whether its timeout has been reported.
pub proof fn lemma_step_keeps_job<J>(
    o: CronJob<J>,
    now: i64,
    has_handle: bool,
    dropped: bool,
    run: u128,
)
    ensures
        ({
            let j = step_outcome(o, now, has_handle, dropped, run).1;
            &&& j.id == o.id
            &&& j.name == o.name
            &&& j.job == o.job
            &&& j.schedule == o.schedule
            &&& j.timeout == o.timeout
            &&& j.suspended == o.suspended
            &&& j.failed == o.failed
        }),
{
}

/// A run that reported its end is over; an aborted run marks the job as
/// failed, a completed one leaves that mark as it was.
pub proof fn lemma_run_end<J>(o: CronJob<J>)
    ensures
        status_outcome(o, Some(SchedulerMessage::JobComplete)).run_id is None,
        status_outcome(o, Some(SchedulerMessage::JobComplete)).failed == o.failed,
        status_outcome(o, Some(SchedulerMessage::JobAbort)).run_id is None,
        status_outcome(o, Some(SchedulerMessage::JobAbort)).failed,
        status_outcome(o, None) == o,
{
}

/// The home page lists every job that the filter admits on exactly one of
/// its lists (active, timed out, suspended), and no other job.
pub proof fn lemma_each_job_on_one_list<J>(j: CronJob<J>, filter: CronFilter, now: int)
    ensures
        filter_admits(filter, j.job.kind()) ==> {
            let a = list_entry::<J>(filter, now, JobStatus::Running)(j) is Some;
            let t = list_entry::<J>(filter, now, JobStatus::TimedOut)(j) is Some;
            let s = list_entry::<J>(filter, now, JobStatus::Suspended)(j) is Some;
            (a && !t && !s) || (!a && t && !s) || (!a && !t && s)
        },
        !filter_admits(filter, j.job.kind()) ==> {
            &&& list_entry::<J>(filter, now, JobStatus::Running)(j) is None
            &&& list_entry::<J>(filter, now, JobStatus::TimedOut)(j) is None
            &&& list_entry::<J>(filter, now, JobStatus::Suspended)(j) is None
        },
{
}

/// Adding a job puts it in the pool under its identifier, replacing the job
/// that had it, and keeps identifiers distinct.
pub proof fn lemma_add_job_holds_job<J>(pool: Seq<CronJob<J>>, job: CronJob<J>)
    requires
        ids_distinct(pool),
    ensures
        ids_distinct(pool_insert(pool, job)),
        pool_insert(pool, job).contains(job),
        pool_has_id(pool, job.id) ==> pool_insert(pool, job).len() == pool.len(),
        !pool_has_id(pool, job.id) ==> pool_insert(pool, job).len() == pool.len() + 1,
        forall|k: int|
            0 <= k < pool.len() && pool[k].id != job.id ==> pool_insert(pool, job).contains(
                #[trigger] pool[k],
            ),
{
    let r = pool_insert(pool, job);
    if pool_has_id(pool, job.id) {
        let c = choose|i: int| 0 <= i < pool.len() && (#[trigger] pool[i]).id == job.id;
        assert(r[c] == job);
        assert forall|k: int| 0 <= k < pool.len() && pool[k].id != job.id implies r.contains(
            #[trigger] pool[k],
        ) by {
            assert(k != c);
            assert(r[k] == pool[k]);
        }
        assert forall|a: int, b: int|
            0 <= a < r.len() && 0 <= b < r.len() && a != b implies #[trigger] r[a].id
            != #[trigger] r[b].id by {
            if a != c {
                assert(r[a] == pool[a]);
            }
            if b != c {
                assert(r[b] == pool[b]);
            }
        }
    } else {
        assert(r[pool.len() as int] == job);
        assert forall|k: int| 0 <= k < pool.len() && pool[k].id != job.id implies r.contains(
            #[trigger] pool[k],
        ) by {
            assert(r[k] == pool[k]);
        }
        assert forall|a: int, b: int|
            0 <= a < r.len() && 0 <= b < r.len() && a != b implies #[trigger] r[a].id
            != #[trigger] r[b].id by {
            if a < pool.len() {
                assert(r[a] == pool[a]);
            }
            if b < pool.len() {
                assert(r[b] == pool[b]);
            }
        }
    }
}

/// Dropping jobs removes exactly the listed ones: none of them stays, and
/// every other job stays.
pub proof fn lemma_drop_removes_listed<J>(pool: Seq<CronJob<J>>, ids: Seq<u128>)
    ensures
        forall|k: int|
            0 <= k < pool.filter_map(keep_unlisted::<J>(ids)).len() ==> !ids.contains(
                (#[trigger] pool.filter_map(keep_unlisted::<J>(ids))[k]).id,
            ),
        forall|k: int|
            0 <= k < pool.len() && !ids.contains(pool[k].id) ==> pool.filter_map(
                keep_unlisted::<J>(ids),
            ).contains(#[trigger] pool[k]),
    decreases pool.len(),
{
    let f = keep_unlisted::<J>(ids);
    if pool.len() > 0 {
        let init = pool.drop_last();
        lemma_drop_removes_listed(init, ids);
        let r = init.filter_map(f);
        let fm = pool.filter_map(f);
        if ids.contains(pool.last().id) {
            assert(fm == r);
            assert forall|k: int| 0 <= k < pool.len() && !ids.contains(pool[k].id) implies fm.contains(
                #[trigger] pool[k],
            ) by {
                assert(k < pool.len() - 1);
                assert(pool[k] == init[k]);
            }
        } else {
            assert(fm == r + seq![pool.last()]);
            assert forall|k: int| 0 <= k < fm.len() implies !ids.contains((#[trigger] fm[k]).id) by {
                if k < r.len() {
                    assert(fm[k] == r[k]);
                }
            }
            assert forall|k: int| 0 <= k < pool.len() && !ids.contains(pool[k].id) implies fm.contains(
                #[trigger] pool[k],
            ) by {
                if k < pool.len() - 1 {
                    assert(pool[k] == init[k]);
                    let m = choose|m: int| 0 <= m < r.len() && r[m] == init[k];
                    assert(fm[m] == r[m]);
                } else {
                    assert(fm[r.len() as int] == pool[k]);
                }
            }
        }
    }
}

/// The timeout window opens at a job's first start and stays where it
/// opened: a launch while the window is open (a start is recorded and a day
/// has not passed since the timeout expired) keeps the recorded start; only
/// a launch with no open window records `now`.
pub proof fn lemma_launch_keeps_window<J>(
    o: CronJob<J>,
    now: i64,
    has_handle: bool,
    dropped: bool,
    run: u128,
)
    requires
        step_outcome(o, now, has_handle, dropped, run).0 is Launch,
    ensures
        ({
            let j = step_outcome(o, now, has_handle, dropped, run).1;
            let open = match (o.timeout, o.start_time) {
                (Some(t), Some(s)) => now < s + t + 86_400_000,
                (None, Some(s)) => true,
                _ => false,
            };
            &&& open ==> j.start_time == o.start_time
            &&& !open ==> j.start_time == Some(now)
        }),
{
}

/// A job whose timeout window expired less than a day ago is held back, not
/// launched, however often its schedule fires: the pass reports the timeout
/// (as a first notice only while it was not reported) and marks it reported.
pub proof fn lemma_expired_window_holds_back<J>(
    o: CronJob<J>,
    now: i64,
    dropped: bool,
    run: u128,
    s: i64,
    t: i64,
)
    requires
        !o.suspended,
        !dropped,
        o.start_time == Some(s),
        o.timeout == Some(t),
        s + t <= now < s + t + 86_400_000,
    ensures
        step_outcome(o, now, false, dropped, run).0 == (StepDecision::TimedOut {
            first_notice: !o.timeout_notified,
        }),
        step_outcome(o, now, false, dropped, run).1 == (CronJob { timeout_notified: true, ..o }),
{
}

/// Recording the end of a run changes nothing of the job but its run (which
/// is over) and, on an abort, the failure mark: suspension, schedule,
/// timeout, timeout window and timeout report stay as they were.
pub proof fn lemma_run_end_changes_only_run<J>(o: CronJob<J>, msg: Option<SchedulerMessage>)
    ensures
        ({
            let j = status_outcome(o, msg);
            &&& j.id == o.id
            &&& j.name == o.name
            &&& j.job == o.job
            &&& j.suspended == o.suspended
            &&& j.schedule == o.schedule
            &&& j.timeout == o.timeout
            &&& j.start_time == o.start_time
            &&& j.timeout_notified == o.timeout_notified
            &&& (msg matches Some(m) && m != SchedulerMessage::JobDrop) ==> j.run_id is None
            &&& (msg is None || msg == Some(SchedulerMessage::JobDrop)) ==> j.run_id == o.run_id
            &&& j.failed == (o.failed || msg == Some(SchedulerMessage::JobAbort))
        }),
{
}

/// Every entry of the web lists names a job by its own name and the text of
/// its own identifier, whatever its state; a job admitted by the filter is
/// on the suspended list when suspended, on the timed-out list when its
/// timeout window has expired, and otherwise on the active list.
pub proof fn lemma_list_entries<J>(j: CronJob<J>, filter: CronFilter, now: int, list: JobStatus)
    ensures
        list_entry::<J>(filter, now, list)(j) matches Some(e) ==> e == (j.name@, uuid_text(j.id)),
        ({
            let admitted = filter == CronFilter::NoFilter || filter == j.job.kind();
            let expired = match (j.timeout, j.start_time) {
                (Some(t), Some(s)) => now >= s + t,
                _ => false,
            };
            let on = list_entry::<J>(filter, now, list)(j) is Some;
            &&& list == JobStatus::Suspended ==> (on <==> admitted && j.suspended)
            &&& list == JobStatus::TimedOut ==> (on <==> admitted && !j.suspended && expired)
            &&& (list == JobStatus::Running || list == JobStatus::AwaitingSchedule) ==> (on
                <==> admitted && !j.suspended && !expired)
        }),
{
}

/// A job is due exactly when the next firing of its schedule after `now`
/// exists and is at most a second away; its run history plays no part, so
/// two jobs with the same schedule are due at the same times.
pub proof fn lemma_due_is_the_schedule<J>(a: CronJob<J>, b: CronJob<J>, now: i64)
    ensures
        a.due(now) == (cron_next_after(a.schedule@, now) matches Some(n) && n - now <= 1000),
        a.schedule@ == b.schedule@ ==> a.due(now) == b.due(now),
{
}

/// The timeout text shows the whole seconds of the timeout (truncated
/// toward zero) and then its milliseconds.
pub proof fn lemma_timeout_text_seconds(ms: i64, q: int)
    requires
        ms >= 0 ==> q * 1000 <= ms < q * 1000 + 1000,
        ms < 0 ==> q * 1000 - 1000 < ms <= q * 1000,
    ensures
        timeout_text(Some(ms)) == int_decimal(q) + " s \n "@ + int_decimal(ms as int) + " ms"@,
{
    if ms >= 0 {
        assert(ms / 1000 == q) by (nonlinear_arith)
            requires
                q * 1000 <= ms < q * 1000 + 1000,
        ;
    } else {
        assert((-ms) / 1000 == -q) by (nonlinear_arith)
            requires
                q * 1000 - 1000 < ms <= q * 1000,
        ;
    }
}

/// The web pages find a job by its own name and the text of its own
/// identifier; toggling flips its suspension, and a timeout update reports
/// its identifier.
pub proof fn lemma_web_lookup<J>(j: CronJob<J>, name: Seq<char>, id: Seq<char>)
    ensures
        job_matches(j, name, id) == (j.name@ == name && uuid_text(j.id) == id),
        toggled::<J>(name, id)(j) == if j.name@ == name && uuid_text(j.id) == id {
            Some(!j.suspended)
        } else {
            None
        },
        matching_id::<J>(name, id)(j) == if j.name@ == name && uuid_text(j.id) == id {
            Some(j.id)
        } else {
            None
        },
{
}

/// The daily check forgets the start of the timeout window exactly when a
/// day has passed since the timeout expired, and changes nothing else; a
/// positive timeout value is kept as it is.
pub proof fn lemma_daily_check_and_timeout_value<J>(j: CronJob<J>, now: int, value: i64)
    ensures
        j.after_reset(now) == (CronJob {
            start_time: match (j.timeout, j.start_time) {
                (Some(t), Some(s)) => if now >= s + t + 86_400_000 {
                    None
                } else {
                    j.start_time
                },
                _ => j.start_time,
            },
            ..j
        }),
        value > 0 ==> CronJob::<J>::timeout_of(value) == Some(value),
        value <= 0 ==> CronJob::<J>::timeout_of(value) is None,
{
}

} // verus!
