use job_scheduler::jobs::attempts_until_stop;
use job_scheduler::jobs::should_retry;
use job_scheduler::jobs::BugutvCheckinJob;
use job_scheduler::jobs::Job;
use job_scheduler::notify::lifecycle_notifications;
use job_scheduler::notify::Phase;
use job_scheduler::sched::SchedError;
use job_scheduler::sched::SchedState;
use job_scheduler::sched::Scheduler;

// 2024-01-01T00:00:00Z.
const NOW: i64 = 1704067200;

#[test]
fn new_keeps_known_timezone() {
    let s = Scheduler::new("America/New_York");
    assert_eq!(s.timezone, "America/New_York");
    assert_eq!(s.job_count(), 0);
    assert!(!s.is_cancelled());
}

#[test]
fn new_falls_back_on_unknown_timezone() {
    let s = Scheduler::new("Not/AZone");
    assert_eq!(s.timezone, "Asia/Shanghai");
}

#[test]
fn registering_two_distinct_names_succeeds() {
    let mut s = Scheduler::new("Asia/Shanghai");
    assert_eq!(s.register("first", "0 0 8 * * *", NOW), Ok(()));
    assert_eq!(s.register("second", "30 15 20 * * *", NOW), Ok(()));
    assert_eq!(s.job_count(), 2);
}

#[test]
fn registering_a_duplicate_name_is_rejected() {
    let mut s = Scheduler::new("Asia/Shanghai");
    assert_eq!(s.register("job", "0 0 8 * * *", NOW), Ok(()));
    assert_eq!(s.register("job", "0 0 9 * * *", NOW), Err(SchedError::DuplicateName));
    assert_eq!(s.job_count(), 1);
}

#[test]
fn registering_an_invalid_schedule_fails() {
    let mut s = Scheduler::new("Asia/Shanghai");
    assert_eq!(s.register("job", "not a cron", NOW), Err(SchedError::InvalidSchedule));
    assert_eq!(s.job_count(), 0);
}

#[test]
fn registering_under_an_unknown_timezone_fails() {
    let mut s = Scheduler {
        timezone: String::from("Not/AZone"),
        jobs: Vec::new(),
        state: SchedState::Accepting,
        cancelled: false,
    };
    assert_eq!(s.register("job", "* * * * * *", NOW), Err(SchedError::InvalidTimezone));
}

#[test]
fn starting_twice_fails() {
    let mut s = Scheduler::new("Asia/Shanghai");
    assert_eq!(s.start(), Ok(()));
    assert_eq!(s.start(), Err(SchedError::AlreadyStarted));
}

#[test]
fn registering_after_start_fails() {
    let mut s = Scheduler::new("Asia/Shanghai");
    assert_eq!(s.start(), Ok(()));
    assert_eq!(s.register("late", "* * * * * *", NOW), Err(SchedError::AlreadyStarted));
}

#[test]
fn tick_fires_due_jobs_and_reschedules() {
    let mut s = Scheduler::new("Asia/Shanghai");
    assert_eq!(s.register("ticker", "* * * * * *", NOW), Ok(()));
    assert_eq!(s.register("daily", "0 0 8 * * *", NOW), Ok(()));
    assert_eq!(s.start(), Ok(()));
    // The every-second job was registered at NOW, so it is due at NOW + 1;
    // the daily job is not due for another day.
    let evs = s.tick(NOW + 1);
    assert_eq!(evs.len(), 1);
    assert_eq!(evs[0].name, "ticker");
    assert_eq!(evs[0].at, NOW + 1);
    // Rescheduled from NOW + 1: nothing is due again at the same instant.
    let evs = s.tick(NOW + 1);
    assert_eq!(evs.len(), 0);
    // Both due once two seconds pass... the every-second job fires again.
    let evs = s.tick(NOW + 2);
    assert_eq!(evs.len(), 1);
    assert_eq!(evs[0].at, NOW + 2);
}

#[test]
fn tick_before_start_fires_nothing() {
    let mut s = Scheduler::new("Asia/Shanghai");
    assert_eq!(s.register("ticker", "* * * * * *", NOW), Ok(()));
    let evs = s.tick(NOW + 10);
    assert_eq!(evs.len(), 0);
}

#[test]
fn no_dispatch_after_cancellation() {
    let mut s = Scheduler::new("Asia/Shanghai");
    assert_eq!(s.register("ticker", "* * * * * *", NOW), Ok(()));
    assert_eq!(s.start(), Ok(()));
    assert!(s.cancel());
    let evs = s.tick(NOW + 5);
    assert_eq!(evs.len(), 0);
}

#[test]
fn cancellation_transitions_exactly_once() {
    let mut s = Scheduler::new("Asia/Shanghai");
    assert!(!s.is_cancelled());
    assert!(s.cancel());
    assert!(s.is_cancelled());
    assert!(!s.cancel());
    assert!(!s.cancel());
    assert!(s.is_cancelled());
    s.stop();
    assert_eq!(s.state, SchedState::Stopped);
}

#[test]
fn failed_run_notifies_start_then_failure() {
    let outcome: Result<(), String> = Err(String::from("login failed"));
    let ns = lifecycle_notifications("bugutv_checkin", &outcome);
    assert_eq!(ns.len(), 2);
    assert_eq!(ns[0].job_name, "bugutv_checkin");
    assert_eq!(ns[0].phase, Phase::Start);
    assert!(ns[0].detail.is_none());
    assert_eq!(ns[1].job_name, "bugutv_checkin");
    assert_eq!(ns[1].phase, Phase::Failure);
    assert_eq!(ns[1].detail.as_deref(), Some("login failed"));
    let successes = ns.iter().filter(|n| n.phase == Phase::Success).count();
    assert_eq!(successes, 0);
}

#[test]
fn successful_run_notifies_start_then_success() {
    let outcome: Result<(), String> = Ok(());
    let ns = lifecycle_notifications("job", &outcome);
    assert_eq!(ns.len(), 2);
    assert_eq!(ns[0].phase, Phase::Start);
    assert_eq!(ns[1].phase, Phase::Success);
    assert!(ns[1].detail.is_none());
}

#[test]
fn always_failing_job_makes_exactly_three_attempts() {
    let (attempts, succeeded) = attempts_until_stop(&vec![false, false, false]);
    assert_eq!(attempts, 3);
    assert!(!succeeded);
}

#[test]
fn retry_stops_at_first_success() {
    assert_eq!(attempts_until_stop(&vec![true, false, false]), (1, true));
    assert_eq!(attempts_until_stop(&vec![false, true, false]), (2, true));
    assert_eq!(attempts_until_stop(&vec![false, false, true]), (3, true));
}

#[test]
fn retry_rule_bounds_attempts() {
    assert!(should_retry(1, true));
    assert!(should_retry(2, true));
    assert!(!should_retry(3, true));
    assert!(!should_retry(1, false));
}

#[test]
fn checkin_job_exposes_name_and_schedule() {
    let job = BugutvCheckinJob::new(
        String::from("user"),
        String::from("secret"),
        String::from("0 0 8 * * *"),
    );
    assert_eq!(job.name(), "bugutv_checkin");
    assert_eq!(job.cron_expr(), "0 0 8 * * *");
    assert_eq!(job.username, "user");
    assert_eq!(job.password, "secret");
}

#[test]
fn end_to_end_daily_schedule_under_shanghai() {
    let mut s = Scheduler::new("Asia/Shanghai");
    // 2024-01-01T07:59:59+08:00; the derived fire instant is 08:00:00.
    let reference = 1704067199;
    assert_eq!(s.register("daily", "0 0 8 * * *", reference), Ok(()));
    assert_eq!(s.jobs[0].next_fire, Some(1704067200));
    assert_eq!(s.start(), Ok(()));
    // At the fire instant the job dispatches once and is rescheduled to
    // 08:00:00 the next day, strictly after the current instant.
    let evs = s.tick(1704067200);
    assert_eq!(evs.len(), 1);
    assert_eq!(evs[0].name, "daily");
    assert_eq!(evs[0].at, 1704067200);
    assert_eq!(s.jobs[0].next_fire, Some(1704067200 + 86400));
}

#[test]
fn schedule_beyond_the_horizon_registers_dormant() {
    // Christmas morning is far outside the search horizon of a January
    // registration; the job is accepted and stored without a fire instant.
    let mut s = Scheduler::new("Asia/Shanghai");
    assert_eq!(s.register("yearly", "0 0 8 25 12 *", NOW), Ok(()));
    assert_eq!(s.job_count(), 1);
    assert_eq!(s.jobs[0].next_fire, None);
}

#[test]
fn dormant_schedule_resumes_when_a_fire_comes_in_reach() {
    let expr = job_scheduler::parse::parse_cron("0 0 8 * * *").expect("valid expression");
    let mut s = Scheduler {
        timezone: String::from("Asia/Shanghai"),
        jobs: vec![job_scheduler::sched::Registration {
            name: String::from("daily"),
            expr,
            next_fire: None,
        }],
        state: SchedState::Running,
        cancelled: false,
    };
    // A dormant registration fires nothing, but the tick re-evaluates it:
    // the next 08:00:00 Shanghai time is now within the horizon.
    let evs = s.tick(NOW);
    assert_eq!(evs.len(), 0);
    assert_eq!(s.jobs[0].next_fire, Some(NOW + 86400));
}
