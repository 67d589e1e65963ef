use job_scheduler::civil::civil_of;
use job_scheduler::eval::next_fire_within;
use job_scheduler::eval::EvalError;
use job_scheduler::parse::is_every_instant;
use job_scheduler::parse::parse_cron;
use job_scheduler::MAX_HORIZON_SECS;

// 2024-01-01T00:00:00Z, which is 2024-01-01T08:00:00+08:00.
const JAN1_2024_MIDNIGHT_UTC: i64 = 1704067200;

#[test]
fn civil_fields_of_known_instant() {
    let c = civil_of(JAN1_2024_MIDNIGHT_UTC);
    assert_eq!(c.year, 2024);
    assert_eq!(c.month, 1);
    assert_eq!(c.day, 1);
    assert_eq!(c.hour, 0);
    assert_eq!(c.minute, 0);
    assert_eq!(c.second, 0);
    // 2024-01-01 was a Monday; 0 means Sunday.
    assert_eq!(c.weekday, 1);
}

#[test]
fn civil_fields_of_leap_day() {
    // 2024-02-29T23:59:59Z
    let t = JAN1_2024_MIDNIGHT_UTC + (31 + 28) * 86400 + 86399;
    let c = civil_of(t);
    assert_eq!(c.year, 2024);
    assert_eq!(c.month, 2);
    assert_eq!(c.day, 29);
    assert_eq!(c.hour, 23);
    assert_eq!(c.minute, 59);
    assert_eq!(c.second, 59);
}

#[test]
fn civil_fields_before_epoch() {
    // One second before the epoch is 1969-12-31T23:59:59.
    let c = civil_of(-1);
    assert_eq!(c.year, 1969);
    assert_eq!(c.month, 12);
    assert_eq!(c.day, 31);
    assert_eq!(c.hour, 23);
    assert_eq!(c.minute, 59);
    assert_eq!(c.second, 59);
    // 1969-12-31 was a Wednesday.
    assert_eq!(c.weekday, 3);
}

#[test]
fn daily_8am_shanghai_just_before() {
    let expr = parse_cron("0 0 8 * * *").expect("valid expression");
    // 2024-01-01T07:59:59+08:00
    let reference = JAN1_2024_MIDNIGHT_UTC - 1;
    let fire = next_fire_within(&expr, "Asia/Shanghai", reference, MAX_HORIZON_SECS);
    // 2024-01-01T08:00:00+08:00
    assert_eq!(fire, Ok(JAN1_2024_MIDNIGHT_UTC));
}

#[test]
fn daily_8am_shanghai_exactly_at_fire_time() {
    let expr = parse_cron("0 0 8 * * *").expect("valid expression");
    // 2024-01-01T08:00:00+08:00 exactly: the result must be strictly after,
    // so it is 2024-01-02T08:00:00+08:00.
    let fire = next_fire_within(&expr, "Asia/Shanghai", JAN1_2024_MIDNIGHT_UTC, MAX_HORIZON_SECS);
    assert_eq!(fire, Ok(JAN1_2024_MIDNIGHT_UTC + 86400));
}

#[test]
fn every_second_advances_by_exactly_one_second() {
    let expr = parse_cron("* * * * * *").expect("valid expression");
    assert!(is_every_instant(&expr));
    let mut reference = JAN1_2024_MIDNIGHT_UTC;
    for step in 1..6i64 {
        let fire = next_fire_within(&expr, "Asia/Shanghai", reference, MAX_HORIZON_SECS)
            .expect("every-second always fires");
        assert_eq!(fire, JAN1_2024_MIDNIGHT_UTC + step);
        reference = fire;
    }
}

#[test]
fn spring_forward_gap_fires_right_after_the_gap() {
    // In America/New_York, 2024-03-10T02:30 does not exist: clocks jump
    // from 02:00 EST straight to 03:00 EDT. A daily 02:30 schedule fires
    // at the first valid instant after the gap, 03:00:00 EDT.
    let expr = parse_cron("0 30 2 * * *").expect("valid expression");
    // 2024-03-10T00:00:00-05:00 == 2024-03-10T05:00:00Z
    let reference = 1710046800;
    let fire = next_fire_within(&expr, "America/New_York", reference, 172800);
    // 2024-03-10T03:00:00-04:00 == 2024-03-10T07:00:00Z
    assert_eq!(fire, Ok(1710054000));
}

#[test]
fn spring_forward_day_keeps_times_outside_the_gap() {
    // On the same day, a schedule outside the gap fires at its nominal
    // local time: 03:30:00 EDT.
    let expr = parse_cron("0 30 3 * * *").expect("valid expression");
    let reference = 1710046800;
    let fire = next_fire_within(&expr, "America/New_York", reference, 172800);
    // 2024-03-10T03:30:00-04:00 == 2024-03-10T07:30:00Z
    assert_eq!(fire, Ok(1710055800));
}

#[test]
fn fall_back_resolves_to_first_occurrence() {
    // In America/New_York, 2024-11-03T01:30 occurs twice: 05:30Z (EDT) and
    // 06:30Z (EST). The evaluator resolves to the first occurrence.
    let expr = parse_cron("0 30 1 * * *").expect("valid expression");
    // 2024-11-03T00:00:00-04:00 == 2024-11-03T04:00:00Z
    let reference = 1730606400;
    let fire = next_fire_within(&expr, "America/New_York", reference, 86400);
    assert_eq!(fire, Ok(1730611800));
}

#[test]
fn weekday_field_selects_mondays() {
    // 2024-01-01 was a Monday; day-of-week 1 at noon under UTC.
    let expr = parse_cron("0 0 12 * * 1").expect("valid expression");
    let fire = next_fire_within(&expr, "UTC", JAN1_2024_MIDNIGHT_UTC, MAX_HORIZON_SECS);
    assert_eq!(fire, Ok(JAN1_2024_MIDNIGHT_UTC + 12 * 3600));
}

#[test]
fn unknown_timezone_is_rejected() {
    let expr = parse_cron("0 0 8 * * *").expect("valid expression");
    let fire = next_fire_within(&expr, "Nowhere/Special", JAN1_2024_MIDNIGHT_UTC, 3600);
    assert_eq!(fire, Err(EvalError::InvalidTimezone));
}

#[test]
fn unsatisfiable_schedule_exhausts_horizon() {
    // February the 30th never exists; within a one-hour horizon nothing at
    // all can fire for a schedule pinned to seconds 59 of February 30th.
    let expr = parse_cron("59 59 23 30 2 *").expect("valid expression");
    let fire = next_fire_within(&expr, "UTC", JAN1_2024_MIDNIGHT_UTC, 3600);
    assert_eq!(fire, Err(EvalError::NoUpcomingFire));
}
