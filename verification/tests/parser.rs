use job_scheduler::parse::parse_cron;

fn set_values(table: &[bool]) -> Vec<usize> {
    table.iter().enumerate().filter(|(_, b)| **b).map(|(v, _)| v).collect()
}

#[test]
fn parses_literal_fields() {
    let e = parse_cron("0 30 8 15 6 3").expect("valid expression");
    assert_eq!(set_values(&e.seconds), vec![0]);
    assert_eq!(set_values(&e.minutes), vec![30]);
    assert_eq!(set_values(&e.hours), vec![8]);
    assert_eq!(set_values(&e.days_of_month), vec![15]);
    assert_eq!(set_values(&e.months), vec![6]);
    assert_eq!(set_values(&e.days_of_week), vec![3]);
}

#[test]
fn parses_stars_over_full_ranges() {
    let e = parse_cron("* * * * * *").expect("valid expression");
    assert_eq!(set_values(&e.seconds), (0..60).collect::<Vec<_>>());
    assert_eq!(set_values(&e.minutes), (0..60).collect::<Vec<_>>());
    assert_eq!(set_values(&e.hours), (0..24).collect::<Vec<_>>());
    assert_eq!(set_values(&e.days_of_month), (1..32).collect::<Vec<_>>());
    assert_eq!(set_values(&e.months), (1..13).collect::<Vec<_>>());
    assert_eq!(set_values(&e.days_of_week), (0..7).collect::<Vec<_>>());
}

#[test]
fn parses_lists_and_ranges() {
    let e = parse_cron("0,30 10-12 8 1,15-17,31 12 0-6").expect("valid expression");
    assert_eq!(set_values(&e.seconds), vec![0, 30]);
    assert_eq!(set_values(&e.minutes), vec![10, 11, 12]);
    assert_eq!(set_values(&e.hours), vec![8]);
    assert_eq!(set_values(&e.days_of_month), vec![1, 15, 16, 17, 31]);
    assert_eq!(set_values(&e.months), vec![12]);
    assert_eq!(set_values(&e.days_of_week), (0..7).collect::<Vec<_>>());
}

#[test]
fn rejects_wrong_field_counts() {
    assert!(parse_cron("").is_none());
    assert!(parse_cron("* * * * *").is_none());
    assert!(parse_cron("* * * * * * *").is_none());
    assert!(parse_cron("0 0 8 * *  *").is_none());
}

#[test]
fn rejects_out_of_range_values() {
    assert!(parse_cron("60 * * * * *").is_none());
    assert!(parse_cron("* 60 * * * *").is_none());
    assert!(parse_cron("* * 24 * * *").is_none());
    assert!(parse_cron("* * * 0 * *").is_none());
    assert!(parse_cron("* * * 32 * *").is_none());
    assert!(parse_cron("* * * * 0 *").is_none());
    assert!(parse_cron("* * * * 13 *").is_none());
    assert!(parse_cron("* * * * * 7").is_none());
}

#[test]
fn rejects_malformed_fields() {
    assert!(parse_cron("a * * * * *").is_none());
    assert!(parse_cron("1- * * * * *").is_none());
    assert!(parse_cron("-1 * * * * *").is_none());
    assert!(parse_cron("5-3 * * * * *").is_none());
    assert!(parse_cron("1,,2 * * * * *").is_none());
    assert!(parse_cron("007 * * * * *").is_none());
    assert!(parse_cron("** * * * * *").is_none());
}
