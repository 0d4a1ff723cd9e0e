use std::time::{SystemTime, UNIX_EPOCH};

use repo_stats::age::{format_age, format_timestamp_at, format_timestamp_since, seconds_between};

fn now_secs() -> u64 {
    SystemTime::now().duration_since(UNIX_EPOCH).unwrap().as_secs()
}

#[test]
fn weeks_formatting() {
    for i in 2..10 {
        let result = format_timestamp_since(now_secs() - i * 604800);
        assert_eq!(result, format!("Last updated {i} weeks ago"));
    }
}

#[test]
fn weeks_formatting_1() {
    let result = format_timestamp_since(now_secs() - 604800);
    assert_eq!(result, "Last updated 7 days ago");
}

#[test]
fn days_formatting() {
    for i in 2..10 {
        let result = format_timestamp_since(now_secs() - i * 86400);
        assert_eq!(result, format!("Last updated {i} days ago"));
    }
}

#[test]
fn days_formatting_1() {
    let result = format_timestamp_since(now_secs() - 86400);
    assert_eq!(result, "Last updated 24 hours ago");
}

#[test]
fn hours_formatting() {
    for i in 2..43 {
        let result = format_timestamp_since(now_secs() - i * 3600);
        assert_eq!(result, format!("Last updated {i} hours ago"));
    }
}

#[test]
fn hours_formatting_1() {
    let result = format_timestamp_since(now_secs() - 3600);
    assert_eq!(result, "Last updated 1 hours ago");
}

#[test]
fn two_weeks_is_the_first_week_count() {
    assert_eq!(format_age(1209600), "Last updated 2 weeks ago");
    assert_eq!(format_age(1209599), "Last updated 13 days ago");
}

#[test]
fn two_days_is_the_first_day_count() {
    assert_eq!(format_age(172800), "Last updated 2 days ago");
    assert_eq!(format_age(172799), "Last updated 47 hours ago");
}

#[test]
fn under_an_hour_is_zero_hours() {
    assert_eq!(format_age(0), "Last updated 0 hours ago");
    assert_eq!(format_age(3599), "Last updated 0 hours ago");
}

#[test]
fn large_ages_count_weeks() {
    assert_eq!(format_age(604800 * 520 + 5), "Last updated 520 weeks ago");
    assert_eq!(format_age(u64::MAX), "Last updated 30500568904943 weeks ago");
}

#[test]
fn future_instant_is_zero_seconds_old() {
    assert_eq!(seconds_between(1000, 400), 0);
    assert_eq!(format_timestamp_at(1000, 5000), "Last updated 0 hours ago");
    assert_eq!(format_timestamp_at(1000, u64::MAX), "Last updated 0 hours ago");
}

#[test]
fn age_at_a_fixed_instant() {
    assert_eq!(seconds_between(400, 1000), 600);
    assert_eq!(seconds_between(-10, 10), 20);
    assert_eq!(format_timestamp_at(1_700_000_000, 1_700_000_000 - 3 * 86400), "Last updated 3 days ago");
}
