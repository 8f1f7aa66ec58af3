use eas_listener::cleanup::{
    after_last_dot, log_retention_expired, parse_log_date, starts_with_prefix,
    LOG_RETENTION_DAYS,
};

#[test]
fn retention_window_is_three_days() {
    assert_eq!(LOG_RETENTION_DAYS, 3);
}

#[test]
fn well_formed_dates_parse() {
    assert_eq!(parse_log_date("2024-01-02"), Some((2024, 1, 2)));
    assert_eq!(parse_log_date("1999-12-31"), Some((1999, 12, 31)));
}

#[test]
fn leap_years_admit_february_29() {
    assert_eq!(parse_log_date("2024-02-29"), Some((2024, 2, 29)));
    assert_eq!(parse_log_date("2023-02-29"), None);
    assert_eq!(parse_log_date("2000-02-29"), Some((2000, 2, 29)));
    assert_eq!(parse_log_date("1900-02-29"), None);
}

#[test]
fn malformed_dates_do_not_parse() {
    assert_eq!(parse_log_date("2024-1-2"), None);
    assert_eq!(parse_log_date("2024/01/02"), None);
    assert_eq!(parse_log_date("2024-13-01"), None);
    assert_eq!(parse_log_date("2024-00-01"), None);
    assert_eq!(parse_log_date("2024-04-31"), None);
    assert_eq!(parse_log_date("2024-04-00"), None);
    assert_eq!(parse_log_date("2024-01-0x"), None);
    assert_eq!(parse_log_date(""), None);
}

#[test]
fn staleness_is_strictly_past_the_window() {
    assert!(!log_retention_expired(100, 103));
    assert!(log_retention_expired(100, 104));
}

#[test]
fn rotated_log_names_are_recognised() {
    assert!(starts_with_prefix("alerts.log.2024-01-02", "alerts.log"));
    assert!(!starts_with_prefix("metrics.log.2024-01-02", "alerts.log"));
    assert!(!starts_with_prefix("alerts", "alerts.log"));
    assert_eq!(after_last_dot("alerts.log.2024-01-02"), "2024-01-02");
    assert_eq!(after_last_dot("no_dots_here"), "no_dots_here");
}
