use blackbox::clock::{Timestamp, FIRST_DAY, FIRST_SECOND, LAST_DAY, LAST_SECOND};
use blackbox::logger::{
    errorlog, init_logger, log_file_path, outdated_day, outdated_log, setup_panic_hook,
};
use chrono::{DateTime, Datelike, NaiveDate, Utc};

fn at(text: &str) -> Timestamp {
    let time = DateTime::parse_from_rfc3339(text).unwrap();
    Timestamp::new(time.timestamp(), time.timestamp_subsec_nanos()).unwrap()
}

#[test]
fn the_calendar_has_the_range_of_chrono() {
    assert_eq!(DateTime::<Utc>::MIN_UTC.timestamp(), FIRST_SECOND);
    assert_eq!(DateTime::<Utc>::MAX_UTC.timestamp(), LAST_SECOND);
    assert_eq!(NaiveDate::MIN.num_days_from_ce(), FIRST_DAY);
    assert_eq!(NaiveDate::MAX.num_days_from_ce(), LAST_DAY);
    assert!(Timestamp::new(FIRST_SECOND, 0).is_some());
    assert!(Timestamp::new(FIRST_SECOND - 1, 0).is_none());
    assert!(Timestamp::new(LAST_SECOND, 999999999).is_some());
    assert!(Timestamp::new(LAST_SECOND + 1, 0).is_none());
    assert!(Timestamp::new(0, 1000000000).is_none());
}

#[test]
fn points_in_time_are_ordered() {
    assert!(Timestamp::new(1, 0).unwrap().before(Timestamp::new(1, 1).unwrap()));
    assert!(Timestamp::new(-1, 5).unwrap().before(Timestamp::new(0, 0).unwrap()));
    assert!(!Timestamp::new(1, 1).unwrap().before(Timestamp::new(1, 1).unwrap()));
    assert!(!Timestamp::new(2, 0).unwrap().before(Timestamp::new(1, 9).unwrap()));
}

#[test]
fn the_log_is_named_for_the_day() {
    let paths = init_logger(Some(" /tmp/logs\n"), at("2024-07-19T10:20:30Z"));
    assert_eq!(paths.log_dir, "/tmp/logs");
    assert_eq!(paths.log_file, "/tmp/logs/2024-07-19.log");
    let paths = init_logger(None, at("1999-12-31T23:59:59.999Z"));
    assert_eq!(paths.log_dir, "/var/log/spidercore/blackbox");
    assert_eq!(paths.log_file, "/var/log/spidercore/blackbox/1999-12-31.log");
    assert_eq!(log_file_path("/a", "b"), "/a/b.log");
}

#[test]
fn a_log_is_outdated_after_seven_days() {
    let today = at("2024-07-19T10:20:30Z");
    assert!(outdated_log("2024-07-11", today));
    assert!(outdated_log("2024-07-12", today));
    assert!(!outdated_log("2024-07-13", today));
    assert!(!outdated_log("2024-07-19", today));
    assert!(!outdated_log("2025-01-01", today));
}

#[test]
fn the_seventh_day_counts_to_the_nanosecond() {
    assert!(!outdated_log("2024-07-12", at("2024-07-19T00:00:00Z")));
    assert!(outdated_log("2024-07-12", at("2024-07-19T00:00:00.000000001Z")));
    let day = NaiveDate::from_ymd_opt(2024, 7, 12).unwrap().num_days_from_ce();
    assert!(!outdated_day(day, at("2024-07-19T00:00:00Z")));
    assert!(outdated_day(day, at("2024-07-19T00:00:00.000000001Z")));
}

#[test]
fn only_a_date_can_be_outdated() {
    let today = at("2024-07-19T10:20:30Z");
    for name in ["", "notes", ".log", "notes.log", "2024-01-01.txt", "2024-01-01.log.log", "2024-01-01log", "2024-13-01",
        "2024-13-01.log", "2024-02-30", "2024-01-01 ", "x2024-01-01"] {
        assert!(!outdated_log(name, today), "{}", name);
    }
}

#[test]
fn a_log_is_found_by_its_name() {
    assert!(outdated_log("2024-01-01.log", at("2024-02-01T00:00:00Z")));
    assert!(!outdated_log("2024-01-31.log", at("2024-02-01T00:00:00Z")));
    assert!(outdated_log("2024-01-01", at("2024-02-01T00:00:00Z")));
}

#[test]
fn the_own_log_is_outdated_in_time() {
    let paths = init_logger(Some("/tmp/logs"), at("2024-07-12T23:59:59Z"));
    let name = paths.log_file.strip_prefix("/tmp/logs/").unwrap();
    assert!(!outdated_log(name, at("2024-07-12T23:59:59Z")));
    assert!(!outdated_log(name, at("2024-07-19T00:00:00Z")));
    assert!(outdated_log(name, at("2024-07-19T00:00:00.000000001Z")));
    assert!(outdated_log(name, at("2030-01-01T00:00:00Z")));
}

#[test]
fn a_date_is_read_back_as_its_day() {
    for (secs, nanos) in [
        (0, 0),
        (-1, 999999999),
        (1721384430, 5),
        (FIRST_SECOND, 0),
        (LAST_SECOND, 999999999),
        (-62135596801, 0),
        (-62167219200, 0),
        (-62167219201, 0),
        (253402300800, 0),
    ] {
        let time = Timestamp::new(secs, nanos).unwrap();
        let paths = init_logger(Some("d"), time);
        let date = paths.log_file.strip_prefix("d/").unwrap().strip_suffix(".log").unwrap();
        let day = NaiveDate::parse_from_str(date, "%Y-%m-%d").unwrap().num_days_from_ce();
        assert_eq!(day as i64, secs.div_euclid(86400) + 719163, "{}", date);
    }
}

#[test]
fn an_outdated_log_stays_outdated() {
    for hour in 0..48 {
        let later = Timestamp::new(1721384430 + 3600 * hour, 0).unwrap();
        assert!(outdated_log("2024-07-12", later));
    }
}

#[test]
fn an_error_is_told_with_its_cause() {
    assert_eq!(errorlog("Failed to lock", Some("Poisoned")), "Failed to lock: Poisoned");
    assert_eq!(errorlog("Failed to lock", None), "Failed to lock");
}

#[test]
fn a_panic_is_told_with_its_place() {
    assert_eq!(setup_panic_hook("src/a.rs", 120, Some("no")), "Panic occurred at src/a.rs:120: no");
    assert_eq!(setup_panic_hook("f", 0, None), "Panic occurred at f:0: Unknown panic");
}
