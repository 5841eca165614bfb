use yard::clock::{unix_now, unix_seconds};
use yard::time::{
    civil_date, format_age, format_deployment_timestamp, format_timestamp, format_unix_micros,
    format_unix_utc, moment_of, Moment,
};

#[test]
fn formats_utc_timestamps() {
    assert_eq!(format_unix_utc(0), "1970-01-01T00:00:00Z");
    assert_eq!(format_unix_utc(1_704_067_199), "2023-12-31T23:59:59Z");
}

#[test]
fn dates_follow_the_gregorian_calendar() {
    assert_eq!(civil_date(0), (1970, 1, 1));
    assert_eq!(civil_date(59), (1970, 3, 1));
    assert_eq!(civil_date(11_016), (2000, 2, 29));
    assert_eq!(civil_date(47_540), (2100, 2, 28));
    assert_eq!(civil_date(47_541), (2100, 3, 1));
    assert_eq!(format_unix_micros(1, 42), "1970-01-01T00:00:01.000042Z");
    assert_eq!(format_unix_utc(253_402_300_800), "10000-01-01T00:00:00Z");
}

#[test]
fn timestamps_without_a_moment_are_numbers() {
    assert_eq!(format_timestamp(97_445), "1970-01-02 03:04:05");
    assert_eq!(format_timestamp(1_709_251_199), "2024-02-29 23:59:59");
    assert_eq!(format_timestamp(67_767_976_233_532_799), "2147483647-12-31 23:59:59");
    assert_eq!(format_timestamp(67_767_976_233_532_800), "67767976233532800");
    assert_eq!(format_timestamp(u64::MAX), "18446744073709551615");
    assert_eq!(format_deployment_timestamp(97_445, 97_445), "1970-01-02 03:04:05 UTC");
    assert_eq!(format_deployment_timestamp(97_444, 97_445), "1970-01-02 03:04:05 UTC (in future)");
}

#[test]
fn a_moment_has_the_parts_of_its_time() {
    let moment = Moment { year: 2000, month: 2, day: 29, hour: 12, minute: 34, second: 56 };
    assert_eq!(moment_of(951_827_696), Some(moment));
    assert_eq!(moment_of(u64::MAX), None);
}

#[test]
fn texts_of_times_stand_in_their_order() {
    let times = [
        0, 59, 60, 3_599, 3_600, 86_399, 86_400, 2_678_399, 2_678_400, 951_827_696, 1_704_067_199,
        1_704_067_200, 253_402_300_799,
    ];
    for pair in times.windows(2) {
        let (first, second) = (format_unix_utc(pair[0]), format_unix_utc(pair[1]));
        assert!(first < second, "{first} {second}");
        assert_eq!((first.len(), second.len()), (20, 20));
    }
}

#[test]
fn ages_are_told_in_the_largest_unit() {
    assert_eq!(format_age(9, 0), "just now");
    assert_eq!(format_age(10, 0), "10s ago");
    assert_eq!(format_age(59, 0), "59s ago");
    assert_eq!(format_age(60, 0), "1m ago");
    assert_eq!(format_age(3_599, 0), "59m ago");
    assert_eq!(format_age(3_600, 0), "1h ago");
    assert_eq!(format_age(86_399, 0), "23h ago");
    assert_eq!(format_age(86_400, 0), "1d ago");
    assert_eq!(format_age(0, 1), "in future");
}

#[test]
fn a_clock_before_the_epoch_shows_the_epoch() {
    assert_eq!(unix_seconds(None), 0);
    assert_eq!(unix_seconds(Some(0)), 0);
    assert_eq!(unix_seconds(Some(1_704_067_199)), 1_704_067_199);
    assert_eq!(unix_seconds(Some(u64::MAX)), u64::MAX);
}

#[test]
fn the_present_time_is_that_of_the_system_clock() {
    let read = || {
        std::time::SystemTime::now()
            .duration_since(std::time::UNIX_EPOCH)
            .unwrap_or_default()
            .as_secs()
    };
    let before = read();
    let now = unix_now();
    let after = read();
    assert!(before <= now && now <= after, "{before} {now} {after}");
}
