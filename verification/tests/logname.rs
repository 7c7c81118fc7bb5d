use cargo_embed::logname::{
    local_timestamp_millis, log_name, log_name_at, log_name_now, EARLIEST_NANOS, LATEST_NANOS,
};
use time::{OffsetDateTime, UtcOffset};

#[test]
fn the_name_of_a_log() {
    assert_eq!(
        log_name("blinky", &Some("nRF52840_xxAA".to_string()), 1_700_000_000_123),
        "blinky_nRF52840_xxAA_1700000000123"
    );
    assert_eq!(log_name("blinky", &None, -5), "blinky__-5");
}

#[test]
fn time_stamps_in_milliseconds() {
    assert_eq!(local_timestamp_millis(1_700_000_000_123_999_999, 0), Some(1_700_000_000_123));
    assert_eq!(local_timestamp_millis(1_700_000_000_123_999_999, 7200), Some(1_700_000_000_123));
    assert_eq!(local_timestamp_millis(-1_999_999, -3600), Some(-1));
    assert_eq!(local_timestamp_millis(999_999, 0), Some(0));
}

#[test]
fn instants_without_a_date_have_no_time_stamp() {
    assert_eq!(local_timestamp_millis(LATEST_NANOS, 0), Some(253_402_300_799_999));
    assert_eq!(local_timestamp_millis(LATEST_NANOS + 1, 0), None);
    assert_eq!(local_timestamp_millis(EARLIEST_NANOS, 0), Some(-377_705_116_800_000));
    assert_eq!(local_timestamp_millis(EARLIEST_NANOS - 1, 0), None);
    for seconds in [1, 59, 60, 3600, 86_399, 86_400, 93_599] {
        let nanos = i128::from(seconds) * 1_000_000_000;
        assert!(local_timestamp_millis(LATEST_NANOS - nanos, seconds).is_some());
        assert_eq!(local_timestamp_millis(LATEST_NANOS - nanos + 1, seconds), None);
        assert!(local_timestamp_millis(EARLIEST_NANOS + nanos, -seconds).is_some());
        assert_eq!(local_timestamp_millis(EARLIEST_NANOS + nanos - 1, -seconds), None);
    }
    assert_eq!(local_timestamp_millis(0, 93_599), Some(0));
    assert_eq!(local_timestamp_millis(0, 93_600), None);
    assert_eq!(local_timestamp_millis(0, -93_600), None);
    assert_eq!(local_timestamp_millis(i128::MAX, 0), None);
}

#[test]
fn time_stamps_agree_with_the_calendar() {
    let zone = UtcOffset::from_hms(-5, -30, 0).unwrap();
    for nanos in [0, 1, -1, 1_700_000_000_123_456_789, -62_135_596_800_000_000_000] {
        let expected =
            OffsetDateTime::from_unix_timestamp_nanos(nanos).unwrap().to_offset(zone).unix_timestamp_nanos()
                / 1_000_000;
        assert_eq!(local_timestamp_millis(nanos, zone.whole_seconds()), Some(expected));
    }
}

#[test]
fn a_log_that_starts_at_an_instant() {
    let chip = Some("nrf52".to_string());
    assert_eq!(
        log_name_at("blinky", &chip, 1_700_000_000_123_456_789, -3600),
        Some("blinky_nrf52_1700000000123".to_string())
    );
    assert_eq!(log_name_at("blinky", &None, -2_500_000, 0), Some("blinky__-2".to_string()));
    assert_eq!(log_name_at("blinky", &chip, LATEST_NANOS, 1), None);
}

#[test]
fn a_log_that_starts_now() {
    let now = || OffsetDateTime::now_utc().unix_timestamp_nanos() / 1_000_000;
    let before = now();
    let name = log_name_now("a", &Some("b".to_string()), 3600).unwrap();
    let after = now();
    let millis: i128 = name.strip_prefix("a_b_").unwrap().parse().unwrap();
    assert!(before <= millis && millis <= after);
    assert!(log_name_now("a", &None, 100_000).is_none());
}
