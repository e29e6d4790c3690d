use loadfleet::schedule::{delay_from, parse_seconds, schedule_delay, DATETIME_FORMAT};

#[test]
fn seconds_are_decimal_digits() {
    assert_eq!(parse_seconds("0"), Some(0));
    assert_eq!(parse_seconds("15"), Some(15));
    assert_eq!(parse_seconds("+15"), Some(15));
    assert_eq!(parse_seconds("007"), Some(7));
    assert_eq!(parse_seconds("18446744073709551615"), Some(u64::MAX));
    assert_eq!(parse_seconds("000018446744073709551615"), Some(u64::MAX));
}

#[test]
fn other_texts_are_no_seconds() {
    assert_eq!(parse_seconds(""), None);
    assert_eq!(parse_seconds("+"), None);
    assert_eq!(parse_seconds("-"), None);
    assert_eq!(parse_seconds("-5"), None);
    assert_eq!(parse_seconds("++5"), None);
    assert_eq!(parse_seconds("5+"), None);
    assert_eq!(parse_seconds(" 5"), None);
    assert_eq!(parse_seconds("5 "), None);
    assert_eq!(parse_seconds("1_000"), None);
    assert_eq!(parse_seconds("1.5"), None);
    assert_eq!(parse_seconds("0x10"), None);
    assert_eq!(parse_seconds("٣"), None);
    assert_eq!(parse_seconds("18446744073709551616"), None);
    assert_eq!(parse_seconds("99999999999999999999999"), None);
    assert_eq!(parse_seconds("99999999999999999999999x"), None);
}

#[test]
fn seconds_agree_with_the_standard_parser() {
    let samples = ["", "+", "0", "+0", "-0", "12", "+12", "1a", "a1", "18446744073709551615",
        "18446744073709551616", "184467440737095516150", "00", "+00012", " 1", "1\n"];
    for s in samples {
        assert_eq!(parse_seconds(s), s.parse::<u64>().ok(), "for {:?}", s);
    }
}

#[test]
fn delay_prefers_the_number_of_seconds() {
    assert_eq!(delay_from(Some(30), Some(1_000), 10), Some(30));
    assert_eq!(delay_from(Some(0), None, 10), Some(0));
}

#[test]
fn delay_until_a_point_in_time() {
    assert_eq!(delay_from(None, Some(1_000), 10), Some(990));
    assert_eq!(delay_from(None, Some(1_000), 999), Some(1));
    assert_eq!(delay_from(None, Some(1_000), 1_000), None);
    assert_eq!(delay_from(None, Some(1_000), 2_000), None);
    assert_eq!(delay_from(None, Some(0), 0), None);
    assert_eq!(delay_from(None, None, 5), None);
}

#[test]
fn a_time_before_the_epoch_wraps_round() {
    assert_eq!(delay_from(None, Some(-1), 10), Some(u64::MAX - 10));
    assert_eq!(delay_from(None, Some(i64::MIN), 0), Some(1u64 << 63));
    assert_eq!(delay_from(None, Some(-1), u64::MAX), None);
}

#[test]
fn schedule_given_in_seconds() {
    assert_eq!(schedule_delay(Some("45"), 1_700_000_000), Some(45));
    assert_eq!(schedule_delay(Some("0"), 1_700_000_000), Some(0));
    assert_eq!(schedule_delay(None, 1_700_000_000), None);
}

#[test]
fn schedule_that_names_no_time_zone_is_not_honoured() {
    assert_eq!(DATETIME_FORMAT, "%Y-%m-%d %H:%M:%S");
    assert_eq!(schedule_delay(Some("2999-01-01 00:00:00"), 1_700_000_000), None);
    assert_eq!(schedule_delay(Some("2999-01-01 00:00:00 +0000"), 1_700_000_000), None);
    assert_eq!(schedule_delay(Some("tomorrow"), 1_700_000_000), None);
    assert_eq!(schedule_delay(Some(""), 1_700_000_000), None);
}
