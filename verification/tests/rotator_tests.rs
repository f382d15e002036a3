use satnogs_monitor::rotator::{
    parse_decimal_milli, pointing_alarm, reply_is_error, PointingAlarm,
};

#[test]
fn decimal_replies_parse_to_thousandths() {
    assert_eq!(parse_decimal_milli(b"123.450000"), Some(123_450));
    assert_eq!(parse_decimal_milli(b"0.5"), Some(500));
    assert_eq!(parse_decimal_milli(b"-1"), Some(-1_000));
    assert_eq!(parse_decimal_milli(b"+7.25"), Some(7_250));
    assert_eq!(parse_decimal_milli(b"359.9999"), Some(359_999));
    assert_eq!(parse_decimal_milli(b"42."), Some(42_000));
}

#[test]
fn malformed_replies_do_not_parse() {
    assert_eq!(parse_decimal_milli(b""), None);
    assert_eq!(parse_decimal_milli(b"abc"), None);
    assert_eq!(parse_decimal_milli(b"1.2.3"), None);
    assert_eq!(parse_decimal_milli(b"-"), None);
    assert_eq!(parse_decimal_milli(b".5"), None);
    assert_eq!(parse_decimal_milli(b"12 34"), None);
}

#[test]
fn error_replies_are_recognised() {
    assert!(reply_is_error(b"RPRT -1"));
    assert!(!reply_is_error(b"123.4"));
    assert!(!reply_is_error(b"RP"));
}

#[test]
fn pointing_alarm_classifies_the_larger_error() {
    // thresholds: warn at 5 degrees, critical at 10 degrees
    assert_eq!(pointing_alarm(100_000, 50_000, 101_000, 50_500, 5_000, 10_000), PointingAlarm::Aligned);
    assert_eq!(pointing_alarm(100_000, 50_000, 107_000, 50_000, 5_000, 10_000), PointingAlarm::Warning);
    assert_eq!(pointing_alarm(100_000, 50_000, 100_000, 65_000, 5_000, 10_000), PointingAlarm::Critical);
    // the boundary itself already raises the flag
    assert_eq!(pointing_alarm(0, 0, 5_000, 0, 5_000, 10_000), PointingAlarm::Warning);
    assert_eq!(pointing_alarm(0, 0, 0, -10_000, 5_000, 10_000), PointingAlarm::Critical);
}
