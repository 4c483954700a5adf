use otlp_client::json::{JsonNum, JsonVal};
use otlp_client::time::{days_from_civil, parse_iso8601_to_ms, parse_timestamp};

#[test]
fn test_parse_timestamp_nanoseconds() {
    let val = JsonVal::Num(JsonNum::UInt(1700000000000000000));
    assert_eq!(parse_timestamp(&val), Some(1700000000000));
}

#[test]
fn test_parse_timestamp_milliseconds() {
    let val = JsonVal::Num(JsonNum::UInt(1700000000000));
    assert_eq!(parse_timestamp(&val), Some(1700000000000));
}

#[test]
fn test_parse_timestamp_seconds() {
    let val = JsonVal::Num(JsonNum::UInt(1700000000));
    assert_eq!(parse_timestamp(&val), Some(1700000000000));
}

#[test]
fn test_parse_timestamp_string() {
    let val = JsonVal::Str("1700000000000000000".to_string());
    assert_eq!(parse_timestamp(&val), Some(1700000000000));
}

#[test]
fn test_parse_timestamp_rejects_non_numeric() {
    assert_eq!(parse_timestamp(&JsonVal::Bool(true)), None);
    assert_eq!(parse_timestamp(&JsonVal::Null), None);
    assert_eq!(parse_timestamp(&JsonVal::Str("not a number".to_string())), None);
    let f = JsonVal::Num(JsonNum::Float { trunc: 5, bits: 5.5f64.to_bits() });
    assert_eq!(parse_timestamp(&f), None);
}

#[test]
fn test_parse_iso8601_basic() {
    assert_eq!(parse_iso8601_to_ms("2026-02-02T19:40:37.126981Z"), Some(1770061237126));
}

#[test]
fn test_parse_iso8601_no_frac() {
    assert_eq!(parse_iso8601_to_ms("2026-02-02T19:40:37Z"), Some(1770061237000));
}

#[test]
fn test_parse_iso8601_epoch() {
    assert_eq!(parse_iso8601_to_ms("1970-01-01T00:00:00Z"), Some(0));
}

#[test]
fn test_parse_iso8601_offset_zone() {
    assert_eq!(parse_iso8601_to_ms("2026-02-02T19:40:37+00:00"), Some(1770061237000));
}

#[test]
fn test_parse_iso8601_short_fraction_pads_right() {
    // ".5" means half a second: 500 milliseconds.
    assert_eq!(parse_iso8601_to_ms("1970-01-01T00:00:00.5Z"), Some(500));
}

#[test]
fn test_parse_iso8601_malformed() {
    assert_eq!(parse_iso8601_to_ms("1970-01-01 00:00:00"), None);
    assert_eq!(parse_iso8601_to_ms("not a date"), None);
    assert_eq!(parse_iso8601_to_ms("1969-12-31T23:59:59Z"), None);
    assert_eq!(parse_iso8601_to_ms("1970-xx-01T00:00:00Z"), None);
}

#[test]
fn test_days_from_civil_known_dates() {
    assert_eq!(days_from_civil(1970, 1, 1), 0);
    assert_eq!(days_from_civil(1970, 1, 2), 1);
    assert_eq!(days_from_civil(2000, 3, 1), 11017);
    assert_eq!(days_from_civil(1969, 12, 31), -1);
}
