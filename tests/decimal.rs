use rss_bluesky_bridge::decimal::{format_i64, parse_i64};

#[test]
fn formats_integers() {
    assert_eq!(format_i64(0), "0");
    assert_eq!(format_i64(7), "7");
    assert_eq!(format_i64(1_700_000_000), "1700000000");
    assert_eq!(format_i64(-42), "-42");
    assert_eq!(format_i64(i64::MAX), i64::MAX.to_string());
    assert_eq!(format_i64(i64::MIN), i64::MIN.to_string());
}

#[test]
fn parses_integers_like_std() {
    for s in ["0", "+12", "-12", "007", "9223372036854775807", "-9223372036854775808"] {
        assert_eq!(parse_i64(s), s.parse::<i64>().ok(), "{}", s);
    }
}

#[test]
fn rejects_what_std_rejects() {
    for s in ["", "-", "+", "1a", " 1", "1 ", "9223372036854775808", "-9223372036854775809", "99999999999999999999999", "--1"] {
        assert_eq!(parse_i64(s), None, "{}", s);
        assert!(s.parse::<i64>().is_err());
    }
}

#[test]
fn format_then_parse_gives_back_the_value() {
    for v in [0i64, 1, -1, 86_400, 1_734_567_890, i64::MAX, i64::MIN] {
        assert_eq!(parse_i64(&format_i64(v)), Some(v));
    }
}
