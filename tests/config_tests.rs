use runwhen::config::{check_globs, count_digits, is_excluded, nanos_to_millis, parse_duration};
use runwhen::error::ErrorKind;

#[test]
fn durations_in_milliseconds() {
    assert_eq!(parse_duration("200ms").unwrap(), 200);
    assert_eq!(parse_duration("5s").unwrap(), 5000);
    assert_eq!(parse_duration("2h 37min").unwrap(), 9_420_000);
    assert_eq!(parse_duration("0").unwrap(), 0);
    assert_eq!(parse_duration("1500us").unwrap(), 1);
}

#[test]
fn invalid_duration_is_config_error() {
    assert_eq!(parse_duration("soon").err().unwrap().kind, ErrorKind::Config);
    assert_eq!(parse_duration("").err().unwrap().kind, ErrorKind::Config);
}

#[test]
fn nanos_to_millis_truncates_and_bounds() {
    assert_eq!(nanos_to_millis(1_999_999), Some(1));
    assert_eq!(nanos_to_millis(u64::MAX as u128 * 1_000_000), Some(u64::MAX));
    assert_eq!(nanos_to_millis((u64::MAX as u128 + 1) * 1_000_000), None);
}

#[test]
fn well_formed_globs_pass() {
    assert!(check_globs(&vec!["*.tmp", "target/**", "[abc]?"]).is_ok());
    assert!(check_globs(&vec![]).is_ok());
}

#[test]
fn malformed_glob_is_config_error() {
    assert_eq!(check_globs(&vec!["ok", "a***"]).err().unwrap().kind, ErrorKind::Config);
    assert_eq!(check_globs(&vec!["a**b"]).err().unwrap().kind, ErrorKind::Config);
}

#[test]
fn any_matching_pattern_excludes() {
    let pats = vec!["*.log", "*.tmp"];
    assert!(is_excluded(&pats, "/work/out.tmp"));
    assert!(is_excluded(&pats, "/work/app.log"));
    assert!(!is_excluded(&pats, "/work/main.rs"));
    assert!(!is_excluded(&vec![], "/work/out.tmp"));
}

#[test]
fn duration_with_too_many_digits_is_config_error() {
    for text in ["18446744073709551615s 1000000000ns", "18446744073709551615.5s 0.5s", "123456789012ms"] {
        assert_eq!(parse_duration(text).err().unwrap().kind, ErrorKind::Config);
    }
    assert_eq!(parse_duration("12345678901ms").unwrap(), 12_345_678_901);
}

#[test]
fn count_digits_counts_decimal_digits() {
    assert_eq!(count_digits("1h 30m 15s"), 5);
    assert_eq!(count_digits(""), 0);
    assert_eq!(count_digits("µs"), 0);
}
