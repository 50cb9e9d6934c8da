use lobby_notify::digits::{parse_u64_digits, u64_to_dec_string};
use lobby_notify::ratelimit::{
    governor_delay_from_headers, governor_delay_millis, parse_reset_after_millis,
};

#[test]
fn digit_strings_parse_exactly() {
    assert_eq!(parse_u64_digits("0"), Some(0));
    assert_eq!(parse_u64_digits("0042"), Some(42));
    assert_eq!(parse_u64_digits("18446744073709551615"), Some(u64::MAX));
}

#[test]
fn non_digit_strings_do_not_parse() {
    assert_eq!(parse_u64_digits(""), None);
    assert_eq!(parse_u64_digits("12x"), None);
    assert_eq!(parse_u64_digits("-1"), None);
    assert_eq!(parse_u64_digits(" 5"), None);
}

#[test]
fn out_of_range_counts_do_not_parse() {
    assert_eq!(parse_u64_digits("18446744073709551616"), None);
}

#[test]
fn decimal_rendering_round_trips() {
    assert_eq!(u64_to_dec_string(0), "0");
    assert_eq!(u64_to_dec_string(7), "7");
    assert_eq!(u64_to_dec_string(12345), "12345");
    assert_eq!(u64_to_dec_string(u64::MAX), "18446744073709551615");
}

#[test]
fn reset_after_reads_fractional_seconds_as_milliseconds() {
    assert_eq!(parse_reset_after_millis("2.5"), Some(2500));
    assert_eq!(parse_reset_after_millis("2"), Some(2000));
    assert_eq!(parse_reset_after_millis("0"), Some(0));
    assert_eq!(parse_reset_after_millis("0.001"), Some(1));
    assert_eq!(parse_reset_after_millis("1."), Some(1000));
    assert_eq!(parse_reset_after_millis("2.500"), Some(2500));
}

#[test]
fn reset_after_rounds_up_so_a_wait_is_never_cut_short() {
    assert_eq!(parse_reset_after_millis("2.5001"), Some(2501));
    assert_eq!(parse_reset_after_millis("0.0004"), Some(1));
    assert_eq!(parse_reset_after_millis("0.1000"), Some(100));
}

#[test]
fn unreadable_reset_headers_do_not_parse() {
    assert_eq!(parse_reset_after_millis(""), None);
    assert_eq!(parse_reset_after_millis("."), None);
    assert_eq!(parse_reset_after_millis(".5"), None);
    assert_eq!(parse_reset_after_millis("1.2.3"), None);
    assert_eq!(parse_reset_after_millis("abc"), None);
    assert_eq!(parse_reset_after_millis("-2.5"), None);
}

#[test]
fn governor_waits_only_when_no_calls_remain() {
    assert_eq!(governor_delay_millis(Some(0), Some(7000)), 7000);
    assert_eq!(governor_delay_millis(Some(3), Some(7000)), 0);
    assert_eq!(governor_delay_millis(None, Some(7000)), 0);
    assert_eq!(governor_delay_millis(Some(0), None), 0);
}

#[test]
fn governor_reads_raw_headers() {
    let zero = Some("0".to_string());
    let some_left = Some("5".to_string());
    let reset = Some("2.5".to_string());
    assert_eq!(governor_delay_from_headers(&zero, &reset), 2500);
    assert_eq!(governor_delay_from_headers(&some_left, &reset), 0);
    assert_eq!(governor_delay_from_headers(&None, &reset), 0);
    assert_eq!(governor_delay_from_headers(&zero, &None), 0);
}

#[test]
fn governor_treats_unreadable_headers_as_no_information() {
    let zero = Some("0".to_string());
    let garbled = Some("soon".to_string());
    assert_eq!(governor_delay_from_headers(&zero, &garbled), 0);
    let garbled_remaining = Some("none".to_string());
    let reset = Some("2.5".to_string());
    assert_eq!(governor_delay_from_headers(&garbled_remaining, &reset), 0);
}
