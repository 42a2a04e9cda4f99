use minitrace::text::{decimal_i64, decimal_u64, push_json_string};
use minitrace::util::errno_2_str;

#[test]
fn errno_names_of_all_levels() {
    let cases: Vec<(i64, &str)> = vec![
        (1, "E_ERROR"),
        (2, "E_WARNING"),
        (4, "E_PARSE"),
        (8, "E_NOTICE"),
        (16, "E_CORE_ERROR"),
        (32, "E_CORE_WARNING"),
        (64, "E_COMPILE_ERROR"),
        (128, "E_COMPILE_WARNING"),
        (256, "E_USER_ERROR"),
        (512, "E_USER_WARNING"),
        (1024, "E_USER_NOTICE"),
        (2048, "E_STRICT"),
        (4096, "E_RECOVERABLE_ERROR"),
        (8192, "E_DEPRECATED"),
        (16384, "E_USER_DEPRECATED"),
        (32767, "E_ALL"),
    ];
    for (errno, name) in cases {
        assert_eq!(errno_2_str(errno), name);
    }
}

#[test]
fn errno_unknown_levels() {
    assert_eq!(errno_2_str(0), "UNKNOWN");
    assert_eq!(errno_2_str(3), "UNKNOWN");
    assert_eq!(errno_2_str(-1), "UNKNOWN");
    assert_eq!(errno_2_str(i64::MAX), "UNKNOWN");
}

#[test]
fn decimal_of_signed_integers() {
    assert_eq!(decimal_i64(0), "0");
    assert_eq!(decimal_i64(7), "7");
    assert_eq!(decimal_i64(10), "10");
    assert_eq!(decimal_i64(-42), "-42");
    assert_eq!(decimal_i64(1234567890), "1234567890");
    assert_eq!(decimal_i64(i64::MAX), "9223372036854775807");
    assert_eq!(decimal_i64(i64::MIN), "-9223372036854775808");
}

#[test]
fn decimal_of_unsigned_integers() {
    assert_eq!(decimal_u64(0), "0");
    assert_eq!(decimal_u64(100), "100");
    assert_eq!(decimal_u64(u64::MAX), "18446744073709551615");
}

#[test]
fn json_string_plain_text() {
    let mut out = String::from("x=");
    push_json_string(&mut out, "hello");
    assert_eq!(out, "x=\"hello\"");
}

#[test]
fn json_string_escapes() {
    let mut out = String::new();
    push_json_string(&mut out, "a\"b\\c\nd\te\r\u{8}\u{c}\u{1}\u{1f}");
    assert_eq!(out, "\"a\\\"b\\\\c\\nd\\te\\r\\b\\f\\u0001\\u001f\"");
}

#[test]
fn json_string_keeps_non_ascii_and_del() {
    let mut out = String::new();
    push_json_string(&mut out, "é中\u{7f}/");
    assert_eq!(out, "\"é中\u{7f}/\"");
}
