use loadgen::text::{decimal_string, push_decimal, push_megabytes, starts_with, str_eq};

fn megabytes(kb: u64) -> String {
    let mut out = String::new();
    push_megabytes(&mut out, kb);
    out
}

#[test]
fn decimal_of_zero_is_one_digit() {
    assert_eq!(decimal_string(0), "0");
}

#[test]
fn decimal_of_small_and_large_numbers() {
    assert_eq!(decimal_string(7), "7");
    assert_eq!(decimal_string(10), "10");
    assert_eq!(decimal_string(200), "200");
    assert_eq!(decimal_string(65535), "65535");
    assert_eq!(decimal_string(u64::MAX), "18446744073709551615");
}

#[test]
fn push_decimal_appends_to_what_is_there() {
    let mut out = String::from("n=");
    push_decimal(&mut out, 340282366920938463463374607431768211455u128);
    assert_eq!(out, "n=340282366920938463463374607431768211455");
}

#[test]
fn megabytes_have_two_decimals() {
    assert_eq!(megabytes(0), "0.00");
    assert_eq!(megabytes(1024), "1.00");
    assert_eq!(megabytes(499_200), "487.50");
    assert_eq!(megabytes(512_000), "500.00");
    assert_eq!(megabytes(1), "0.00");
    assert_eq!(megabytes(5), "0.00");
    assert_eq!(megabytes(6), "0.01");
    assert_eq!(megabytes(1023), "1.00");
}

#[test]
fn megabytes_round_a_tie_to_the_even_hundredth() {
    // 128 KB is 0.125 MB and 384 KB is 0.375 MB.
    assert_eq!(megabytes(128), "0.12");
    assert_eq!(megabytes(384), "0.38");
}

#[test]
fn megabytes_agree_with_float_formatting() {
    let samples: [u64; 12] =
        [0, 1, 5, 6, 128, 384, 1000, 1023, 1025, 499_999, 8_123_457, 16_777_216_123];
    for kb in samples {
        assert_eq!(megabytes(kb), format!("{:.2}", kb as f64 / 1024.0), "kb = {}", kb);
    }
}

#[test]
fn megabytes_of_the_largest_count() {
    assert_eq!(megabytes(u64::MAX), "18014398509481984.00");
}

#[test]
fn starts_with_compares_the_beginning() {
    assert!(starts_with("http://example.test/", "http://"));
    assert!(!starts_with("https://example.test/", "http://"));
    assert!(starts_with("https://example.test/", "https://"));
    assert!(starts_with("abc", ""));
    assert!(starts_with("abc", "abc"));
    assert!(!starts_with("ab", "abc"));
    assert!(!starts_with("", "a"));
    assert!(starts_with("\u{e9}t\u{e9}", "\u{e9}t"));
}

#[test]
fn texts_are_the_same_character_for_character() {
    assert!(str_eq("", ""));
    assert!(str_eq("token", "token"));
    assert!(!str_eq("token", "Token"));
    assert!(!str_eq("token", "token "));
    assert!(!str_eq("a", ""));
    assert!(str_eq("\u{e9}", "\u{e9}"));
}
