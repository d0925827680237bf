use labino_rust::decimal::{
    bytes_eq, contains, parse_milli, parse_unsigned, push_int, push_milli, trim,
};

fn int_text(v: i64) -> String {
    let mut buf = Vec::new();
    push_int(&mut buf, v);
    String::from_utf8(buf).unwrap()
}

fn milli_text(v: i64) -> String {
    let mut buf = Vec::new();
    push_milli(&mut buf, v);
    String::from_utf8(buf).unwrap()
}

#[test]
fn integers_are_written_in_decimal() {
    assert_eq!(int_text(0), "0");
    assert_eq!(int_text(7), "7");
    assert_eq!(int_text(10), "10");
    assert_eq!(int_text(-1), "-1");
    assert_eq!(int_text(1234567890), "1234567890");
    assert_eq!(int_text(i64::MAX), i64::MAX.to_string());
    assert_eq!(int_text(i64::MIN), i64::MIN.to_string());
}

#[test]
fn thousandths_are_written_with_three_decimals() {
    assert_eq!(milli_text(0), "0.000");
    assert_eq!(milli_text(5), "0.005");
    assert_eq!(milli_text(-5), "-0.005");
    assert_eq!(milli_text(12050), "12.050");
    assert_eq!(milli_text(-12050), "-12.050");
    assert_eq!(milli_text(80000), "80.000");
    assert_eq!(milli_text(i64::MIN), "-9223372036854775.808");
}

#[test]
fn decimals_are_read_in_thousandths() {
    assert_eq!(parse_milli(b"0"), Some(0));
    assert_eq!(parse_milli(b"12"), Some(12000));
    assert_eq!(parse_milli(b"12.5"), Some(12500));
    assert_eq!(parse_milli(b"-12.05"), Some(-12050));
    assert_eq!(parse_milli(b"+3.141"), Some(3141));
    assert_eq!(parse_milli(b"3.14159"), Some(3141));
    assert_eq!(parse_milli(b".5"), Some(500));
    assert_eq!(parse_milli(b"5."), Some(5000));
    assert_eq!(parse_milli(b"-0.0009"), Some(0));
    assert_eq!(parse_milli(b"007.1"), Some(7100));
}

#[test]
fn decimals_with_a_wrong_shape_are_refused() {
    assert_eq!(parse_milli(b""), None);
    assert_eq!(parse_milli(b"-"), None);
    assert_eq!(parse_milli(b"."), None);
    assert_eq!(parse_milli(b"-."), None);
    assert_eq!(parse_milli(b"1.2.3"), None);
    assert_eq!(parse_milli(b"1e3"), None);
    assert_eq!(parse_milli(b"nan"), None);
    assert_eq!(parse_milli(b" 1"), None);
    assert_eq!(parse_milli(b"1 "), None);
    assert_eq!(parse_milli(b"--1"), None);
    assert_eq!(parse_milli(b"1,5"), None);
}

#[test]
fn decimals_beyond_the_range_are_refused() {
    assert_eq!(parse_milli(b"1000000000"), Some(1_000_000_000_000));
    assert_eq!(parse_milli(b"-1000000000.000"), Some(-1_000_000_000_000));
    assert_eq!(parse_milli(b"1000000000.001"), None);
    assert_eq!(parse_milli(b"1000000001"), None);
    assert_eq!(parse_milli(b"99999999999999999999999999999999999999"), None);
}

#[test]
fn written_thousandths_read_back() {
    for v in [0i64, 1, -1, 999, 1000, -1001, 123456789, -987654321, 1_000_000_000_000] {
        assert_eq!(parse_milli(milli_text(v).as_bytes()), Some(v));
    }
}

#[test]
fn whole_numbers_are_read_up_to_their_bound() {
    assert_eq!(parse_unsigned(b"0", 255), Some(0));
    assert_eq!(parse_unsigned(b"90", 255), Some(90));
    assert_eq!(parse_unsigned(b"+90", 255), Some(90));
    assert_eq!(parse_unsigned(b"255", 255), Some(255));
    assert_eq!(parse_unsigned(b"256", 255), None);
    assert_eq!(parse_unsigned(b"0255", 255), Some(255));
    assert_eq!(parse_unsigned(b"18446744073709551615", u64::MAX), Some(u64::MAX));
    assert_eq!(parse_unsigned(b"18446744073709551616", u64::MAX), None);
    assert_eq!(parse_unsigned(b"", 255), None);
    assert_eq!(parse_unsigned(b"+", 255), None);
    assert_eq!(parse_unsigned(b"-1", 255), None);
    assert_eq!(parse_unsigned(b"1 ", 255), None);
    assert_eq!(parse_unsigned(b"1.0", 255), None);
}

#[test]
fn trim_drops_white_space_at_both_ends_only() {
    assert_eq!(trim(b"  OK\r\n"), b"OK".to_vec());
    assert_eq!(trim(b"\t a b \x0b\x0c"), b"a b".to_vec());
    assert_eq!(trim(b""), Vec::<u8>::new());
    assert_eq!(trim(b" \n "), Vec::<u8>::new());
    assert_eq!(trim(b"x"), b"x".to_vec());
}

#[test]
fn contains_finds_a_run_of_bytes() {
    assert!(contains(b"some ERROR here", b"ERROR"));
    assert!(contains(b"ERROR", b"ERROR"));
    assert!(contains(b"ERRERROR", b"ERROR"));
    assert!(!contains(b"ERRO", b"ERROR"));
    assert!(!contains(b"error", b"ERROR"));
    assert!(contains(b"abc", b""));
    assert!(contains(b"", b""));
    assert!(!contains(b"", b"a"));
}

#[test]
fn bytes_eq_compares_whole_strings() {
    assert!(bytes_eq(b"OK", b"OK"));
    assert!(!bytes_eq(b"OK", b"OK "));
    assert!(!bytes_eq(b"OK", b"ok"));
    assert!(bytes_eq(b"", b""));
}
