use http_server::numeral::{decimal_string, parse_decimal_capped};

#[test]
fn decimal_string_writes_plain_numerals() {
    assert_eq!(decimal_string(0), "0");
    assert_eq!(decimal_string(7), "7");
    assert_eq!(decimal_string(10), "10");
    assert_eq!(decimal_string(13), "13");
    assert_eq!(decimal_string(1024), "1024");
    assert_eq!(decimal_string(9876543210), "9876543210");
    assert_eq!(decimal_string(usize::MAX), usize::MAX.to_string());
}

#[test]
fn parse_decimal_capped_reads_numerals() {
    assert_eq!(parse_decimal_capped("0", 100), Some(0));
    assert_eq!(parse_decimal_capped("9", 100), Some(9));
    assert_eq!(parse_decimal_capped("007", 100), Some(7));
    assert_eq!(parse_decimal_capped("100", 100), Some(100));
}

#[test]
fn parse_decimal_capped_stops_at_the_cap() {
    assert_eq!(parse_decimal_capped("101", 100), Some(100));
    assert_eq!(parse_decimal_capped("99999999999999999999999999999999999999", 5), Some(5));
    assert_eq!(parse_decimal_capped("0", 0), Some(0));
    assert_eq!(parse_decimal_capped("1", 0), Some(0));
}

#[test]
fn parse_decimal_capped_refuses_other_text() {
    assert_eq!(parse_decimal_capped("", 100), None);
    assert_eq!(parse_decimal_capped("+5", 100), None);
    assert_eq!(parse_decimal_capped("-5", 100), None);
    assert_eq!(parse_decimal_capped("5 ", 100), None);
    assert_eq!(parse_decimal_capped("1a", 100), None);
    assert_eq!(parse_decimal_capped("٣", 100), None);
}

#[test]
fn reading_a_written_numeral_gives_the_number_back() {
    for n in [0usize, 1, 9, 10, 99, 100, 12345, 1 << 20] {
        assert_eq!(parse_decimal_capped(&decimal_string(n), usize::MAX), Some(n));
    }
}
