use simpil::text::{ascii_string, decimal_string, parse_digits, parse_number, push_decimal};

#[test]
fn numerals_are_read_exactly() {
    assert_eq!(parse_number(&b"0".to_vec()), Some(0));
    assert_eq!(parse_number(&b"42".to_vec()), Some(42));
    assert_eq!(parse_number(&b"+42".to_vec()), Some(42));
    assert_eq!(parse_number(&b"0042".to_vec()), Some(42));
    assert_eq!(parse_number(&b"4294967295".to_vec()), Some(4294967295));
    assert_eq!(parse_digits(&b"ab12".to_vec(), 2), Some(12));
}

#[test]
fn what_is_no_numeral_is_refused() {
    assert_eq!(parse_number(&b"".to_vec()), None);
    assert_eq!(parse_number(&b"+".to_vec()), None);
    assert_eq!(parse_number(&b"-1".to_vec()), None);
    assert_eq!(parse_number(&b"12a".to_vec()), None);
    assert_eq!(parse_number(&b"1 ".to_vec()), None);
    assert_eq!(parse_number(&b"5\n".to_vec()), None);
    assert_eq!(parse_number(&b"4294967296".to_vec()), None);
    assert_eq!(parse_number(&b"99999999999999999999".to_vec()), None);
    assert_eq!(parse_digits(&b"12".to_vec(), 2), None);
}

#[test]
fn numerals_are_written_exactly() {
    assert_eq!(decimal_string(0), "0");
    assert_eq!(decimal_string(9), "9");
    assert_eq!(decimal_string(10), "10");
    assert_eq!(decimal_string(1337), "1337");
    assert_eq!(decimal_string(4294967295), "4294967295");
    let mut out = b"n=".to_vec();
    push_decimal(205, &mut out);
    assert_eq!(out, b"n=205".to_vec());
}

#[test]
fn writing_then_reading_gives_the_number_back() {
    for n in [0u32, 1, 9, 10, 99, 100, 12345, 4294967295] {
        assert_eq!(parse_number(&decimal_string(n).into_bytes()), Some(n));
    }
}

#[test]
fn ascii_bytes_become_their_characters() {
    assert_eq!(ascii_string(b"get_input".to_vec()), "get_input");
    assert_eq!(ascii_string(Vec::new()), "");
}
