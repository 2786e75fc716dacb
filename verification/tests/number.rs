use allium::number::{parse_i32, parse_trimmed_u32};

#[test]
fn a_number_read_from_a_file_may_carry_whitespace() {
    assert_eq!(parse_trimmed_u32("42\n"), Some(42));
    assert_eq!(parse_trimmed_u32("  +7 "), Some(7));
    assert_eq!(parse_trimmed_u32("4294967295"), Some(u32::MAX));
    assert_eq!(parse_trimmed_u32("4294967296"), None);
    assert_eq!(parse_trimmed_u32("-1"), None);
    assert_eq!(parse_trimmed_u32("1 2"), None);
    assert_eq!(parse_trimmed_u32(" \t"), None);
}

#[test]
fn signed_numbers_parse_as_i32_does() {
    let p = |t: &str| {
        let s: Vec<char> = t.chars().collect();
        parse_i32(&s, 0, s.len())
    };
    assert_eq!(p("300"), Some(300));
    assert_eq!(p("+7"), Some(7));
    assert_eq!(p("-2147483648"), Some(i32::MIN));
    assert_eq!(p("2147483647"), Some(i32::MAX));
    assert_eq!(p("2147483648"), None);
    assert_eq!(p("-2147483649"), None);
    assert_eq!(p("-"), None);
    assert_eq!(p("-+1"), None);
    assert_eq!(p(" 1"), None);
    assert_eq!(p(""), None);
}
