use makishima::text::{parse_number, parse_string, push_decimal, push_escaped};

fn chars(s: &str) -> Vec<char> {
    s.chars().collect()
}

#[test]
fn escaping_writes_json_string_bodies() {
    let mut out = chars("x");
    push_escaped(&mut out, &chars("a\"b\\c\td\u{0}é"));
    let s: String = out.iter().collect();
    assert_eq!(s, "xa\\\"b\\\\c\\u0009d\\u0000é");
}

#[test]
fn string_bodies_read_back() {
    let t = chars("ab\\\"c\\\\\\u001f\"rest");
    let (s, end) = parse_string(&t, 0).unwrap();
    assert_eq!(s, chars("ab\"c\\\u{1f}"));
    assert_eq!(end, 14);
    assert_eq!(parse_string(&chars("x\"\""), 1), Some((vec![], 2)));
}

#[test]
fn string_bodies_refuse_other_escapes() {
    assert_eq!(parse_string(&chars("a\\n\""), 0), None);
    assert_eq!(parse_string(&chars("\\u0041\""), 0), None);
    assert_eq!(parse_string(&chars("\\u001F\""), 0), None);
    assert_eq!(parse_string(&chars("unterminated"), 0), None);
    assert_eq!(parse_string(&chars("a\u{1}\""), 0), None);
}

#[test]
fn decimals_write_and_read() {
    let mut out = Vec::new();
    push_decimal(&mut out, 0);
    out.push(',');
    push_decimal(&mut out, 18446744073709551615);
    let s: String = out.iter().collect();
    assert_eq!(s, "0,18446744073709551615");
    assert_eq!(parse_number(&out, 0), Some((0, 1)));
    assert_eq!(parse_number(&out, 2), Some((u64::MAX, 22)));
}

#[test]
fn numbers_refuse_leading_zeros_and_overflow() {
    assert_eq!(parse_number(&chars("007"), 0), None);
    assert_eq!(parse_number(&chars("18446744073709551616"), 0), None);
    assert_eq!(parse_number(&chars("x1"), 0), None);
    assert_eq!(parse_number(&chars("x1"), 1), Some((1, 2)));
    assert_eq!(parse_number(&chars(""), 0), None);
}
