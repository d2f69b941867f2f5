use nicwatch::text::{
    chars_of, contains_char, contains_str, eq_ignore_case, find, find_str, lines, lower_chars,
    parse_hex, parse_i32, parse_i64, parse_u32, parse_u64, push_decimal, push_hex2, push_signed,
    push_zero_padded, rfind, same_chars, split_on, starts_with, str_eq, string_of,
    strip_hex_prefix, sub_chars, to_ascii_upper, trim_chars, upper_chars, words,
};

fn c(s: &str) -> Vec<char> {
    chars_of(s)
}

fn texts(v: Vec<Vec<char>>) -> Vec<String> {
    v.iter().map(|w| string_of(w)).collect()
}

#[test]
fn numbers_are_written_in_decimal_and_hex() {
    let mut s = String::new();
    push_decimal(&mut s, 0);
    s.push(' ');
    push_decimal(&mut s, 18446744073709551615);
    s.push(' ');
    push_signed(&mut s, -42);
    s.push(' ');
    push_zero_padded(&mut s, 7, 3);
    s.push(' ');
    push_zero_padded(&mut s, 12345, 2);
    s.push(' ');
    push_hex2(&mut s, 0x0a);
    assert_eq!(s, "0 18446744073709551615 -42 007 12345 0a");
}

#[test]
fn numbers_are_read_as_str_parse_does() {
    assert_eq!(parse_u32(&c("42")), Some(42));
    assert_eq!(parse_u32(&c("+42")), Some(42));
    assert_eq!(parse_u32(&c("-1")), None);
    assert_eq!(parse_u32(&c("4294967295")), Some(u32::MAX));
    assert_eq!(parse_u32(&c("4294967296")), None);
    assert_eq!(parse_u32(&c("")), None);
    assert_eq!(parse_u32(&c("+")), None);
    assert_eq!(parse_u32(&c(" 1")), None);
    assert_eq!(parse_i32(&c("-2147483648")), Some(i32::MIN));
    assert_eq!(parse_i32(&c("2147483648")), None);
    assert_eq!(parse_i32(&c("-")), None);
    assert_eq!(parse_u64(&c("18446744073709551615")), Some(u64::MAX));
    assert_eq!(parse_u64(&c("18446744073709551616")), None);
    assert_eq!(parse_i64(&c("-9223372036854775808")), Some(i64::MIN));
    assert_eq!(parse_i64(&c("12a")), None);
}

#[test]
fn hex_reading() {
    assert_eq!(parse_hex(&c("ff"), 255), Some(255));
    assert_eq!(parse_hex(&c("FF"), 255), Some(255));
    assert_eq!(parse_hex(&c("100"), 255), None);
    assert_eq!(parse_hex(&c("+a"), 255), Some(10));
    assert_eq!(parse_hex(&c("g"), 255), None);
    assert_eq!(parse_hex(&c(""), 255), None);
    assert_eq!(string_of(&strip_hex_prefix(&c("0x0x1f"))), "1f");
    assert_eq!(string_of(&strip_hex_prefix(&c("1f"))), "1f");
}

#[test]
fn searching() {
    assert!(str_eq("abc", "abc"));
    assert!(!str_eq("abc", "abd"));
    assert!(starts_with(&c("fe80::1"), "fe80:"));
    assert!(!starts_with(&c("fe"), "fe80:"));
    assert!(contains_char(&c("a:b"), ':'));
    assert_eq!(rfind(&c("a:b:c"), ':'), Some(3));
    assert_eq!(find(&c("a:b:c"), ':'), Some(1));
    assert_eq!(find(&c("abc"), ':'), None);
    assert!(contains_str(&c("hello world"), "o w"));
    assert!(contains_str(&c("x"), ""));
    assert!(!contains_str(&c("hello"), "world"));
    assert_eq!(find_str(&c("flags=8843 flags=1"), "flags="), Some(0));
    assert_eq!(find_str(&c("ab ether x"), "ether "), Some(3));
    assert_eq!(string_of(&sub_chars(&c("abcdef"), 1, 4)), "bcd");
}

#[test]
fn case_and_trimming() {
    assert_eq!(to_ascii_upper('q'), 'Q');
    assert_eq!(to_ascii_upper('é'), 'é');
    assert_eq!(string_of(&upper_chars(&c("Time_wait"))), "TIME_WAIT");
    assert_eq!(string_of(&lower_chars(&c("PermitRootLogin"))), "permitrootlogin");
    assert!(eq_ignore_case(&c("FireFox"), "firefox"));
    assert!(!eq_ignore_case(&c("firefo"), "firefox"));
    assert!(same_chars(&c("ab"), &c("ab")));
    assert_eq!(string_of(&trim_chars(&c("  \t12345\n"))), "12345");
    assert_eq!(string_of(&trim_chars(&c("   "))), "");
}

#[test]
fn splitting() {
    assert_eq!(texts(split_on(&c("a.b..c"), '.')), vec!["a", "b", "", "c"]);
    assert_eq!(texts(split_on(&c(""), '.')), vec![""]);
    assert_eq!(texts(words(&c("  root  sshd\t812 \n"))), vec!["root", "sshd", "812"]);
    assert!(words(&c(" \n ")).is_empty());
    assert_eq!(texts(lines(&c("a\nb\r\n\nc"))), vec!["a", "b", "", "c"]);
    assert_eq!(texts(lines(&c("a\n"))), vec!["a"]);
    assert!(lines(&c("")).is_empty());
}
