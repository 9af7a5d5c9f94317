use raytracer::decimal::parse_usize;
use raytracer::text::{is_word, split_chars, tokenize_line};

fn strings(v: &[&str]) -> Vec<String> {
    v.iter().map(|s| s.to_string()).collect()
}

#[test]
fn tokenize_vertex_line() {
    let (id, data) = tokenize_line(String::from("v 1.0 -2.5 3"));
    assert_eq!(id, "v");
    assert_eq!(data, strings(&["1.0", "-2.5", "3"]));
}

#[test]
fn tokenize_empty_line() {
    let (id, data) = tokenize_line(String::new());
    assert_eq!(id, "");
    assert!(data.is_empty());
}

#[test]
fn tokenize_keeps_empty_pieces() {
    let (id, data) = tokenize_line(String::from("f  1 "));
    assert_eq!(id, "f");
    assert_eq!(data, strings(&["", "1", ""]));
}

#[test]
fn split_matches_str_split() {
    for s in ["a/b//c", "", "/", "abc", "1/2/3", "é/ü"] {
        let expected: Vec<String> = s.split('/').map(|p| p.to_string()).collect();
        assert_eq!(split_chars(s, '/'), expected);
    }
}

#[test]
fn word_comparison() {
    assert!(is_word("usemtl", &['u', 's', 'e', 'm', 't', 'l']));
    assert!(!is_word("usemt", &['u', 's', 'e', 'm', 't', 'l']));
    assert!(!is_word("vt", &['v']));
    assert!(is_word("", &[]));
}

#[test]
fn parse_plain_numbers() {
    assert_eq!(parse_usize("42"), Some(42));
    assert_eq!(parse_usize("0"), Some(0));
    assert_eq!(parse_usize("+7"), Some(7));
    assert_eq!(parse_usize("007"), Some(7));
}

#[test]
fn parse_rejects_malformed_numbers() {
    assert_eq!(parse_usize(""), None);
    assert_eq!(parse_usize("+"), None);
    assert_eq!(parse_usize("-1"), None);
    assert_eq!(parse_usize("1a"), None);
    assert_eq!(parse_usize(" 1"), None);
    assert_eq!(parse_usize("++1"), None);
}

#[test]
fn parse_largest_number() {
    let max = usize::MAX.to_string();
    assert_eq!(parse_usize(&max), Some(usize::MAX));
    let over = format!("{}0", max);
    assert_eq!(parse_usize(&over), None);
}

#[test]
fn parse_agrees_with_std() {
    for s in ["12", "+3", "-0", "", "+", "99999999999999999999999", "7x", "0010"] {
        assert_eq!(parse_usize(s), s.parse::<usize>().ok());
    }
}
