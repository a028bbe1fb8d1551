use std::collections::HashSet;

use elysium::id::{is_all_digits, parse_handle, FileId};

fn id(vpath: &str) -> FileId {
    FileId::new(None, String::from(vpath))
}

#[test]
fn digits_write_a_handle() {
    assert_eq!(parse_handle(b"42"), Some(42));
    assert_eq!(parse_handle(b"0"), Some(0));
    assert_eq!(parse_handle(b"007"), Some(7));
    assert_eq!(parse_handle(b"1234567890"), Some(1234567890));
}

#[test]
fn anything_else_writes_no_handle() {
    assert_eq!(parse_handle(b""), None);
    assert_eq!(parse_handle(b"4a"), None);
    assert_eq!(parse_handle(b"a4"), None);
    assert_eq!(parse_handle(b"+42"), None);
    assert_eq!(parse_handle(b"-1"), None);
    assert_eq!(parse_handle(b"4 2"), None);
    assert_eq!(parse_handle(b"/42"), None);
    assert_eq!(parse_handle("４２".as_bytes()), None);
}

#[test]
fn handle_stops_at_the_largest_u64() {
    assert_eq!(parse_handle(b"18446744073709551615"), Some(u64::MAX));
    assert_eq!(parse_handle(b"18446744073709551616"), None);
    assert_eq!(parse_handle(b"99999999999999999999999999"), None);
    assert_eq!(parse_handle(b"000000000000000000000000000001"), Some(1));
    assert_eq!(parse_handle(b"184467440737095516150"), None);
}

#[test]
fn overflowing_digits_followed_by_a_letter_are_no_digits() {
    assert_eq!(parse_handle(b"99999999999999999999999999x"), None);
    assert!(!is_all_digits(b"99999999999999999999999999x"));
}

#[test]
fn digits_alone_are_reserved() {
    assert!(is_all_digits(b"42"));
    assert!(is_all_digits(b"99999999999999999999999999"));
    assert!(!is_all_digits(b""));
    assert!(!is_all_digits(b"42.typ"));
    assert!(id("42").is_reserved());
    assert!(id("99999999999999999999999999").is_reserved());
    assert!(!id("main.typ").is_reserved());
    assert!(!id("dir/42").is_reserved());
    assert!(!id("").is_reserved());
}

#[test]
fn identifier_handle() {
    assert_eq!(id("42").handle(), Some(42));
    assert_eq!(id("main.typ").handle(), None);
    assert_eq!(id("99999999999999999999999999").handle(), None);
}

#[test]
fn identifiers_are_equal_by_value() {
    let a = FileId::new(Some(String::from("@local/pkg:0.1.0")), String::from("lib.typ"));
    let b = FileId::new(Some(String::from("@local/pkg:0.1.0")), String::from("lib.typ"));
    let c = FileId::new(None, String::from("lib.typ"));
    let d = FileId::new(Some(String::from("@local/pkg:0.2.0")), String::from("lib.typ"));
    let e = FileId::new(Some(String::from("@local/pkg:0.1.0")), String::from("main.typ"));
    assert!(a.same(&b));
    assert_eq!(a, b);
    assert_eq!(a.clone(), a);
    assert!(!a.same(&c));
    assert_ne!(a, c);
    assert_ne!(c, a);
    assert_ne!(a, d);
    assert_ne!(a, e);
}

#[test]
fn identifiers_hash_by_value() {
    let mut seen = HashSet::new();
    assert!(seen.insert(FileId::new(None, String::from("a.typ"))));
    assert!(!seen.insert(FileId::new(None, String::from("a.typ"))));
    assert!(seen.insert(FileId::new(Some(String::from("@local/p:1.0.0")), String::from("a.typ"))));
    assert!(!seen.insert(FileId::new(Some(String::from("@local/p:1.0.0")), String::from("a.typ"))));
    assert!(seen.insert(FileId::new(None, String::from("b.typ"))));
    assert_eq!(seen.len(), 3);
    assert!(seen.contains(&FileId::new(None, String::from("b.typ"))));
}
