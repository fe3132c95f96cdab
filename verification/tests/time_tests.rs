use whatspace::ident::contains_id;
use whatspace::text::{decimal_text, endpoint, eq_ignore_ascii_case, is_whitespace, same_text, split_at_marks, split_words};
use whatspace::time::Timestamp;

fn at(secs: i64, nanos: u32) -> Timestamp {
    Timestamp::new(secs, nanos).unwrap()
}

#[test]
fn timestamps_are_those_of_the_calendar() {
    assert!(Timestamp::new(-8_334_601_228_800, 0).is_some());
    assert!(Timestamp::new(-8_334_601_228_801, 0).is_none());
    assert!(Timestamp::new(8_210_266_876_799, 999_999_999).is_some());
    assert!(Timestamp::new(8_210_266_876_800, 0).is_none());
    assert!(Timestamp::new(59, 1_999_999_999).is_some());
    assert!(Timestamp::new(-1, 1_000_000_000).is_some());
    assert!(Timestamp::new(58, 1_000_000_000).is_none());
    assert!(Timestamp::new(59, 2_000_000_000).is_none());
    let t = at(-5, 7);
    assert_eq!(t.secs(), -5);
    assert_eq!(t.nanos(), 7);
}

#[test]
fn calendar_bounds_agree_with_chrono() {
    for (secs, nanos) in [
        (-8_334_601_228_800, 0),
        (-8_334_601_228_801, 0),
        (8_210_266_876_799, 0),
        (8_210_266_876_800, 0),
        (119, 1_500_000_000),
        (120, 1_500_000_000),
        (0, 2_000_000_000),
    ] {
        let theirs = chrono::DateTime::from_timestamp(secs, nanos).is_some();
        assert_eq!(Timestamp::new(secs, nanos).is_some(), theirs);
    }
}

#[test]
fn part_seconds_are_dropped_towards_zero() {
    assert_eq!(at(10, 0).seconds_since(at(3, 0)), 7);
    assert_eq!(at(10, 0).seconds_since(at(3, 1)), 6);
    assert_eq!(at(3, 1).seconds_since(at(10, 0)), -6);
    assert_eq!(at(3, 0).seconds_since(at(10, 0)), -7);
    assert_eq!(at(3, 0).seconds_since(at(3, 999_999_999)), 0);
}

#[test]
fn leap_seconds_count_within_a_day() {
    let inside = at(59, 1_000_000_000);
    assert_eq!(at(60, 0).seconds_since(inside), 1);
    assert_eq!(inside.seconds_since(at(60, 0)), -1);
    assert_eq!(at(59, 0).seconds_since(inside), -1);
    assert_eq!(at(86_400, 0).seconds_since(inside), 86_340);
}

#[test]
fn widest_span_fits() {
    let first = at(-8_334_601_228_800, 0);
    let last = at(8_210_266_876_799, 0);
    assert_eq!(last.seconds_since(first), 16_544_868_105_599);
}

#[test]
fn numbers_and_endpoints_are_decimal() {
    assert_eq!(decimal_text(0), "0");
    assert_eq!(decimal_text(7), "7");
    assert_eq!(decimal_text(10), "10");
    assert_eq!(decimal_text(65535), "65535");
    assert_eq!(endpoint("127.0.0.1", 9100), "127.0.0.1:9100");
    assert_eq!(endpoint("", 0), ":0");
}

#[test]
fn texts_compare() {
    assert!(same_text("serve", "serve"));
    assert!(!same_text("serve", "Serve"));
    assert!(eq_ignore_ascii_case("ExIt", "exit"));
    assert!(!eq_ignore_ascii_case("exits", "exit"));
    assert!(!eq_ignore_ascii_case("ÉXIT", "éxit"));
    assert!(!eq_ignore_ascii_case("[", "{"));
}

#[test]
fn lines_split_into_words() {
    let none: Vec<String> = vec![];
    assert_eq!(split_words(""), none);
    assert_eq!(split_words(" \t\r\n"), none);
    assert_eq!(split_words("  peers alice\tadd  bob \n"), vec!["peers", "alice", "add", "bob"]);
    assert_eq!(split_words("a\u{a0}b\u{2003}越"), vec!["a", "b", "越"]);
}

#[test]
fn white_space_is_that_of_unicode() {
    let mut listed: Vec<u32> = vec![0x20, 0x85, 0xa0, 0x1680, 0x2028, 0x2029, 0x202f, 0x205f, 0x3000];
    listed.extend(0x9..=0xd);
    listed.extend(0x2000..=0x200a);
    for code in 0..=0x10ffff_u32 {
        if let Some(c) = char::from_u32(code) {
            let found = split_words(&c.to_string());
            assert_eq!(found.is_empty(), listed.contains(&code));
            assert_eq!(is_whitespace(c), c.is_whitespace());
        }
    }
}

#[test]
fn texts_split_at_marks() {
    let marks = vec![false, true, false, false, true, true];
    assert_eq!(split_at_marks("abcdef", &marks), vec!["a", "cd"]);
}

#[test]
fn identifiers_are_found_in_lists() {
    assert!(contains_id(&[1, 2, 3], 3));
    assert!(!contains_id(&[1, 2, 3], 4));
    assert!(!contains_id(&[], 0));
}
