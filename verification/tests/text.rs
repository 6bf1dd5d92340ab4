use departments::http::{shape_of_path, PathShape};
use departments::text::{begins_with, chars_of, parse_unsigned, same_text};

#[test]
fn characters_not_bytes() {
    assert_eq!(chars_of("né*"), vec!['n', 'é', '*']);
    assert_eq!(chars_of(""), Vec::<char>::new());
}

#[test]
fn same_text_compares_all() {
    assert!(same_text("", ""));
    assert!(same_text("name", "name"));
    assert!(!same_text("name", "Name"));
    assert!(!same_text("name", "names"));
    assert!(!same_text("names", "name"));
}

#[test]
fn begins_with_is_a_prefix_test() {
    assert!(begins_with("abc", ""));
    assert!(begins_with("abc", "ab"));
    assert!(begins_with("abc", "abc"));
    assert!(!begins_with("abc", "abcd"));
    assert!(!begins_with("abc", "b"));
    assert!(begins_with("éa", "é"));
}

#[test]
fn unsigned_literals() {
    let parse = |text: &str, max: u64| parse_unsigned(&text.chars().collect(), max);
    assert_eq!(parse("0", 0), Some(0));
    assert_eq!(parse("1", 0), None);
    assert_eq!(parse("255", 255), Some(255));
    assert_eq!(parse("256", 255), None);
    assert_eq!(parse("0000000000000000000000255", 255), Some(255));
    assert_eq!(parse("+255", 255), Some(255));
    assert_eq!(parse("++255", 255), None);
    assert_eq!(parse("25+5", 255), None);
    assert_eq!(parse("", 255), None);
    assert_eq!(parse("+", 255), None);
    assert_eq!(parse("99999999999999999999999999", u64::MAX), None);
    assert_eq!(parse("18446744073709551615", u64::MAX), Some(u64::MAX));
}

#[test]
fn shape_from_path_and_decoded_segment() {
    assert_eq!(shape_of_path("/", ""), PathShape::Collection);
    assert_eq!(shape_of_path("/", "5"), PathShape::Collection);
    assert_eq!(shape_of_path("/%35", "5"), PathShape::Item(5));
    assert_eq!(shape_of_path("/5", "x"), PathShape::Other);
    assert_eq!(shape_of_path("/5/6", "5"), PathShape::Other);
    assert_eq!(shape_of_path("5", "5"), PathShape::Other);
    assert_eq!(shape_of_path("", "5"), PathShape::Other);
}
