use pact_core::json::{Json, JsonKind};
use pact_core::text::{
    chars_of, concat3, concat5, concat7, concat9, decimal_text, equal_ignoring_case, find_pair,
    find_pair_ignoring_case, parse_decimal, string_of,
};

fn s(text: &str) -> String {
    text.to_string()
}

#[test]
fn numbers_are_written_and_read_in_decimal() {
    assert_eq!(decimal_text(0), "0");
    assert_eq!(decimal_text(7), "7");
    assert_eq!(decimal_text(10), "10");
    assert_eq!(decimal_text(65535), "65535");
    assert_eq!(decimal_text(usize::MAX), usize::MAX.to_string());
    assert_eq!(parse_decimal(&chars_of("0")), Some(0));
    assert_eq!(parse_decimal(&chars_of("007")), Some(7));
    assert_eq!(parse_decimal(&chars_of(&usize::MAX.to_string())), Some(usize::MAX));
    assert_eq!(parse_decimal(&chars_of(&format!("{}0", usize::MAX))), None);
    assert_eq!(parse_decimal(&chars_of("18446744073709551616")), None);
    assert_eq!(parse_decimal(&chars_of("")), None);
    assert_eq!(parse_decimal(&chars_of("1a")), None);
    assert_eq!(parse_decimal(&chars_of("+1")), None);
}

#[test]
fn strings_are_taken_apart_and_put_together() {
    assert_eq!(chars_of("h\u{e9}"), vec!['h', '\u{e9}']);
    assert_eq!(string_of(&vec!['a', '\u{1F600}']), "a\u{1F600}");
    assert_eq!(string_of(&chars_of("")), "");
    assert!(equal_ignoring_case("Content-Type", "content-type"));
    assert!(!equal_ignoring_case("a", "b"));
    assert_eq!(concat3("a", "b", "c"), "abc");
    assert_eq!(concat5("a", "b", "c", "d", "e"), "abcde");
    assert_eq!(concat7("a", "b", "c", "d", "e", "f", "g"), "abcdefg");
    assert_eq!(concat9("a", "b", "c", "d", "e", "f", "g", "h", "i"), "abcdefghi");
}

#[test]
fn the_first_entry_of_a_name_is_found() {
    let pairs = vec![(s("a"), s("1")), (s("B"), s("2")), (s("b"), s("3")), (s("a"), s("4"))];
    assert_eq!(find_pair(&pairs, "a"), 0);
    assert_eq!(find_pair(&pairs, "b"), 2);
    assert_eq!(find_pair(&pairs, "c"), 4);
    assert_eq!(find_pair_ignoring_case(&pairs, "b"), 1);
    assert_eq!(find_pair_ignoring_case(&pairs, "A"), 0);
    assert_eq!(find_pair_ignoring_case(&pairs, "c"), 4);
}

#[test]
fn json_is_read_and_printed() {
    let json =
        Json::parse(b" {\"b\": [1, 2.50, -3e2, true, null, \"x\"], \"a\": {\"k\": \"v\"}} ").unwrap();
    assert_eq!(json.kind(), JsonKind::Object);
    assert_eq!(json.to_text(), "{\"b\":[1,2.5,-300.0,true,null,\"x\"],\"a\":{\"k\":\"v\"}}");
    assert_eq!(json.get("a").unwrap().get("k"), Some(&Json::Str(s("v"))));
    assert_eq!(json.get("c"), None);
    assert_eq!(json.get("a").unwrap().get("k").unwrap().get("x"), None);
    assert_eq!(json.clone(), json);
    match json.get("b").unwrap() {
        Json::Array(items) => {
            assert_eq!(items[0], Json::Number(s("1")));
            assert_eq!(items[1], Json::Number(s("2.5")));
            assert_eq!(items[3], Json::Bool(true));
            assert_eq!(items[4], Json::Null);
            assert_eq!(items[0].kind(), JsonKind::Number);
            assert_eq!(items[3].kind(), JsonKind::Bool);
            assert_eq!(items[4].kind(), JsonKind::Null);
            assert_eq!(items[5].kind(), JsonKind::Str);
            assert_eq!(items[5].as_text(), "x");
            assert_eq!(items[1].as_text(), "2.5");
        },
        other => panic!("no array: {:?}", other),
    }
    assert_eq!(Json::parse(b"[1,").err(), Some(s("EOF while parsing a value at line 1 column 3")));
    assert_eq!(Json::Number(s("not a number")).to_text(), "null");
    let doubled = Json::Object(vec![(s("a"), Json::Null), (s("a"), Json::Bool(true))]);
    assert_eq!(doubled.get("a"), Some(&Json::Null));
}
