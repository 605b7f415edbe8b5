use pact_core::content_type::{is_json, is_json_resource, media_type, normalize};
use pact_core::json::Json;
use pact_core::match_json::{match_json, text_includes};
use pact_core::matching::{
    match_body, match_headers, match_method, match_path, match_query, match_request,
    match_response, match_status,
};
use pact_core::mismatch::{Mismatch, MismatchKind};
use pact_core::models::{Matchers, OptionalBody, Request, Response};
use pact_core::path_exp::{
    best_rule, is_more_specific, obj_key_for_path, parse_path_exp, parse_rule_paths,
    path_applies, path_string, rule_category, rules_of_category, PathToken,
};
use pact_core::regex_util::is_match;

fn s(text: &str) -> String {
    text.to_string()
}

fn rule(pairs: &[(&str, &str)]) -> Vec<(String, String)> {
    pairs.iter().map(|(k, v)| (s(k), s(v))).collect()
}

fn rules(entries: &[(&str, &[(&str, &str)])]) -> Matchers {
    let mut out = Matchers::new();
    for (path, attributes) in entries {
        out.insert(s(path), rule(attributes));
    }
    out
}

fn json(text: &str) -> Json {
    Json::parse(text.as_bytes()).unwrap()
}

fn body_point() -> Vec<PathToken> {
    vec![PathToken::Field(s("body"))]
}

fn kinds(found: &[Mismatch]) -> Vec<MismatchKind> {
    found.iter().map(|m| m.kind()).collect()
}

fn paths(found: &[Mismatch]) -> Vec<String> {
    found
        .iter()
        .map(|m| match m {
            Mismatch::BodyMismatch { path, .. } => path.clone(),
            other => panic!("no body mismatch: {:?}", other),
        })
        .collect()
}

fn headers(pairs: &[(&str, &str)]) -> Option<Vec<(String, String)>> {
    Some(rule(pairs))
}

#[test]
fn literal_header_matches_itself() {
    let expected = headers(&[("Content-Type", "application/json")]);
    let actual = headers(&[("Content-Type", "application/json")]);
    assert_eq!(match_headers(&expected, &actual, &Matchers::new()), vec![]);
}

#[test]
fn regex_header_matches_several_values() {
    let expected = headers(&[("Content-Type", "application/json")]);
    let rules =
        rules(&[("$.headers.Content-Type", &[("match", "regex"), ("regex", "application/.*")])]);
    let xml = headers(&[("Content-Type", "application/xml")]);
    assert_eq!(match_headers(&expected, &xml, &rules), vec![]);
    let html = headers(&[("Content-Type", "text/html")]);
    assert_eq!(
        match_headers(&expected, &html, &rules),
        vec![Mismatch::HeaderMismatch {
            key: s("Content-Type"),
            expected: s("application/json"),
            actual: s("text/html"),
            mismatch: s("Expected the header to match the regular expression"),
        }]
    );
}

#[test]
fn headers_are_held_together_without_regard_to_case_and_blanks() {
    let expected = headers(&[("Accept", "a, b,c"), ("accept", "ignored"), ("X-Id", "1")]);
    let actual = headers(&[("x-id", "1"), ("ACCEPT", " a,b ,  c "), ("Extra", "e")]);
    assert_eq!(match_headers(&expected, &actual, &Matchers::new()), vec![]);
    let other = headers(&[("accept", "a,b")]);
    let found = match_headers(&expected, &other, &Matchers::new());
    assert_eq!(
        found,
        vec![
            Mismatch::HeaderMismatch {
                key: s("Accept"),
                expected: s("a, b,c"),
                actual: s("a,b"),
                mismatch: s("Expected the header values to be equal"),
            },
            Mismatch::HeaderMismatch {
                key: s("X-Id"),
                expected: s("1"),
                actual: s(""),
                mismatch: s("Expected a header that is missing"),
            }
        ]
    );
    assert_eq!(match_headers(&None, &actual, &Matchers::new()), vec![]);
    assert_eq!(match_headers(&expected, &None, &Matchers::new()).len(), 2);
}

#[test]
fn headers_under_rules_for_type_and_inclusion() {
    let expected = headers(&[("X-Id", "abc"), ("X-Part", "whole")]);
    let rules = rules(&[
        ("$.headers['X-Id']", &[("match", "type")]),
        ("$.headers['X-Part']", &[("match", "include"), ("value", "art")]),
    ]);
    let good = headers(&[("X-Id", "anything at all"), ("X-Part", "a part of it")]);
    assert_eq!(match_headers(&expected, &good, &rules), vec![]);
    let bad = headers(&[("X-Id", ""), ("X-Part", "whole")]);
    assert_eq!(
        match_headers(&expected, &bad, &rules),
        vec![Mismatch::HeaderMismatch {
            key: s("X-Part"),
            expected: s("whole"),
            actual: s("whole"),
            mismatch: s("Expected the header to include the given text"),
        }]
    );
}

#[test]
fn header_values_are_normalized_around_commas() {
    assert_eq!(normalize(" a , b,c "), "a,b,c");
    assert_eq!(normalize(""), "");
    assert_eq!(normalize(","), ",");
    assert_eq!(normalize("a b"), "a b");
    assert_eq!(normalize("\ta\t,\tb"), "a,b");
}

#[test]
fn plain_text_body_matches_by_bytes() {
    let expected = OptionalBody::Present(b"Hello".to_vec());
    let same = OptionalBody::Present(b"Hello".to_vec());
    let other = OptionalBody::Present(b"Bye".to_vec());
    let none = Matchers::new();
    assert_eq!(match_body(&None, &expected, &None, &same, &none), vec![]);
    assert_eq!(
        match_body(&None, &expected, &None, &other, &none),
        vec![Mismatch::BodyMismatch {
            path: s("$.body"),
            expected: s("Hello"),
            actual: s("Bye"),
            mismatch: s("Expected the bodies to be equal"),
        }]
    );
    let by_regex = rules(&[("$.body", &[("match", "regex"), ("regex", "^B")])]);
    assert_eq!(match_body(&None, &expected, &None, &other, &by_regex), vec![]);
    assert_eq!(kinds(&match_body(&None, &expected, &None, &same, &by_regex)), vec![MismatchKind::Body]);
}

#[test]
fn bodies_of_different_types_are_not_held_together() {
    let expected = OptionalBody::Present(b"Hello".to_vec());
    let actual = OptionalBody::Present(b"{\"a\":1}".to_vec());
    assert_eq!(
        match_body(&None, &expected, &None, &actual, &Matchers::new()),
        vec![Mismatch::BodyTypeMismatch { expected: s("text/plain"), actual: s("application/json") }]
    );
    let declared = headers(&[("content-type", "Application/JSON; charset=utf-8")]);
    let also = headers(&[("Content-Type", "application/json")]);
    let json_body = OptionalBody::Present(b"{\"a\": 1}".to_vec());
    assert_eq!(match_body(&declared, &json_body, &also, &actual, &Matchers::new()), vec![]);
}

#[test]
fn missing_and_empty_bodies() {
    let none = Matchers::new();
    let present = OptionalBody::Present(b"x".to_vec());
    assert_eq!(match_body(&None, &OptionalBody::Missing, &None, &present, &none), vec![]);
    assert_eq!(match_body(&None, &OptionalBody::Empty, &None, &OptionalBody::Missing, &none), vec![]);
    assert_eq!(match_body(&None, &OptionalBody::Null, &None, &OptionalBody::Empty, &none), vec![]);
    assert_eq!(
        match_body(&None, &OptionalBody::Empty, &None, &present, &none),
        vec![Mismatch::BodyMismatch {
            path: s("$.body"),
            expected: s(""),
            actual: s("x"),
            mismatch: s("Expected an empty body"),
        }]
    );
    assert_eq!(
        match_body(&None, &present, &None, &OptionalBody::Missing, &none),
        vec![Mismatch::BodyMismatch {
            path: s("$.body"),
            expected: s("x"),
            actual: s(""),
            mismatch: s("Expected a body but there was none"),
        }]
    );
    assert_eq!(
        match_body(&None, &OptionalBody::Empty, &None, &OptionalBody::Present(vec![]), &none),
        vec![]
    );
}

#[test]
fn json_like_type() {
    let expected = json("{\"message\": \"Hello\"}");
    let rules = rules(&[("$.body.message", &[("match", "type")])]);
    assert_eq!(
        match_json(&body_point(), &expected, &json("{\"message\": \"Goodbye\"}"), &rules),
        vec![]
    );
    let found = match_json(&body_point(), &expected, &json("{\"message\": false}"), &rules);
    assert_eq!(paths(&found), vec![s("$.body.message")]);
}

#[test]
fn json_array_like_with_min() {
    let expected = json("[\"hello\", \"hello\"]");
    let rules = rules(&[
        ("$.body", &[("match", "type"), ("min", "2")]),
        ("$.body[*]", &[("match", "type")]),
    ]);
    assert_eq!(
        match_json(&body_point(), &expected, &json("[\"a\", \"b\", \"c\"]"), &rules),
        vec![]
    );
    let found = match_json(&body_point(), &expected, &json("[\"a\"]"), &rules);
    assert_eq!(paths(&found), vec![s("$.body")]);
    let found = match_json(&body_point(), &expected, &json("[1, 2]"), &rules);
    assert_eq!(found.len(), 1);
    assert_eq!(kinds(&found), vec![MismatchKind::Body]);
    let found = match_json(&body_point(), &expected, &json("{}"), &rules);
    assert_eq!(paths(&found), vec![s("$.body")]);
}

#[test]
fn json_array_with_max() {
    let expected = json("[1]");
    let rules = rules(&[("$.body", &[("match", "type"), ("max", "2")])]);
    assert_eq!(match_json(&body_point(), &expected, &json("[]"), &rules), vec![]);
    assert_eq!(match_json(&body_point(), &expected, &json("[5, 6]"), &rules), vec![]);
    let found = match_json(&body_point(), &expected, &json("[5, 6, 7]"), &rules);
    assert_eq!(
        found,
        vec![Mismatch::BodyMismatch {
            path: s("$.body"),
            expected: s("[1]"),
            actual: s("[5,6,7]"),
            mismatch: s("Expected the array to have at most the maximum number of elements"),
        }]
    );
}

#[test]
fn json_equality_descends_to_the_place_that_differs() {
    let expected = json("{\"a\": {\"b\": [1, {\"c\": true}]}, \"d\": null}");
    let none = Matchers::new();
    assert_eq!(match_json(&body_point(), &expected, &expected.clone(), &none), vec![]);
    let actual = json("{\"d\": null, \"a\": {\"b\": [1, {\"c\": false}]}}");
    let found = match_json(&body_point(), &expected, &actual, &none);
    assert_eq!(
        found,
        vec![Mismatch::BodyMismatch {
            path: s("$.body.a.b[1].c"),
            expected: s("true"),
            actual: s("false"),
            mismatch: s("Expected the values to be equal"),
        }]
    );
    let actual = json("{\"a\": {\"b\": [1]}, \"e\": 2, \"not an identifier\": 3}");
    let found = match_json(&body_point(), &expected, &actual, &none);
    assert_eq!(
        paths(&found),
        vec![
            s("$.body.a.b"),
            s("$.body.d"),
            s("$.body.e"),
            s("$.body['not an identifier']")
        ]
    );
}

#[test]
fn json_matchers_that_look_at_the_value_alone() {
    let expected = json("{\"n\": 1, \"d\": 1.5, \"z\": null, \"s\": \"hello world\", \"r\": \"ab\"}");
    let rules = rules(&[
        ("$.body.n", &[("match", "integer")]),
        ("$.body.d", &[("match", "decimal")]),
        ("$.body.z", &[("match", "null")]),
        ("$.body.s", &[("match", "include"), ("value", "lo w")]),
        ("$.body.r", &[("match", "regex"), ("regex", "^[a-z]+$")]),
    ]);
    let good = json("{\"n\": -42, \"d\": 0.25, \"z\": null, \"s\": \"hello wall\", \"r\": \"xyz\"}");
    assert_eq!(match_json(&body_point(), &expected, &good, &rules), vec![]);
    let bad = json("{\"n\": 4.2, \"d\": 25, \"z\": 0, \"s\": \"low\", \"r\": \"XYZ\"}");
    let found = match_json(&body_point(), &expected, &bad, &rules);
    assert_eq!(
        paths(&found),
        vec![s("$.body.n"), s("$.body.d"), s("$.body.z"), s("$.body.s"), s("$.body.r")]
    );
    let wrong = json("{\"n\": \"1\", \"d\": \"1.5\", \"z\": \"\", \"s\": 5, \"r\": 7}");
    assert_eq!(match_json(&body_point(), &expected, &wrong, &rules).len(), 5);
    let broken = self::rules(&[("$.body.r", &[("match", "regex"), ("regex", "[")])]);
    assert_eq!(
        paths(&match_json(&body_point(), &json("{\"r\":\"a\"}"), &json("{\"r\":\"a\"}"), &broken)),
        vec![s("$.body.r")]
    );
}

#[test]
fn a_rule_counts_below_its_place_until_a_more_specific_one_does() {
    let expected = json("{\"a\": {\"b\": 1, \"c\": \"x\"}}");
    let rules = rules(&[
        ("$.body.a", &[("match", "type")]),
        ("$.body.a.c", &[("match", "equality")]),
    ]);
    assert_eq!(
        match_json(&body_point(), &expected, &json("{\"a\": {\"b\": 2, \"c\": \"x\"}}"), &rules),
        vec![]
    );
    let found =
        match_json(&body_point(), &expected, &json("{\"a\": {\"b\": 2, \"c\": \"y\"}}"), &rules);
    assert_eq!(paths(&found), vec![s("$.body.a.c")]);
}

fn tokens(expression: &str) -> Vec<PathToken> {
    parse_path_exp(expression).unwrap()
}

#[test]
fn path_expressions_are_read_step_by_step() {
    assert_eq!(tokens("$"), vec![]);
    assert_eq!(
        tokens("$.body.items[*].id"),
        vec![
            PathToken::Field(s("body")),
            PathToken::Field(s("items")),
            PathToken::AnyIndex,
            PathToken::Field(s("id"))
        ]
    );
    assert_eq!(
        tokens("$.headers['Content-Type'][12].*"),
        vec![
            PathToken::Field(s("headers")),
            PathToken::Field(s("Content-Type")),
            PathToken::Index(12),
            PathToken::AnyField
        ]
    );
    assert_eq!(tokens("$.headers.Content-Type"), vec![
        PathToken::Field(s("headers")),
        PathToken::Field(s("Content-Type"))
    ]);
    assert_eq!(parse_path_exp(""), None);
    assert_eq!(parse_path_exp("body"), None);
    assert_eq!(parse_path_exp("$."), None);
    assert_eq!(parse_path_exp("$[a]"), None);
    assert_eq!(parse_path_exp("$[1"), None);
    assert_eq!(parse_path_exp("$['a'"), None);
    assert_eq!(parse_path_exp("$x"), None);
    assert_eq!(parse_path_exp("$[99999999999999999999999999]"), None);
}

#[test]
fn paths_are_written_as_they_are_read() {
    assert_eq!(path_string(&tokens("$")), "$");
    assert_eq!(path_string(&tokens("$.a[0]['b c'][*].*")), "$.a[0]['b c'][*].*");
    assert_eq!(path_string(&tokens("$.headers.Content-Type")), "$.headers['Content-Type']");
    assert_eq!(obj_key_for_path("name"), ".name");
    assert_eq!(obj_key_for_path("_n9"), "._n9");
    assert_eq!(obj_key_for_path("9n"), "['9n']");
    assert_eq!(obj_key_for_path(""), "['']");
    assert_eq!(obj_key_for_path("Content-Type"), "['Content-Type']");
}

#[test]
fn the_most_specific_rule_counts_and_of_equals_the_latest() {
    let point = tokens("$.body.items[3].id");
    assert!(path_applies(&tokens("$.body"), &point));
    assert!(path_applies(&tokens("$.body.items[*].id"), &point));
    assert!(path_applies(&tokens("$.*.items[3].*"), &point));
    assert!(!path_applies(&tokens("$.body.items[2]"), &point));
    assert!(!path_applies(&tokens("$.body.items[3].id.x"), &point));
    assert!(!path_applies(&tokens("$.body.items.*"), &point));
    assert!(is_more_specific(&tokens("$.body.items[3]"), &tokens("$.body.items[*]")));
    assert!(is_more_specific(&tokens("$.body.items[*]"), &tokens("$.body.items")));
    assert!(is_more_specific(&tokens("$.body.x"), &tokens("$.*.x.y.z")));
    assert!(!is_more_specific(&tokens("$.a.b"), &tokens("$.c.d")));
    assert!(!is_more_specific(&tokens("$.a[*]"), &tokens("$.a.*")));

    let all = rules(&[
        ("$.body", &[("match", "type")]),
        ("$.body.items[*].id", &[("match", "regex")]),
        ("not a path", &[("match", "type")]),
        ("$.body.items[3].*", &[("match", "integer")]),
        ("$.body.items[*]", &[("match", "type")]),
        ("$.body.items[3].id", &[("match", "a")]),
        ("$.body.items[3].id", &[("match", "b")]),
        ("$.body.other", &[("match", "type")]),
    ]);
    let parsed = parse_rule_paths(&all);
    assert_eq!(best_rule(&parsed, &point), Some(6));
    assert_eq!(best_rule(&parsed, &tokens("$.body.items[3].name")), Some(3));
    assert_eq!(best_rule(&parsed, &tokens("$.body.items[2].id")), Some(1));
    assert_eq!(best_rule(&parsed, &tokens("$.body.items[2]")), Some(4));
    assert_eq!(best_rule(&parsed, &tokens("$.body.things")), Some(0));
    assert_eq!(best_rule(&parsed, &tokens("$.path")), None);
    assert_eq!(all.get("$.body.items[3].id"), Some(&rule(&[("match", "b")])));
}

#[test]
fn taking_out_a_less_specific_rule_changes_nothing() {
    let expected = json("{\"a\": [{\"b\": 1}]}");
    let actual = json("{\"a\": [{\"b\": \"x\"}]}");
    let both = rules(&[
        ("$.body.a[*].b", &[("match", "type")]),
        ("$.body.a[0].b", &[("match", "equality")]),
    ]);
    let only = rules(&[("$.body.a[0].b", &[("match", "equality")])]);
    assert_eq!(
        match_json(&body_point(), &expected, &actual, &both),
        match_json(&body_point(), &expected, &actual, &only)
    );
    assert_eq!(match_json(&body_point(), &expected, &actual, &both).len(), 1);
}

#[test]
fn methods_match_without_regard_to_case() {
    assert_eq!(match_method("GET", "get"), vec![]);
    assert_eq!(
        match_method("GET", "POST"),
        vec![Mismatch::MethodMismatch { expected: s("GET"), actual: s("POST") }]
    );
}

#[test]
fn paths_match_by_equality_or_by_regex() {
    let none = Matchers::new();
    assert_eq!(match_path("/a", "/a", &none), vec![]);
    assert_eq!(
        match_path("/a", "/b", &none),
        vec![Mismatch::PathMismatch {
            expected: s("/a"),
            actual: s("/b"),
            mismatch: s("Expected the paths to be equal"),
        }]
    );
    let by_regex = rules(&[("$.path", &[("match", "regex"), ("regex", "^/[0-9]+$")])]);
    assert_eq!(match_path("/1", "/234", &by_regex), vec![]);
    assert_eq!(kinds(&match_path("/1", "/x", &by_regex)), vec![MismatchKind::Path]);
    let by_type = rules(&[("$.path", &[("match", "type")])]);
    assert_eq!(kinds(&match_path("/1", "/x", &by_type)), vec![MismatchKind::Path]);
}

#[test]
fn status_codes_match_by_equality() {
    assert_eq!(match_status(200, 200), vec![]);
    assert_eq!(
        match_status(200, 404),
        vec![Mismatch::StatusMismatch { expected: 200, actual: 404 }]
    );
}

fn query(pairs: &[(&str, &[&str])]) -> Option<Vec<(String, Vec<String>)>> {
    Some(pairs.iter().map(|(k, v)| (s(k), v.iter().map(|x| s(x)).collect())).collect())
}

#[test]
fn queries_match_parameter_by_parameter() {
    let none = Matchers::new();
    let expected = query(&[("a", &["1", "2"]), ("b", &["x"])]);
    assert_eq!(match_query(&expected, &query(&[("b", &["x"]), ("a", &["1", "2"])]), &none), vec![]);
    assert_eq!(match_query(&None, &None, &none), vec![]);
    let found = match_query(&expected, &query(&[("a", &["2", "1"]), ("c", &["y"])]), &none);
    assert_eq!(
        found,
        vec![
            Mismatch::QueryMismatch {
                parameter: s("a"),
                expected: s("1,2"),
                actual: s("2,1"),
                mismatch: s("Expected the query parameter to have the same values"),
            },
            Mismatch::QueryMismatch {
                parameter: s("b"),
                expected: s("x"),
                actual: s(""),
                mismatch: s("Expected a query parameter that is missing"),
            },
            Mismatch::QueryMismatch {
                parameter: s("c"),
                expected: s(""),
                actual: s("y"),
                mismatch: s("Found a query parameter that is not expected"),
            }
        ]
    );
    assert_eq!(match_query(&expected, &None, &none).len(), 2);
    assert_eq!(match_query(&None, &expected, &none).len(), 2);
    let by_type = rules(&[("$.query.a", &[("match", "type")])]);
    assert_eq!(
        match_query(&expected, &query(&[("a", &["9", "8"]), ("b", &["x"])]), &by_type),
        vec![]
    );
    assert_eq!(
        kinds(&match_query(&expected, &query(&[("a", &["9"]), ("b", &["x"])]), &by_type)),
        vec![MismatchKind::Query]
    );
}

fn request(method: &str, path: &str) -> Request {
    Request { method: s(method), path: s(path), ..Request::default() }
}

#[test]
fn a_copied_request_matches() {
    let mut expected = request("POST", "/things");
    expected.query = query(&[("q", &["1", "2"])]);
    expected.headers = headers(&[("Content-Type", "application/json"), ("content-type", "x")]);
    expected.body = OptionalBody::Present(b"{\"a\": [1, {\"b\": null}], \"a\": 2}".to_vec());
    expected.matching_rules =
        rules(&[("$.body.a", &[("match", "type")]), ("$.headers", &[("match", "equality")])]);
    let mut actual = expected.clone();
    actual.matching_rules = Matchers::new();
    assert_eq!(match_request(&expected, &actual), vec![]);
}

#[test]
fn values_that_satisfy_the_rules_are_alike() {
    let mut expected = request("GET", "/");
    expected.body = OptionalBody::Present(b"{\"id\": 1, \"name\": \"n\"}".to_vec());
    expected.matching_rules = rules(&[
        ("$.body.id", &[("match", "integer")]),
        ("$.body.name", &[("match", "regex"), ("regex", "^[a-z]+$")]),
    ]);
    let mut one = request("POST", "/");
    one.body = OptionalBody::Present(b"{\"id\": 7, \"name\": \"abc\"}".to_vec());
    let mut other = request("POST", "/");
    other.body = OptionalBody::Present(b"{\"name\": \"z\", \"id\": -3}".to_vec());
    assert_eq!(match_request(&expected, &one), match_request(&expected, &other));
    assert_eq!(kinds(&match_request(&expected, &one)), vec![MismatchKind::Method]);
}

#[test]
fn mismatches_come_in_the_order_of_the_parts() {
    let mut expected = request("GET", "/a");
    expected.query = query(&[("q", &["1"])]);
    expected.headers = headers(&[("H", "1")]);
    expected.body = OptionalBody::Present(b"x".to_vec());
    let mut actual = request("PUT", "/b");
    actual.body = OptionalBody::Present(b"y".to_vec());
    assert_eq!(
        kinds(&match_request(&expected, &actual)),
        vec![
            MismatchKind::Method,
            MismatchKind::Path,
            MismatchKind::Query,
            MismatchKind::Header,
            MismatchKind::Body
        ]
    );
    let found = match_request(&expected, &actual);
    assert_eq!(found[0].mismatch_type(), "MethodMismatch");
    assert_eq!(found[1].mismatch_type(), "PathMismatch");
    assert_eq!(found[2].mismatch_type(), "QueryMismatch");
    assert_eq!(found[3].mismatch_type(), "HeaderMismatch");
    assert_eq!(found[4].mismatch_type(), "BodyMismatch");
}

#[test]
fn responses_match_by_status_headers_and_body() {
    let mut expected = Response::default();
    expected.headers = headers(&[("Content-Type", "text/plain")]);
    expected.body = OptionalBody::Present(b"ok".to_vec());
    let mut actual = expected.clone();
    assert_eq!(match_response(&expected, &actual), vec![]);
    actual.status = 500;
    actual.headers = headers(&[("Content-Type", "text/html")]);
    let found = match_response(&expected, &actual);
    assert_eq!(
        kinds(&found),
        vec![MismatchKind::Status, MismatchKind::Header, MismatchKind::BodyType]
    );
    assert_eq!(found[0].mismatch_type(), "StatusMismatch");
    assert_eq!(found[2].mismatch_type(), "BodyTypeMismatch");
}

#[test]
fn media_types_are_read_from_header_values() {
    assert_eq!(media_type("application/hal+json; charset=utf-8"), "application/hal+json");
    assert_eq!(media_type("  Text/HTML  "), "text/html");
    assert_eq!(media_type(";x"), "");
    assert!(is_json("application/json"));
    assert!(is_json("application/jsonp"));
    assert!(is_json("application/hal+json"));
    assert!(!is_json("application/"));
    assert!(!is_json("text/plain"));
    assert!(is_json_resource("application/json"));
    assert!(is_json_resource("application/hal+json"));
    assert!(!is_json_resource("application/jsonp"));
    assert!(!is_json_resource("application/+json"));
    assert!(!is_json_resource("text/json"));
}

#[test]
fn regular_expressions_and_inclusion() {
    assert!(is_match("^a+$", "aaa"));
    assert!(!is_match("^a+$", "aab"));
    assert!(!is_match("(", "("));
    assert!(text_includes("hello", "ell"));
    assert!(text_includes("hello", ""));
    assert!(text_includes("hello", "hello"));
    assert!(!text_includes("hello", "hellos"));
    assert!(!text_includes("hello", "elo"));
}

#[test]
fn rules_belong_to_the_part_that_their_path_starts_in() {
    assert_eq!(rule_category("$.body.items[*].id"), Some(s("body")));
    assert_eq!(rule_category("$.headers['Content-Type']"), Some(s("headers")));
    assert_eq!(rule_category("$['query'].q"), Some(s("query")));
    assert_eq!(rule_category("$.path"), Some(s("path")));
    assert_eq!(rule_category("$"), None);
    assert_eq!(rule_category("$[0].body"), None);
    assert_eq!(rule_category("$.*"), None);
    assert_eq!(rule_category("body"), None);
    let all = rules(&[
        ("$.body.a", &[("match", "type")]),
        ("$.headers.X", &[("match", "regex"), ("regex", "x")]),
        ("$.body", &[("match", "equality")]),
        ("no path", &[("match", "type")]),
    ]);
    let of_body = rules_of_category(&all, "body");
    assert_eq!(of_body.len(), 2);
    assert_eq!(of_body.get("$.body.a"), Some(&rule(&[("match", "type")])));
    assert_eq!(of_body.get("$.body"), Some(&rule(&[("match", "equality")])));
    assert_eq!(rules_of_category(&all, "headers").len(), 1);
    assert_eq!(rules_of_category(&all, "query").len(), 0);
}
