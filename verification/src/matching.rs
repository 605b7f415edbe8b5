//! Matching of an actual request or response against an expected one:
//! method, path, query, headers and body, in this order.

use crate::content_type::{is_json, is_json_media, media_type, media_type_of, normalize, normalized};
use crate::json::{json_parse_result, Json};
use crate::match_json::{
    includes, match_json, matcher_for, matcher_of, node_mismatches, option_rule, text_includes,
    Matcher,
};
use crate::mismatch::{
    append_mismatches, no_mismatches, one_mismatch, Mismatch, MismatchView,
};
use crate::models::{
    attribute, find_param, option_query, query_view, rule_attribute, same_bytes,
    same_strings, BodyView, Matchers, MatchersView,
    OptionalBody, Query, QueryView, Request, RequestView, Response, ResponseView, Rule,
    RuleView,
};
use crate::path_exp::{
    best_rule, best_upto_applies, parse_rule_paths, paths_view, rule_paths, selected_rule,
    PathToken, PathView, TokenView,
};
use crate::regex_util::{is_match, matches_regex};
use crate::text::{
    equal_ignoring_case, find_pair_ignoring_case, join, joined, key_position,
    key_position_ignoring_case, lossy_string, lowercase, option_pairs, pairs_view, strings_view,
    text_of_bytes, views,
};
use vstd::prelude::*;

verus! {

/// The place of a part of a message, such as `$.path` or `$.body`.
pub open spec fn part_point(part: Seq<char>) -> PathView {
    seq![TokenView::Field(part)]
}

/// The place of a named item of a part of a message, such as
/// `$.headers.Accept`.
pub open spec fn item_point(part: Seq<char>, name: Seq<char>) -> PathView {
    seq![TokenView::Field(part), TokenView::Field(name)]
}

/// Whether the rule that counts at a place asks for a regular expression
/// and the text matches the one it gives.
pub open spec fn regex_rule_passes(rule: Option<RuleView>, text: Seq<char>) -> bool {
    match rule {
        Some(r) => match attribute(r, "regex"@) {
            Some(pattern) => matches_regex(pattern, text),
            None => false,
        },
        None => false,
    }
}

/// The mismatch of two methods: none where they are equal but for case.
pub open spec fn method_mismatches(expected: Seq<char>, actual: Seq<char>) -> Seq<MismatchView> {
    if lowercase(expected) == lowercase(actual) {
        Seq::empty()
    } else {
        seq![MismatchView::MethodMismatch { expected, actual }]
    }
}

/// The mismatch of two paths: none where they are equal or, under a rule
/// for `$.path` that asks for a regular expression, where the actual path
/// matches it.
pub open spec fn path_mismatches(expected: Seq<char>, actual: Seq<char>, rules: MatchersView) -> Seq<
    MismatchView,
> {
    let rule = selected_rule(rules, part_point("path"@));
    if matcher_of(rule) == Matcher::Regex {
        if regex_rule_passes(rule, actual) {
            Seq::empty()
        } else {
            seq![
                MismatchView::PathMismatch {
                    expected,
                    actual,
                    mismatch: "Expected the path to match the regular expression"@,
                },
            ]
        }
    } else if expected == actual {
        Seq::empty()
    } else {
        seq![
            MismatchView::PathMismatch {
                expected,
                actual,
                mismatch: "Expected the paths to be equal"@,
            },
        ]
    }
}

/// The mismatch of two status codes.
pub open spec fn status_mismatches(expected: u16, actual: u16) -> Seq<MismatchView> {
    if expected == actual {
        Seq::empty()
    } else {
        seq![MismatchView::StatusMismatch { expected, actual }]
    }
}

/// The entries of a query that may be absent.
pub open spec fn query_entries(query: Option<QueryView>) -> QueryView {
    match query {
        Some(q) => q,
        None => Seq::empty(),
    }
}

/// The mismatch of the values of one query parameter: none where they are
/// the same in the same order or, under a rule that asks for the type
/// alone, where they are as many.
pub open spec fn values_mismatches(
    name: Seq<char>,
    expected: Seq<Seq<char>>,
    actual: Seq<Seq<char>>,
    rules: MatchersView,
) -> Seq<MismatchView> {
    let rule = selected_rule(rules, item_point("query"@, name));
    if matcher_of(rule) == Matcher::Type {
        if expected.len() == actual.len() {
            Seq::empty()
        } else {
            seq![
                MismatchView::QueryMismatch {
                    parameter: name,
                    expected: joined(expected, ","@),
                    actual: joined(actual, ","@),
                    mismatch: "Expected the query parameter to have as many values"@,
                },
            ]
        }
    } else if expected == actual {
        Seq::empty()
    } else {
        seq![
            MismatchView::QueryMismatch {
                parameter: name,
                expected: joined(expected, ","@),
                actual: joined(actual, ","@),
                mismatch: "Expected the query parameter to have the same values"@,
            },
        ]
    }
}

/// The mismatches of the expected query parameters from position `i` on.
/// A parameter whose name stands earlier in the query does not count; one
/// that the actual query lacks is one mismatch.
pub open spec fn expected_params_from(
    expected: QueryView,
    actual: QueryView,
    rules: MatchersView,
    i: int,
) -> Seq<MismatchView>
    decreases expected.len() - i,
{
    if i < 0 || i >= expected.len() {
        Seq::empty()
    } else {
        let name = expected[i].0;
        let at = key_position(actual, name, 0);
        let here = if key_position(expected, name, 0) != i {
            Seq::empty()
        } else if 0 <= at < actual.len() {
            values_mismatches(name, expected[i].1, actual[at].1, rules)
        } else {
            seq![
                MismatchView::QueryMismatch {
                    parameter: name,
                    expected: joined(expected[i].1, ","@),
                    actual: Seq::empty(),
                    mismatch: "Expected a query parameter that is missing"@,
                },
            ]
        };
        here + expected_params_from(expected, actual, rules, i + 1)
    }
}

/// One mismatch for each actual query parameter from position `j` on
/// whose name the expected query lacks.
pub open spec fn unexpected_params_from(expected: QueryView, actual: QueryView, j: int) -> Seq<
    MismatchView,
>
    decreases actual.len() - j,
{
    if j < 0 || j >= actual.len() {
        Seq::empty()
    } else {
        let name = actual[j].0;
        let here = if key_position(actual, name, 0) == j && key_position(expected, name, 0)
            >= expected.len() {
            seq![
                MismatchView::QueryMismatch {
                    parameter: name,
                    expected: Seq::empty(),
                    actual: joined(actual[j].1, ","@),
                    mismatch: "Found a query parameter that is not expected"@,
                },
            ]
        } else {
            Seq::empty()
        };
        here + unexpected_params_from(expected, actual, j + 1)
    }
}

/// The mismatches of two queries: those of the expected parameters, then
/// one for each parameter that is not expected.
pub open spec fn query_mismatches(
    expected: Option<QueryView>,
    actual: Option<QueryView>,
    rules: MatchersView,
) -> Seq<MismatchView> {
    expected_params_from(query_entries(expected), query_entries(actual), rules, 0)
        + unexpected_params_from(query_entries(expected), query_entries(actual), 0)
}

/// The entries of a table that may be absent.
pub open spec fn table_entries(table: Option<Seq<(Seq<char>, Seq<char>)>>) -> Seq<
    (Seq<char>, Seq<char>),
> {
    match table {
        Some(t) => t,
        None => Seq::empty(),
    }
}

/// Whether the rule that counts at a place gives a text that the given
/// text holds.
pub open spec fn include_rule_passes(rule: Option<RuleView>, text: Seq<char>) -> bool {
    match rule {
        Some(r) => match attribute(r, "value"@) {
            Some(part) => includes(text, part),
            None => false,
        },
        None => false,
    }
}

/// The mismatch of the values of one header. Under a rule that asks for
/// a regular expression the actual value must match it; under one that
/// asks for the type any value will do; under one that asks for a text
/// to be included the actual value must hold it. Else the values must be
/// equal but for blanks around commas.
pub open spec fn header_value_mismatches(
    name: Seq<char>,
    expected: Seq<char>,
    actual: Seq<char>,
    rules: MatchersView,
) -> Seq<MismatchView> {
    let rule = selected_rule(rules, item_point("headers"@, name));
    if matcher_of(rule) == Matcher::Regex {
        if regex_rule_passes(rule, actual) {
            Seq::empty()
        } else {
            seq![
                MismatchView::HeaderMismatch {
                    key: name,
                    expected,
                    actual,
                    mismatch: "Expected the header to match the regular expression"@,
                },
            ]
        }
    } else if matcher_of(rule) == Matcher::Type {
        Seq::empty()
    } else if matcher_of(rule) == Matcher::Include {
        if include_rule_passes(rule, actual) {
            Seq::empty()
        } else {
            seq![
                MismatchView::HeaderMismatch {
                    key: name,
                    expected,
                    actual,
                    mismatch: "Expected the header to include the given text"@,
                },
            ]
        }
    } else if normalized(expected) == normalized(actual) {
        Seq::empty()
    } else {
        seq![
            MismatchView::HeaderMismatch {
                key: name,
                expected,
                actual,
                mismatch: "Expected the header values to be equal"@,
            },
        ]
    }
}

/// The mismatches of the expected headers from position `i` on. Names
/// are held together without regard to case. A header whose name stands
/// earlier among the expected ones does not count; one that the actual
/// message lacks is one mismatch. Headers that are not expected are none.
pub open spec fn headers_from(
    expected: Seq<(Seq<char>, Seq<char>)>,
    actual: Seq<(Seq<char>, Seq<char>)>,
    rules: MatchersView,
    i: int,
) -> Seq<MismatchView>
    decreases expected.len() - i,
{
    if i < 0 || i >= expected.len() {
        Seq::empty()
    } else {
        let name = expected[i].0;
        let at = key_position_ignoring_case(actual, name, 0);
        let here = if key_position_ignoring_case(expected, name, 0) != i {
            Seq::empty()
        } else if 0 <= at < actual.len() {
            header_value_mismatches(name, expected[i].1, actual[at].1, rules)
        } else {
            seq![
                MismatchView::HeaderMismatch {
                    key: name,
                    expected: expected[i].1,
                    actual: Seq::empty(),
                    mismatch: "Expected a header that is missing"@,
                },
            ]
        };
        here + headers_from(expected, actual, rules, i + 1)
    }
}

/// The mismatches of two sets of headers.
pub open spec fn headers_mismatches(
    expected: Option<Seq<(Seq<char>, Seq<char>)>>,
    actual: Option<Seq<(Seq<char>, Seq<char>)>>,
    rules: MatchersView,
) -> Seq<MismatchView> {
    headers_from(table_entries(expected), table_entries(actual), rules, 0)
}

/// The media type of a body: that of the `Content-Type` header where
/// there is one, else JSON where the body can be read as JSON and plain
/// text where it cannot.
pub open spec fn body_media_type(headers: Option<Seq<(Seq<char>, Seq<char>)>>, body: Seq<u8>) -> Seq<
    char,
> {
    let entries = table_entries(headers);
    let at = key_position_ignoring_case(entries, "Content-Type"@, 0);
    if 0 <= at < entries.len() {
        media_type_of(entries[at].1)
    } else if json_parse_result(body) is Ok {
        "application/json"@
    } else {
        "text/plain"@
    }
}

/// A mismatch of two bodies as wholes.
pub open spec fn whole_body_mismatch(expected: Seq<char>, actual: Seq<char>, mismatch: Seq<char>) -> Seq<
    MismatchView,
> {
    seq![MismatchView::BodyMismatch { path: "$.body"@, expected, actual, mismatch }]
}

/// The mismatch of two bodies held together byte by byte: none where
/// they are equal or, under a rule for `$.body` that asks for a regular
/// expression, where the actual body matches it.
pub open spec fn raw_body_mismatches(expected: Seq<u8>, actual: Seq<u8>, rules: MatchersView) -> Seq<
    MismatchView,
> {
    let rule = selected_rule(rules, part_point("body"@));
    if matcher_of(rule) == Matcher::Regex {
        if regex_rule_passes(rule, text_of_bytes(actual)) {
            Seq::empty()
        } else {
            whole_body_mismatch(
                text_of_bytes(expected),
                text_of_bytes(actual),
                "Expected the body to match the regular expression"@,
            )
        }
    } else if expected == actual {
        Seq::empty()
    } else {
        whole_body_mismatch(
            text_of_bytes(expected),
            text_of_bytes(actual),
            "Expected the bodies to be equal"@,
        )
    }
}

/// The mismatches of two bodies that are both there: one where their
/// media types differ; else those of the two documents where the type is
/// JSON and both can be read; else those of the bytes.
pub open spec fn present_body_mismatches(
    expected_headers: Option<Seq<(Seq<char>, Seq<char>)>>,
    expected: Seq<u8>,
    actual_headers: Option<Seq<(Seq<char>, Seq<char>)>>,
    actual: Seq<u8>,
    rules: MatchersView,
) -> Seq<MismatchView> {
    let expected_type = body_media_type(expected_headers, expected);
    let actual_type = body_media_type(actual_headers, actual);
    if expected_type != actual_type {
        seq![MismatchView::BodyTypeMismatch { expected: expected_type, actual: actual_type }]
    } else if is_json_media(expected_type) {
        match (json_parse_result(expected), json_parse_result(actual)) {
            (Ok(e), Ok(a)) => node_mismatches(part_point("body"@), e, a, rules),
            _ => raw_body_mismatches(expected, actual, rules),
        }
    } else {
        raw_body_mismatches(expected, actual, rules)
    }
}

/// The mismatches of two bodies. Where no body is expected, any will do.
/// Where an empty or null body is expected, a body with bytes is a
/// mismatch. Where a body with bytes is expected, the actual message must
/// have one too.
pub open spec fn body_mismatches(
    expected_headers: Option<Seq<(Seq<char>, Seq<char>)>>,
    expected: BodyView,
    actual_headers: Option<Seq<(Seq<char>, Seq<char>)>>,
    actual: BodyView,
    rules: MatchersView,
) -> Seq<MismatchView> {
    match expected {
        BodyView::Missing => Seq::empty(),
        BodyView::Present(e) => match actual {
            BodyView::Present(a) => present_body_mismatches(
                expected_headers,
                e,
                actual_headers,
                a,
                rules,
            ),
            _ => whole_body_mismatch(
                text_of_bytes(e),
                Seq::empty(),
                "Expected a body but there was none"@,
            ),
        },
        _ => match actual {
            BodyView::Present(a) => if a.len() > 0 {
                whole_body_mismatch(Seq::empty(), text_of_bytes(a), "Expected an empty body"@)
            } else {
                Seq::empty()
            },
            _ => Seq::empty(),
        },
    }
}

/// The mismatches of an actual request against an expected one, under
/// the rules of the expected one: method, path, query, headers, body.
pub open spec fn request_mismatches(expected: RequestView, actual: RequestView) -> Seq<
    MismatchView,
> {
    method_mismatches(expected.method, actual.method) + path_mismatches(
        expected.path,
        actual.path,
        expected.matching_rules,
    ) + query_mismatches(expected.query, actual.query, expected.matching_rules)
        + headers_mismatches(expected.headers, actual.headers, expected.matching_rules)
        + body_mismatches(
        expected.headers,
        expected.body,
        actual.headers,
        actual.body,
        expected.matching_rules,
    )
}

/// The mismatches of an actual response against an expected one, under
/// the rules of the expected one: status, headers, body.
pub open spec fn response_mismatches(expected: ResponseView, actual: ResponseView) -> Seq<
    MismatchView,
> {
    status_mismatches(expected.status, actual.status) + headers_mismatches(
        expected.headers,
        actual.headers,
        expected.matching_rules,
    ) + body_mismatches(
        expected.headers,
        expected.body,
        actual.headers,
        actual.body,
        expected.matching_rules,
    )
}

fn part_path(part: &str) -> (point: Vec<PathToken>)
    ensures
        views(point@) == part_point(part@),
{
    let mut point: Vec<PathToken> = Vec::new();
    point.push(PathToken::Field(String::from_str(part)));
    assert(views(point@) =~= part_point(part@));
    point
}

fn item_path(part: &str, name: &str) -> (point: Vec<PathToken>)
    ensures
        views(point@) == item_point(part@, name@),
{
    let mut point: Vec<PathToken> = Vec::new();
    point.push(PathToken::Field(String::from_str(part)));
    point.push(PathToken::Field(String::from_str(name)));
    assert(views(point@) =~= item_point(part@, name@));
    point
}

fn rule_at<'a>(rules: &'a Matchers, point: &Vec<PathToken>) -> (rule: Option<&'a Rule>)
    ensures
        option_rule(rule) == selected_rule(rules@, views(point@)),
{
    let paths = parse_rule_paths(rules);
    let best = best_rule(&paths, point);
    proof {
        best_upto_applies(paths_view(paths@), views(point@), paths@.len() as int);
        assert(paths_view(paths@).len() == paths@.len());
        assert(rule_paths(rules@).len() == rules.entries@.len());
    }
    match best {
        Some(b) => Some(&rules.entries[b].1),
        None => None,
    }
}

fn regex_passes(rule: Option<&Rule>, text: &str) -> (r: bool)
    ensures
        r == regex_rule_passes(option_rule(rule), text@),
{
    match rule {
        Some(r) => match rule_attribute(r, "regex") {
            Some(pattern) => is_match(pattern.as_str(), text),
            None => false,
        },
        None => false,
    }
}

fn include_passes(rule: Option<&Rule>, text: &str) -> (r: bool)
    ensures
        r == include_rule_passes(option_rule(rule), text@),
{
    match rule {
        Some(r) => match rule_attribute(r, "value") {
            Some(part) => text_includes(text, part.as_str()),
            None => false,
        },
        None => false,
    }
}

/// Holds an actual method against the expected one, without regard to
/// case.
pub fn match_method(expected: &str, actual: &str) -> (out: Vec<Mismatch>)
    ensures
        views(out@) == method_mismatches(expected@, actual@),
{
    if equal_ignoring_case(expected, actual) {
        no_mismatches()
    } else {
        one_mismatch(
            Mismatch::MethodMismatch {
                expected: String::from_str(expected),
                actual: String::from_str(actual),
            },
        )
    }
}

/// Holds an actual path against the expected one: by the regular
/// expression of a rule for `$.path` where there is one, else by equality.
pub fn match_path(expected: &str, actual: &str, rules: &Matchers) -> (out: Vec<Mismatch>)
    ensures
        views(out@) == path_mismatches(expected@, actual@, rules@),
{
    let point = part_path("path");
    let rule = rule_at(rules, &point);
    if matcher_for(rule) == Matcher::Regex {
        if regex_passes(rule, actual) {
            no_mismatches()
        } else {
            one_mismatch(
                Mismatch::PathMismatch {
                    expected: String::from_str(expected),
                    actual: String::from_str(actual),
                    mismatch: String::from_str("Expected the path to match the regular expression"),
                },
            )
        }
    } else if expected.eq(actual) {
        no_mismatches()
    } else {
        one_mismatch(
            Mismatch::PathMismatch {
                expected: String::from_str(expected),
                actual: String::from_str(actual),
                mismatch: String::from_str("Expected the paths to be equal"),
            },
        )
    }
}

/// Holds an actual status code against the expected one.
pub fn match_status(expected: u16, actual: u16) -> (out: Vec<Mismatch>)
    ensures
        views(out@) == status_mismatches(expected, actual),
{
    if expected == actual {
        no_mismatches()
    } else {
        one_mismatch(Mismatch::StatusMismatch { expected, actual })
    }
}

fn match_values(name: &str, expected: &Vec<String>, actual: &Vec<String>, rules: &Matchers) -> (out:
    Vec<Mismatch>)
    ensures
        views(out@) == values_mismatches(
            name@,
            strings_view(expected@),
            strings_view(actual@),
            rules@,
        ),
{
    let point = item_path("query", name);
    let rule = rule_at(rules, &point);
    if matcher_for(rule) == Matcher::Type {
        if expected.len() == actual.len() {
            no_mismatches()
        } else {
            one_mismatch(
                Mismatch::QueryMismatch {
                    parameter: String::from_str(name),
                    expected: join(expected, ","),
                    actual: join(actual, ","),
                    mismatch: String::from_str(
                        "Expected the query parameter to have as many values",
                    ),
                },
            )
        }
    } else if same_strings(expected, actual) {
        no_mismatches()
    } else {
        one_mismatch(
            Mismatch::QueryMismatch {
                parameter: String::from_str(name),
                expected: join(expected, ","),
                actual: join(actual, ","),
                mismatch: String::from_str("Expected the query parameter to have the same values"),
            },
        )
    }
}

fn match_params(expected: &Query, actual: &Query, rules: &Matchers) -> (out: Vec<Mismatch>)
    ensures
        views(out@) == expected_params_from(query_view(expected@), query_view(actual@), rules@, 0)
            + unexpected_params_from(query_view(expected@), query_view(actual@), 0),
{
    let ghost ev = query_view(expected@);
    let ghost av = query_view(actual@);
    let mut out = no_mismatches();
    let mut i: usize = 0;
    while i < expected.len()
        invariant
            i <= expected.len(),
            ev == query_view(expected@),
            av == query_view(actual@),
            views(out@) + expected_params_from(ev, av, rules@, i as int) == expected_params_from(
                ev,
                av,
                rules@,
                0,
            ),
        decreases expected.len() - i,
    {
        let name = expected[i].0.as_str();
        let ghost before = views(out@);
        let ghost rest = expected_params_from(ev, av, rules@, i + 1);
        if find_param(expected, name) == i {
            let at = find_param(actual, name);
            let here = if at < actual.len() {
                match_values(name, &expected[i].1, &actual[at].1, rules)
            } else {
                one_mismatch(
                    Mismatch::QueryMismatch {
                        parameter: String::from_str(name),
                        expected: join(&expected[i].1, ","),
                        actual: String::new(),
                        mismatch: String::from_str("Expected a query parameter that is missing"),
                    },
                )
            };
            proof {
                assert(before + (views(here@) + rest) =~= (before + views(here@)) + rest);
            }
            append_mismatches(&mut out, here);
        } else {
            proof {
                assert(before + (Seq::<MismatchView>::empty() + rest) =~= before + rest);
            }
        }
        i = i + 1;
    }
    let ghost first = views(out@);
    proof {
        assert(first + Seq::<MismatchView>::empty() =~= first);
    }
    let mut j: usize = 0;
    while j < actual.len()
        invariant
            j <= actual.len(),
            ev == query_view(expected@),
            av == query_view(actual@),
            first == expected_params_from(ev, av, rules@, 0),
            views(out@) + unexpected_params_from(ev, av, j as int) == first
                + unexpected_params_from(ev, av, 0),
        decreases actual.len() - j,
    {
        let name = actual[j].0.as_str();
        let ghost before = views(out@);
        let ghost rest = unexpected_params_from(ev, av, j + 1);
        if find_param(actual, name) == j && find_param(expected, name) >= expected.len() {
            let here = one_mismatch(
                Mismatch::QueryMismatch {
                    parameter: String::from_str(name),
                    expected: String::new(),
                    actual: join(&actual[j].1, ","),
                    mismatch: String::from_str("Found a query parameter that is not expected"),
                },
            );
            proof {
                assert(before + (views(here@) + rest) =~= (before + views(here@)) + rest);
            }
            append_mismatches(&mut out, here);
        } else {
            proof {
                assert(before + (Seq::<MismatchView>::empty() + rest) =~= before + rest);
            }
        }
        j = j + 1;
    }
    proof {
        assert(views(out@) + Seq::<MismatchView>::empty() =~= views(out@));
    }
    out
}

/// Holds an actual query against the expected one, parameter by
/// parameter.
pub fn match_query(expected: &Option<Query>, actual: &Option<Query>, rules: &Matchers) -> (out:
    Vec<Mismatch>)
    ensures
        views(out@) == query_mismatches(option_query(*expected), option_query(*actual), rules@),
{
    let none: Query = Vec::new();
    assert(query_view(none@) =~= QueryView::empty());
    let e = match expected {
        Some(q) => q,
        None => &none,
    };
    let a = match actual {
        Some(q) => q,
        None => &none,
    };
    match_params(e, a, rules)
}

fn match_header_value(name: &str, expected: &str, actual: &str, rules: &Matchers) -> (out: Vec<
    Mismatch,
>)
    ensures
        views(out@) == header_value_mismatches(name@, expected@, actual@, rules@),
{
    let point = item_path("headers", name);
    let rule = rule_at(rules, &point);
    if matcher_for(rule) == Matcher::Regex {
        if regex_passes(rule, actual) {
            no_mismatches()
        } else {
            one_mismatch(
                Mismatch::HeaderMismatch {
                    key: String::from_str(name),
                    expected: String::from_str(expected),
                    actual: String::from_str(actual),
                    mismatch: String::from_str(
                        "Expected the header to match the regular expression",
                    ),
                },
            )
        }
    } else if matcher_for(rule) == Matcher::Type {
        no_mismatches()
    } else if matcher_for(rule) == Matcher::Include {
        if include_passes(rule, actual) {
            no_mismatches()
        } else {
            one_mismatch(
                Mismatch::HeaderMismatch {
                    key: String::from_str(name),
                    expected: String::from_str(expected),
                    actual: String::from_str(actual),
                    mismatch: String::from_str("Expected the header to include the given text"),
                },
            )
        }
    } else if normalize(expected) == normalize(actual) {
        no_mismatches()
    } else {
        one_mismatch(
            Mismatch::HeaderMismatch {
                key: String::from_str(name),
                expected: String::from_str(expected),
                actual: String::from_str(actual),
                mismatch: String::from_str("Expected the header values to be equal"),
            },
        )
    }
}

fn match_header_entries(
    expected: &Vec<(String, String)>,
    actual: &Vec<(String, String)>,
    rules: &Matchers,
) -> (out: Vec<Mismatch>)
    ensures
        views(out@) == headers_from(pairs_view(expected@), pairs_view(actual@), rules@, 0),
{
    let ghost ev = pairs_view(expected@);
    let ghost av = pairs_view(actual@);
    let mut out = no_mismatches();
    let mut i: usize = 0;
    while i < expected.len()
        invariant
            i <= expected.len(),
            ev == pairs_view(expected@),
            av == pairs_view(actual@),
            views(out@) + headers_from(ev, av, rules@, i as int) == headers_from(ev, av, rules@, 0),
        decreases expected.len() - i,
    {
        let name = expected[i].0.as_str();
        let ghost before = views(out@);
        let ghost rest = headers_from(ev, av, rules@, i + 1);
        if find_pair_ignoring_case(expected, name) == i {
            let at = find_pair_ignoring_case(actual, name);
            let here = if at < actual.len() {
                match_header_value(name, expected[i].1.as_str(), actual[at].1.as_str(), rules)
            } else {
                one_mismatch(
                    Mismatch::HeaderMismatch {
                        key: String::from_str(name),
                        expected: expected[i].1.clone(),
                        actual: String::new(),
                        mismatch: String::from_str("Expected a header that is missing"),
                    },
                )
            };
            proof {
                assert(before + (views(here@) + rest) =~= (before + views(here@)) + rest);
            }
            append_mismatches(&mut out, here);
        } else {
            proof {
                assert(before + (Seq::<MismatchView>::empty() + rest) =~= before + rest);
            }
        }
        i = i + 1;
    }
    proof {
        assert(views(out@) + Seq::<MismatchView>::empty() =~= views(out@));
    }
    out
}

/// Holds the actual headers against the expected ones. Names count
/// without regard to case, values without regard to blanks around commas;
/// headers that are not expected are let pass.
pub fn match_headers(
    expected: &Option<Vec<(String, String)>>,
    actual: &Option<Vec<(String, String)>>,
    rules: &Matchers,
) -> (out: Vec<Mismatch>)
    ensures
        views(out@) == headers_mismatches(option_pairs(*expected), option_pairs(*actual), rules@),
{
    let none: Vec<(String, String)> = Vec::new();
    assert(pairs_view(none@) =~= Seq::<(Seq<char>, Seq<char>)>::empty());
    let e = match expected {
        Some(h) => h,
        None => &none,
    };
    let a = match actual {
        Some(h) => h,
        None => &none,
    };
    match_header_entries(e, a, rules)
}

fn media_type_for(headers: &Option<Vec<(String, String)>>, body: &Vec<u8>) -> (media: String)
    ensures
        media@ == body_media_type(option_pairs(*headers), body@),
{
    let none: Vec<(String, String)> = Vec::new();
    assert(pairs_view(none@) =~= Seq::<(Seq<char>, Seq<char>)>::empty());
    let entries = match headers {
        Some(h) => h,
        None => &none,
    };
    let at = find_pair_ignoring_case(entries, "Content-Type");
    if at < entries.len() {
        media_type(entries[at].1.as_str())
    } else {
        match Json::parse(body.as_slice()) {
            Ok(_) => String::from_str("application/json"),
            Err(_) => String::from_str("text/plain"),
        }
    }
}

fn whole_body(expected: String, actual: String, mismatch: &str) -> (out: Vec<Mismatch>)
    ensures
        views(out@) == whole_body_mismatch(expected@, actual@, mismatch@),
{
    one_mismatch(
        Mismatch::BodyMismatch {
            path: String::from_str("$.body"),
            expected,
            actual,
            mismatch: String::from_str(mismatch),
        },
    )
}

fn match_raw_body(expected: &Vec<u8>, actual: &Vec<u8>, rules: &Matchers) -> (out: Vec<Mismatch>)
    ensures
        views(out@) == raw_body_mismatches(expected@, actual@, rules@),
{
    let point = part_path("body");
    let rule = rule_at(rules, &point);
    if matcher_for(rule) == Matcher::Regex {
        let text = lossy_string(actual.as_slice());
        if regex_passes(rule, text.as_str()) {
            no_mismatches()
        } else {
            whole_body(
                lossy_string(expected.as_slice()),
                text,
                "Expected the body to match the regular expression",
            )
        }
    } else if same_bytes(expected, actual) {
        no_mismatches()
    } else {
        whole_body(
            lossy_string(expected.as_slice()),
            lossy_string(actual.as_slice()),
            "Expected the bodies to be equal",
        )
    }
}

fn match_present_body(
    expected_headers: &Option<Vec<(String, String)>>,
    expected: &Vec<u8>,
    actual_headers: &Option<Vec<(String, String)>>,
    actual: &Vec<u8>,
    rules: &Matchers,
) -> (out: Vec<Mismatch>)
    ensures
        views(out@) == present_body_mismatches(
            option_pairs(*expected_headers),
            expected@,
            option_pairs(*actual_headers),
            actual@,
            rules@,
        ),
{
    let expected_type = media_type_for(expected_headers, expected);
    let actual_type = media_type_for(actual_headers, actual);
    if expected_type != actual_type {
        one_mismatch(Mismatch::BodyTypeMismatch { expected: expected_type, actual: actual_type })
    } else if is_json(expected_type.as_str()) {
        match Json::parse(expected.as_slice()) {
            Ok(e) => match Json::parse(actual.as_slice()) {
                Ok(a) => {
                    let point = part_path("body");
                    match_json(&point, &e, &a, rules)
                },
                Err(_) => match_raw_body(expected, actual, rules),
            },
            Err(_) => match_raw_body(expected, actual, rules),
        }
    } else {
        match_raw_body(expected, actual, rules)
    }
}

/// Holds an actual body against the expected one.
pub fn match_body(
    expected_headers: &Option<Vec<(String, String)>>,
    expected: &OptionalBody,
    actual_headers: &Option<Vec<(String, String)>>,
    actual: &OptionalBody,
    rules: &Matchers,
) -> (out: Vec<Mismatch>)
    ensures
        views(out@) == body_mismatches(
            option_pairs(*expected_headers),
            expected@,
            option_pairs(*actual_headers),
            actual@,
            rules@,
        ),
{
    match expected {
        OptionalBody::Missing => no_mismatches(),
        OptionalBody::Present(e) => match actual {
            OptionalBody::Present(a) => match_present_body(
                expected_headers,
                e,
                actual_headers,
                a,
                rules,
            ),
            _ => whole_body(
                lossy_string(e.as_slice()),
                String::new(),
                "Expected a body but there was none",
            ),
        },
        _ => match actual {
            OptionalBody::Present(a) => {
                if a.len() > 0 {
                    whole_body(String::new(), lossy_string(a.as_slice()), "Expected an empty body")
                } else {
                    no_mismatches()
                }
            },
            _ => no_mismatches(),
        },
    }
}

/// Holds an actual request against an expected one, under the rules of
/// the expected one. The mismatches come in the order method, path,
/// query, headers, body; none means that the request matches.
pub fn match_request(expected: &Request, actual: &Request) -> (out: Vec<Mismatch>)
    ensures
        views(out@) == request_mismatches(expected@, actual@),
{
    let rules = &expected.matching_rules;
    let mut out = match_method(expected.method.as_str(), actual.method.as_str());
    append_mismatches(&mut out, match_path(expected.path.as_str(), actual.path.as_str(), rules));
    append_mismatches(&mut out, match_query(&expected.query, &actual.query, rules));
    append_mismatches(&mut out, match_headers(&expected.headers, &actual.headers, rules));
    append_mismatches(
        &mut out,
        match_body(&expected.headers, &expected.body, &actual.headers, &actual.body, rules),
    );
    out
}

/// Holds an actual response against an expected one, under the rules of
/// the expected one. The mismatches come in the order status, headers,
/// body; none means that the response matches.
pub fn match_response(expected: &Response, actual: &Response) -> (out: Vec<Mismatch>)
    ensures
        views(out@) == response_mismatches(expected@, actual@),
{
    let rules = &expected.matching_rules;
    let mut out = match_status(expected.status, actual.status);
    append_mismatches(&mut out, match_headers(&expected.headers, &actual.headers, rules));
    append_mismatches(
        &mut out,
        match_body(&expected.headers, &expected.body, &actual.headers, &actual.body, rules),
    );
    out
}

} // verus!
