//! What holds of the matching of requests.

use crate::json::{json_parse_result, JsonValue};
use crate::content_type::is_json_media;
use crate::match_json::{
    array_like, bound_at, children, element_point, elements_from, first_failing, matcher_of,
    member_point, members_from, node_mismatches, passes, rule_bound, unexpected_from, Matcher,
};
use crate::matching::{
    body_media_type, body_mismatches, expected_params_from, header_value_mismatches,
    headers_from, headers_mismatches, include_rule_passes, item_point, method_mismatches,
    part_point, path_mismatches, query_entries, query_mismatches, regex_rule_passes,
    request_mismatches, response_mismatches, table_entries, unexpected_params_from,
    values_mismatches,
};
use crate::mismatch::MismatchView;
use crate::models::{
    BodyView, InteractionView, MatchersView, QueryView, RequestView, ResponseView, RuleView,
};
use crate::path_exp::{best_position, best_upto_applies, rule_paths, selected_rule, PathView};
use crate::server::{dispatched, first_least, ranks, MatchResultView};
use crate::text::{
    key_position, key_position_bounds, key_position_ignoring_case, lowercase, text_of_bytes,
};
use vstd::prelude::*;

verus! {

/// Whether a rule asks for equality or for the type alone, and bounds
/// nothing.
pub open spec fn is_plain_rule(rule: RuleView) -> bool {
    &&& matcher_of(Some(rule)) == Matcher::Equality || matcher_of(Some(rule)) == Matcher::Type
    &&& rule_bound(rule, "min"@) is None
    &&& rule_bound(rule, "max"@) is None
}

/// Whether every rule of a set is plain.
pub open spec fn all_plain(rules: MatchersView) -> bool {
    forall|i: int| 0 <= i < rules.len() ==> is_plain_rule(#[trigger] rules[i].1)
}

/// Under plain rules the matcher at any place is equality or type, and
/// no bound counts there.
pub proof fn plain_rules_choose_plain(rules: MatchersView, point: PathView)
    requires
        all_plain(rules),
    ensures
        matcher_of(selected_rule(rules, point)) == Matcher::Equality || matcher_of(
            selected_rule(rules, point),
        ) == Matcher::Type,
        bound_at(rules, point, "min"@) is None,
        bound_at(rules, point, "max"@) is None,
{
    best_upto_applies(rule_paths(rules), point, rules.len() as int);
    let best = best_position(rule_paths(rules), point);
    if 0 <= best < rules.len() {
        assert(is_plain_rule(rules[best].1));
    }
}

/// The first position of the name at a position is at or before it.
pub proof fn first_position_is_early(members: Seq<(Seq<char>, JsonValue)>, i: int, from: int)
    requires
        0 <= from <= i < members.len(),
    ensures
        from <= JsonValue::position_from(members, members[i].0, from) <= i,
    decreases i - from,
{
    if members[from].0 != members[i].0 {
        first_position_is_early(members, i, from + 1);
    }
}

/// The first position of the key at a position is at or before it.
pub proof fn first_key_is_early<V>(entries: Seq<(Seq<char>, V)>, i: int, from: int)
    requires
        0 <= from <= i < entries.len(),
    ensures
        from <= key_position(entries, entries[i].0, from) <= i,
    decreases i - from,
{
    if entries[from].0 != entries[i].0 {
        first_key_is_early(entries, i, from + 1);
    }
}

/// The first position of the key at a position, but for case, is at or
/// before it.
pub proof fn first_key_ignoring_case_is_early<V>(entries: Seq<(Seq<char>, V)>, i: int, from: int)
    requires
        0 <= from <= i < entries.len(),
    ensures
        from <= key_position_ignoring_case(entries, entries[i].0, from) <= i,
    decreases i - from,
{
    if lowercase(entries[from].0) != lowercase(entries[i].0) {
        first_key_ignoring_case_is_early(entries, i, from + 1);
    }
}

/// Whether the elements of an expected array are all like its first
/// element under the rules, which is what a bound at the place of the
/// array asks of them.
pub open spec fn elements_like_first(point: PathView, ee: Seq<JsonValue>, rules: MatchersView) -> bool {
    ee.len() > 0 ==> first_failing(point, ee[0], ee, rules, 0) == Seq::<MismatchView>::empty()
}

/// Whether an expected value meets the rules that count at its place
/// and below: under a bound it is an array within the bound whose
/// elements are like the first; under a matcher that looks at the value
/// alone it passes the matcher; under equality and type its members and
/// elements meet the rules at their places.
pub open spec fn value_meets_rules(point: PathView, e: JsonValue, rules: MatchersView) -> bool
    decreases e, 1nat,
{
    let rule = selected_rule(rules, point);
    let min = bound_at(rules, point, "min"@);
    let max = bound_at(rules, point, "max"@);
    let matcher = matcher_of(rule);
    if min is Some || max is Some {
        match e {
            JsonValue::Array(ee) => {
                &&& min is Some ==> ee.len() >= min->0
                &&& max is Some ==> ee.len() <= max->0
                &&& elements_like_first(point, ee, rules)
            },
            _ => false,
        }
    } else if matcher != Matcher::Equality && matcher != Matcher::Type {
        passes(matcher, rule, e)
    } else {
        match e {
            JsonValue::Object(em) => members_meet_from(point, em, rules, 0),
            JsonValue::Array(ee) => elements_meet_from(point, ee, rules, 0),
            _ => true,
        }
    }
}

/// Whether the members of an expected object from position `i` on meet
/// the rules at their places. A member whose name stands earlier in the
/// object does not count.
pub open spec fn members_meet_from(
    point: PathView,
    em: Seq<(Seq<char>, JsonValue)>,
    rules: MatchersView,
    i: int,
) -> bool
    decreases em, em.len() - i,
{
    if i < 0 || i >= em.len() {
        true
    } else {
        &&& JsonValue::position(em, em[i].0) == i ==> value_meets_rules(
            member_point(point, em[i].0),
            em[i].1,
            rules,
        )
        &&& members_meet_from(point, em, rules, i + 1)
    }
}

/// Whether the elements of an expected array from position `i` on meet
/// the rules at their places.
pub open spec fn elements_meet_from(
    point: PathView,
    ee: Seq<JsonValue>,
    rules: MatchersView,
    i: int,
) -> bool
    decreases ee, ee.len() - i,
{
    if i < 0 || i >= ee.len() {
        true
    } else {
        value_meets_rules(element_point(point, i), ee[i], rules) && elements_meet_from(
            point,
            ee,
            rules,
            i + 1,
        )
    }
}

/// Whether an expected path meets the rule for `$.path`: where the rule
/// asks for a regular expression, the path matches it.
pub open spec fn path_meets_rule(path: Seq<char>, rules: MatchersView) -> bool {
    let rule = selected_rule(rules, part_point("path"@));
    matcher_of(rule) == Matcher::Regex ==> regex_rule_passes(rule, path)
}

/// Whether an expected header meets its rule: where the rule asks for a
/// regular expression the value matches it, and where it asks for a text
/// to be included the value holds it.
pub open spec fn header_meets_rule(name: Seq<char>, value: Seq<char>, rules: MatchersView) -> bool {
    let rule = selected_rule(rules, item_point("headers"@, name));
    &&& matcher_of(rule) == Matcher::Regex ==> regex_rule_passes(rule, value)
    &&& matcher_of(rule) == Matcher::Include ==> include_rule_passes(rule, value)
}

/// Whether the expected headers meet their rules. A header whose name
/// stands earlier among them, but for case, does not count.
pub open spec fn headers_meet_rules(headers: Seq<(Seq<char>, Seq<char>)>, rules: MatchersView) -> bool {
    forall|i: int|
        0 <= i < headers.len() && key_position_ignoring_case(headers, (#[trigger] headers[i]).0, 0)
            == i ==> header_meets_rule(headers[i].0, headers[i].1, rules)
}

/// Whether an expected body meets the rules: a body that is held to be
/// JSON as a value at `$.body`, and any other body with bytes as a text
/// that matches the regular expression of a rule for `$.body` where
/// there is one.
pub open spec fn body_meets_rules(
    headers: Option<Seq<(Seq<char>, Seq<char>)>>,
    body: BodyView,
    rules: MatchersView,
) -> bool {
    match body {
        BodyView::Present(bytes) => {
            let rule = selected_rule(rules, part_point("body"@));
            if is_json_media(body_media_type(headers, bytes)) && json_parse_result(bytes) is Ok {
                value_meets_rules(part_point("body"@), json_parse_result(bytes)->Ok_0, rules)
            } else {
                matcher_of(rule) == Matcher::Regex ==> regex_rule_passes(rule, text_of_bytes(bytes))
            }
        },
        _ => true,
    }
}

/// Whether an expected request meets its own rules: its path, its
/// headers and its body do.
pub open spec fn request_meets_rules(expected: RequestView) -> bool {
    &&& path_meets_rule(expected.path, expected.matching_rules)
    &&& headers_meet_rules(table_entries(expected.headers), expected.matching_rules)
    &&& body_meets_rules(expected.headers, expected.body, expected.matching_rules)
}

/// Whether an expected response meets its own rules: its headers and its
/// body do.
pub open spec fn response_meets_rules(expected: ResponseView) -> bool {
    &&& headers_meet_rules(table_entries(expected.headers), expected.matching_rules)
    &&& body_meets_rules(expected.headers, expected.body, expected.matching_rules)
}

/// A JSON value that meets the rules has no mismatch with itself.
pub proof fn value_matches_itself(point: PathView, e: JsonValue, rules: MatchersView)
    requires
        value_meets_rules(point, e, rules),
    ensures
        node_mismatches(point, e, e, rules) == Seq::<MismatchView>::empty(),
    decreases e, 1nat,
{
    let rule = selected_rule(rules, point);
    let min = bound_at(rules, point, "min"@);
    let max = bound_at(rules, point, "max"@);
    let matcher = matcher_of(rule);
    if min is Some || max is Some {
        assert(array_like(point, e, e, rules, min, max) =~= Seq::<MismatchView>::empty());
    } else if matcher != Matcher::Equality && matcher != Matcher::Type {
    } else {
        match e {
            JsonValue::Object(em) => {
                members_match_themselves(point, em, rules, 0);
                nothing_is_unexpected(point, em, 0);
            },
            JsonValue::Array(ee) => {
                elements_match_themselves(point, ee, rules, 0);
            },
            _ => {},
        }
    }
}

/// The members of an object that meet the rules have no mismatch with
/// themselves.
pub proof fn members_match_themselves(
    point: PathView,
    em: Seq<(Seq<char>, JsonValue)>,
    rules: MatchersView,
    i: int,
)
    requires
        members_meet_from(point, em, rules, i),
        0 <= i,
    ensures
        members_from(point, em, em, rules, i) == Seq::<MismatchView>::empty(),
    decreases em, em.len() - i,
{
    if i < em.len() {
        let name = em[i].0;
        if JsonValue::position(em, name) == i {
            value_matches_itself(member_point(point, name), em[i].1, rules);
        }
        members_match_themselves(point, em, rules, i + 1);
    }
}

/// No member of an object is unexpected in the object itself.
pub proof fn nothing_is_unexpected(point: PathView, em: Seq<(Seq<char>, JsonValue)>, j: int)
    requires
        0 <= j,
    ensures
        unexpected_from(point, em, em, j) == Seq::<MismatchView>::empty(),
    decreases em.len() - j,
{
    if j < em.len() {
        first_position_is_early(em, j, 0);
        nothing_is_unexpected(point, em, j + 1);
    }
}

/// The elements of an array that meet the rules have no mismatch with
/// themselves.
pub proof fn elements_match_themselves(
    point: PathView,
    ee: Seq<JsonValue>,
    rules: MatchersView,
    i: int,
)
    requires
        elements_meet_from(point, ee, rules, i),
        0 <= i,
    ensures
        elements_from(point, ee, ee, rules, i) == Seq::<MismatchView>::empty(),
    decreases ee, ee.len() - i,
{
    if i < ee.len() {
        value_matches_itself(element_point(point, i), ee[i], rules);
        elements_match_themselves(point, ee, rules, i + 1);
    }
}

/// A query has no mismatch with itself, whatever the rules.
pub proof fn query_matches_itself(query: QueryView, rules: MatchersView, i: int)
    requires
        0 <= i,
    ensures
        expected_params_from(query, query, rules, i) == Seq::<MismatchView>::empty(),
        unexpected_params_from(query, query, i) == Seq::<MismatchView>::empty(),
    decreases query.len() - i,
{
    if i < query.len() {
        first_key_is_early(query, i, 0);
        query_matches_itself(query, rules, i + 1);
    }
}

/// Headers that meet their rules have no mismatch with themselves.
pub proof fn headers_match_themselves(
    headers: Seq<(Seq<char>, Seq<char>)>,
    rules: MatchersView,
    i: int,
)
    requires
        headers_meet_rules(headers, rules),
        0 <= i,
    ensures
        headers_from(headers, headers, rules, i) == Seq::<MismatchView>::empty(),
    decreases headers.len() - i,
{
    if i < headers.len() {
        first_key_ignoring_case_is_early(headers, i, 0);
        if key_position_ignoring_case(headers, headers[i].0, 0) == i {
            assert(header_meets_rule(headers[i].0, headers[i].1, rules));
        }
        headers_match_themselves(headers, rules, i + 1);
    }
}

/// A body that meets the rules has no mismatch with itself.
pub proof fn body_matches_itself(
    headers: Option<Seq<(Seq<char>, Seq<char>)>>,
    body: BodyView,
    rules: MatchersView,
)
    requires
        body_meets_rules(headers, body, rules),
    ensures
        body_mismatches(headers, body, headers, body, rules) == Seq::<MismatchView>::empty(),
{
    match body {
        BodyView::Present(bytes) => {
            if is_json_media(body_media_type(headers, bytes)) && json_parse_result(bytes) is Ok {
                value_matches_itself(part_point("body"@), json_parse_result(bytes)->Ok_0, rules);
            }
        },
        _ => {},
    }
}

/// A request that has the method, path, query, headers and body of an
/// expected request has no mismatch with it, where the expected request
/// meets its own rules.
pub proof fn copied_request_matches(expected: RequestView, actual: RequestView)
    requires
        actual.method == expected.method,
        actual.path == expected.path,
        actual.query == expected.query,
        actual.headers == expected.headers,
        actual.body == expected.body,
        request_meets_rules(expected),
    ensures
        request_mismatches(expected, actual) == Seq::<MismatchView>::empty(),
{
    let rules = expected.matching_rules;
    query_matches_itself(query_entries(expected.query), rules, 0);
    headers_match_themselves(table_entries(expected.headers), rules, 0);
    body_matches_itself(expected.headers, expected.body, rules);
    assert(query_mismatches(expected.query, actual.query, rules) =~= Seq::<MismatchView>::empty());
    assert(request_mismatches(expected, actual) =~= Seq::<MismatchView>::empty());
}

/// A response that has the status, headers and body of an expected
/// response has no mismatch with it, where the expected response meets
/// its own rules.
pub proof fn copied_response_matches(expected: ResponseView, actual: ResponseView)
    requires
        actual.status == expected.status,
        actual.headers == expected.headers,
        actual.body == expected.body,
        response_meets_rules(expected),
    ensures
        response_mismatches(expected, actual) == Seq::<MismatchView>::empty(),
{
    let rules = expected.matching_rules;
    headers_match_themselves(table_entries(expected.headers), rules, 0);
    body_matches_itself(expected.headers, expected.body, rules);
    assert(response_mismatches(expected, actual) =~= Seq::<MismatchView>::empty());
}

/// Under plain rules every value meets the rules.
pub proof fn plain_rules_are_met_by_value(point: PathView, e: JsonValue, rules: MatchersView)
    requires
        all_plain(rules),
    ensures
        value_meets_rules(point, e, rules),
    decreases e, 1nat,
{
    plain_rules_choose_plain(rules, point);
    match e {
        JsonValue::Object(em) => {
            plain_rules_are_met_by_members(point, em, rules, 0);
        },
        JsonValue::Array(ee) => {
            plain_rules_are_met_by_elements(point, ee, rules, 0);
        },
        _ => {},
    }
}

/// Under plain rules the members of every object meet the rules.
pub proof fn plain_rules_are_met_by_members(
    point: PathView,
    em: Seq<(Seq<char>, JsonValue)>,
    rules: MatchersView,
    i: int,
)
    requires
        all_plain(rules),
        0 <= i,
    ensures
        members_meet_from(point, em, rules, i),
    decreases em, em.len() - i,
{
    if i < em.len() {
        plain_rules_are_met_by_value(member_point(point, em[i].0), em[i].1, rules);
        plain_rules_are_met_by_members(point, em, rules, i + 1);
    }
}

/// Under plain rules the elements of every array meet the rules.
pub proof fn plain_rules_are_met_by_elements(
    point: PathView,
    ee: Seq<JsonValue>,
    rules: MatchersView,
    i: int,
)
    requires
        all_plain(rules),
        0 <= i,
    ensures
        elements_meet_from(point, ee, rules, i),
    decreases ee, ee.len() - i,
{
    if i < ee.len() {
        plain_rules_are_met_by_value(element_point(point, i), ee[i], rules);
        plain_rules_are_met_by_elements(point, ee, rules, i + 1);
    }
}

/// Every request whose rules ask for equality or type alone and bound
/// nothing meets its own rules, and so does every such response.
pub proof fn plain_rules_are_met(
    headers: Option<Seq<(Seq<char>, Seq<char>)>>,
    body: BodyView,
    path: Seq<char>,
    rules: MatchersView,
)
    requires
        all_plain(rules),
    ensures
        path_meets_rule(path, rules),
        headers_meet_rules(table_entries(headers), rules),
        body_meets_rules(headers, body, rules),
{
    plain_rules_choose_plain(rules, part_point("path"@));
    plain_rules_choose_plain(rules, part_point("body"@));
    let entries = table_entries(headers);
    assert forall|i: int| 0 <= i < entries.len() implies header_meets_rule(
        (#[trigger] entries[i]).0,
        entries[i].1,
        rules,
    ) by {
        plain_rules_choose_plain(rules, item_point("headers"@, entries[i].0));
    }
    match body {
        BodyView::Present(bytes) => {
            if json_parse_result(bytes) is Ok {
                plain_rules_are_met_by_value(
                    part_point("body"@),
                    json_parse_result(bytes)->Ok_0,
                    rules,
                );
            }
        },
        _ => {},
    }
}

/// Two requests that differ in their bodies alone, each body without
/// mismatch under the rules of the expected request, have the same
/// mismatches with it.
pub proof fn matching_bodies_are_alike(expected: RequestView, one: RequestView, other: RequestView)
    requires
        one.method == other.method,
        one.path == other.path,
        one.query == other.query,
        one.headers == other.headers,
        body_mismatches(
            expected.headers,
            expected.body,
            one.headers,
            one.body,
            expected.matching_rules,
        ) == Seq::<MismatchView>::empty(),
        body_mismatches(
            expected.headers,
            expected.body,
            other.headers,
            other.body,
            expected.matching_rules,
        ) == Seq::<MismatchView>::empty(),
    ensures
        request_mismatches(expected, one) == request_mismatches(expected, other),
{
}

/// The names of an object stay where they are when the value of one
/// member changes.
pub proof fn positions_survive_update(
    am: Seq<(Seq<char>, JsonValue)>,
    at: int,
    value: JsonValue,
    key: Seq<char>,
    from: int,
)
    requires
        0 <= at < am.len(),
        0 <= from,
    ensures
        JsonValue::position_from(am.update(at, (am[at].0, value)), key, from)
            == JsonValue::position_from(am, key, from),
    decreases am.len() - from,
{
    if from < am.len() {
        if am[from].0 != key {
            positions_survive_update(am, at, value, key, from + 1);
        }
    }
}

/// Where an object is held against an expected object member by member,
/// putting one value in the place of another for a member that is
/// expected changes nothing, as long as the two values have the same
/// mismatches with what is expected of that member.
pub proof fn alike_values_can_be_swapped(
    point: PathView,
    em: Seq<(Seq<char>, JsonValue)>,
    am: Seq<(Seq<char>, JsonValue)>,
    at: int,
    one: JsonValue,
    other: JsonValue,
    rules: MatchersView,
)
    requires
        0 <= at < am.len(),
        JsonValue::position(am, am[at].0) == at,
        0 <= JsonValue::position(em, am[at].0) < em.len(),
        node_mismatches(
            member_point(point, am[at].0),
            em[JsonValue::position(em, am[at].0)].1,
            one,
            rules,
        ) == node_mismatches(
            member_point(point, am[at].0),
            em[JsonValue::position(em, am[at].0)].1,
            other,
            rules,
        ),
    ensures
        children(
            point,
            JsonValue::Object(em),
            JsonValue::Object(am.update(at, (am[at].0, one))),
            rules,
        ) == children(
            point,
            JsonValue::Object(em),
            JsonValue::Object(am.update(at, (am[at].0, other))),
            rules,
        ),
{
    swapped_members_alike(point, em, am, at, one, other, rules, 0);
    swapped_unexpected_alike(point, em, am, at, one, other, 0);
}

/// The part of `alike_values_can_be_swapped` that is about the expected
/// members.
pub proof fn swapped_members_alike(
    point: PathView,
    em: Seq<(Seq<char>, JsonValue)>,
    am: Seq<(Seq<char>, JsonValue)>,
    at: int,
    one: JsonValue,
    other: JsonValue,
    rules: MatchersView,
    i: int,
)
    requires
        0 <= at < am.len(),
        0 <= i,
        JsonValue::position(am, am[at].0) == at,
        0 <= JsonValue::position(em, am[at].0) < em.len(),
        node_mismatches(
            member_point(point, am[at].0),
            em[JsonValue::position(em, am[at].0)].1,
            one,
            rules,
        ) == node_mismatches(
            member_point(point, am[at].0),
            em[JsonValue::position(em, am[at].0)].1,
            other,
            rules,
        ),
    ensures
        members_from(point, em, am.update(at, (am[at].0, one)), rules, i) == members_from(
            point,
            em,
            am.update(at, (am[at].0, other)),
            rules,
            i,
        ),
    decreases em.len() - i,
{
    if i < em.len() {
        let name = em[i].0;
        positions_survive_update(am, at, one, name, 0);
        positions_survive_update(am, at, other, name, 0);
        JsonValue::position_from_is_first(am, name, 0);
        JsonValue::position_from_is_first(em, name, 0);
        swapped_members_alike(point, em, am, at, one, other, rules, i + 1);
    }
}

/// The part of `alike_values_can_be_swapped` that is about the members
/// that are not expected.
pub proof fn swapped_unexpected_alike(
    point: PathView,
    em: Seq<(Seq<char>, JsonValue)>,
    am: Seq<(Seq<char>, JsonValue)>,
    at: int,
    one: JsonValue,
    other: JsonValue,
    j: int,
)
    requires
        0 <= at < am.len(),
        0 <= j,
        0 <= JsonValue::position(em, am[at].0) < em.len(),
    ensures
        unexpected_from(point, em, am.update(at, (am[at].0, one)), j) == unexpected_from(
            point,
            em,
            am.update(at, (am[at].0, other)),
            j,
        ),
    decreases am.len() - j,
{
    if j < am.len() {
        let name = am[j].0;
        positions_survive_update(am, at, one, name, 0);
        positions_survive_update(am, at, other, name, 0);
        swapped_unexpected_alike(point, em, am, at, one, other, j + 1);
    }
}

/// Where two arrays of one length are held together element by element,
/// putting one value in the place of another changes nothing, as long
/// as the two values have the same mismatches with what is expected at
/// that position.
pub proof fn alike_elements_can_be_swapped(
    point: PathView,
    ee: Seq<JsonValue>,
    ae: Seq<JsonValue>,
    at: int,
    one: JsonValue,
    other: JsonValue,
    rules: MatchersView,
)
    requires
        0 <= at < ae.len(),
        ee.len() == ae.len(),
        node_mismatches(element_point(point, at), ee[at], one, rules) == node_mismatches(
            element_point(point, at),
            ee[at],
            other,
            rules,
        ),
    ensures
        children(
            point,
            JsonValue::Array(ee),
            JsonValue::Array(ae.update(at, one)),
            rules,
        ) == children(point, JsonValue::Array(ee), JsonValue::Array(ae.update(at, other)), rules),
{
    swapped_elements_alike(point, ee, ae, at, one, other, rules, 0);
}

/// The part of `alike_elements_can_be_swapped` that goes through the
/// elements.
pub proof fn swapped_elements_alike(
    point: PathView,
    ee: Seq<JsonValue>,
    ae: Seq<JsonValue>,
    at: int,
    one: JsonValue,
    other: JsonValue,
    rules: MatchersView,
    i: int,
)
    requires
        0 <= at < ae.len(),
        0 <= i,
        at < ee.len(),
        node_mismatches(element_point(point, at), ee[at], one, rules) == node_mismatches(
            element_point(point, at),
            ee[at],
            other,
            rules,
        ),
    ensures
        elements_from(point, ee, ae.update(at, one), rules, i) == elements_from(
            point,
            ee,
            ae.update(at, other),
            rules,
            i,
        ),
    decreases ee.len() - i,
{
    if i < ee.len() && i < ae.len() {
        swapped_elements_alike(point, ee, ae, at, one, other, rules, i + 1);
    }
}

/// Two requests whose parts have the same mismatches with an expected
/// request have the same mismatches with it as wholes. So one path may
/// stand for another, one query for another, headers for others and a
/// body for another, as long as the rules of the expected request are
/// met or missed alike.
pub proof fn alike_parts_make_alike_requests(
    expected: RequestView,
    one: RequestView,
    other: RequestView,
)
    requires
        method_mismatches(expected.method, one.method) == method_mismatches(
            expected.method,
            other.method,
        ),
        path_mismatches(expected.path, one.path, expected.matching_rules) == path_mismatches(
            expected.path,
            other.path,
            expected.matching_rules,
        ),
        query_mismatches(expected.query, one.query, expected.matching_rules) == query_mismatches(
            expected.query,
            other.query,
            expected.matching_rules,
        ),
        headers_mismatches(expected.headers, one.headers, expected.matching_rules)
            == headers_mismatches(expected.headers, other.headers, expected.matching_rules),
        body_mismatches(
            expected.headers,
            expected.body,
            one.headers,
            one.body,
            expected.matching_rules,
        ) == body_mismatches(
            expected.headers,
            expected.body,
            other.headers,
            other.body,
            expected.matching_rules,
        ),
    ensures
        request_mismatches(expected, one) == request_mismatches(expected, other),
{
}

/// Two paths that both meet the rule for the path, or that are both the
/// expected path, give no mismatch, and so the same.
pub proof fn matching_paths_are_alike(
    expected: Seq<char>,
    one: Seq<char>,
    other: Seq<char>,
    rules: MatchersView,
)
    requires
        path_mismatches(expected, one, rules).len() == 0,
        path_mismatches(expected, other, rules).len() == 0,
    ensures
        path_mismatches(expected, one, rules) == path_mismatches(expected, other, rules),
{
    assert(path_mismatches(expected, one, rules) =~= path_mismatches(expected, other, rules));
}

/// The names of a table stay where they are, case aside, when the value
/// of one entry changes.
pub proof fn names_survive_update<V>(
    entries: Seq<(Seq<char>, V)>,
    at: int,
    value: V,
    key: Seq<char>,
    from: int,
)
    requires
        0 <= at < entries.len(),
        0 <= from,
    ensures
        key_position_ignoring_case(entries.update(at, (entries[at].0, value)), key, from)
            == key_position_ignoring_case(entries, key, from),
        key_position(entries.update(at, (entries[at].0, value)), key, from) == key_position(
            entries,
            key,
            from,
        ),
    decreases entries.len() - from,
{
    if from < entries.len() {
        names_survive_update(entries, at, value, key, from + 1);
    }
}

/// Where the value of one actual header is put in the place of another,
/// the mismatches of the headers stay the same, as long as the two
/// values have the same mismatches with each expected header of that
/// name under its rule.
pub proof fn alike_header_values_can_be_swapped(
    expected: Seq<(Seq<char>, Seq<char>)>,
    actual: Seq<(Seq<char>, Seq<char>)>,
    at: int,
    one: Seq<char>,
    other: Seq<char>,
    rules: MatchersView,
)
    requires
        0 <= at < actual.len(),
        forall|k: int|
            0 <= k < expected.len() && key_position_ignoring_case(
                actual,
                (#[trigger] expected[k]).0,
                0,
            ) == at ==> header_value_mismatches(expected[k].0, expected[k].1, one, rules)
                == header_value_mismatches(expected[k].0, expected[k].1, other, rules),
    ensures
        headers_mismatches(
            Some(expected),
            Some(actual.update(at, (actual[at].0, one))),
            rules,
        ) == headers_mismatches(
            Some(expected),
            Some(actual.update(at, (actual[at].0, other))),
            rules,
        ),
{
    swapped_headers_alike(expected, actual, at, one, other, rules, 0);
}

/// The part of `alike_header_values_can_be_swapped` that goes through
/// the expected headers.
pub proof fn swapped_headers_alike(
    expected: Seq<(Seq<char>, Seq<char>)>,
    actual: Seq<(Seq<char>, Seq<char>)>,
    at: int,
    one: Seq<char>,
    other: Seq<char>,
    rules: MatchersView,
    i: int,
)
    requires
        0 <= at < actual.len(),
        0 <= i,
        forall|k: int|
            0 <= k < expected.len() && key_position_ignoring_case(
                actual,
                (#[trigger] expected[k]).0,
                0,
            ) == at ==> header_value_mismatches(expected[k].0, expected[k].1, one, rules)
                == header_value_mismatches(expected[k].0, expected[k].1, other, rules),
    ensures
        headers_from(expected, actual.update(at, (actual[at].0, one)), rules, i) == headers_from(
            expected,
            actual.update(at, (actual[at].0, other)),
            rules,
            i,
        ),
    decreases expected.len() - i,
{
    if i < expected.len() {
        names_survive_update(actual, at, one, expected[i].0, 0);
        names_survive_update(actual, at, other, expected[i].0, 0);
        swapped_headers_alike(expected, actual, at, one, other, rules, i + 1);
    }
}

/// Where the values of one actual query parameter are put in the place
/// of others, the mismatches of the query stay the same, as long as the
/// parameter is expected and the two lists of values have the same
/// mismatches with the expected values under the rule of the parameter.
pub proof fn alike_query_values_can_be_swapped(
    expected: QueryView,
    actual: QueryView,
    at: int,
    one: Seq<Seq<char>>,
    other: Seq<Seq<char>>,
    rules: MatchersView,
)
    requires
        0 <= at < actual.len(),
        0 <= key_position(expected, actual[at].0, 0) < expected.len(),
        forall|k: int|
            0 <= k < expected.len() && (#[trigger] expected[k]).0 == actual[at].0
                ==> values_mismatches(expected[k].0, expected[k].1, one, rules)
                == values_mismatches(expected[k].0, expected[k].1, other, rules),
    ensures
        query_mismatches(
            Some(expected),
            Some(actual.update(at, (actual[at].0, one))),
            rules,
        ) == query_mismatches(
            Some(expected),
            Some(actual.update(at, (actual[at].0, other))),
            rules,
        ),
{
    swapped_params_alike(expected, actual, at, one, other, rules, 0);
    swapped_unexpected_params_alike(expected, actual, at, one, other, 0);
}

/// The part of `alike_query_values_can_be_swapped` that is about the
/// expected parameters.
pub proof fn swapped_params_alike(
    expected: QueryView,
    actual: QueryView,
    at: int,
    one: Seq<Seq<char>>,
    other: Seq<Seq<char>>,
    rules: MatchersView,
    i: int,
)
    requires
        0 <= at < actual.len(),
        0 <= i,
        forall|k: int|
            0 <= k < expected.len() && (#[trigger] expected[k]).0 == actual[at].0
                ==> values_mismatches(expected[k].0, expected[k].1, one, rules)
                == values_mismatches(expected[k].0, expected[k].1, other, rules),
    ensures
        expected_params_from(expected, actual.update(at, (actual[at].0, one)), rules, i)
            == expected_params_from(expected, actual.update(at, (actual[at].0, other)), rules, i),
    decreases expected.len() - i,
{
    if i < expected.len() {
        let name = expected[i].0;
        names_survive_update(actual, at, one, name, 0);
        names_survive_update(actual, at, other, name, 0);
        key_position_bounds(actual, name, 0);
        swapped_params_alike(expected, actual, at, one, other, rules, i + 1);
    }
}

/// The part of `alike_query_values_can_be_swapped` that is about the
/// parameters that are not expected.
pub proof fn swapped_unexpected_params_alike(
    expected: QueryView,
    actual: QueryView,
    at: int,
    one: Seq<Seq<char>>,
    other: Seq<Seq<char>>,
    j: int,
)
    requires
        0 <= at < actual.len(),
        0 <= j,
        0 <= key_position(expected, actual[at].0, 0) < expected.len(),
    ensures
        unexpected_params_from(expected, actual.update(at, (actual[at].0, one)), j)
            == unexpected_params_from(expected, actual.update(at, (actual[at].0, other)), j),
    decreases actual.len() - j,
{
    if j < actual.len() {
        let name = actual[j].0;
        names_survive_update(actual, at, one, name, 0);
        names_survive_update(actual, at, other, name, 0);
        swapped_unexpected_params_alike(expected, actual, at, one, other, j + 1);
    }
}

/// Whether two outcomes are alike: of the same kind, for the same
/// interaction and with the same mismatches.
pub open spec fn alike_outcomes(one: MatchResultView, other: MatchResultView) -> bool {
    match (one, other) {
        (MatchResultView::RequestMatch(a), MatchResultView::RequestMatch(b)) => a == b,
        (
            MatchResultView::RequestMismatch(a, found),
            MatchResultView::RequestMismatch(b, also),
        ) => a == b && found == also,
        (MatchResultView::RequestNotFound(_), MatchResultView::RequestNotFound(_)) => true,
        _ => false,
    }
}

/// A request that has the method, path, query, headers and body of the
/// request of the one interaction of a pact matches that interaction,
/// where the request of the interaction meets its own rules.
pub proof fn copied_request_is_matched(interaction: InteractionView, request: RequestView)
    requires
        request.method == interaction.request.method,
        request.path == interaction.request.path,
        request.query == interaction.request.query,
        request.headers == interaction.request.headers,
        request.body == interaction.request.body,
        request_meets_rules(interaction.request),
    ensures
        dispatched(request, seq![interaction]) == MatchResultView::RequestMatch(interaction),
{
    copied_request_matches(interaction.request, request);
    let all = seq![interaction];
    let numbers = ranks(request, all);
    assert(first_least(numbers, 0) == -1);
    assert(first_least(numbers, 1) == 0);
}

/// Two requests that have the same mismatches with the request of every
/// interaction of a pact have outcomes that are alike.
pub proof fn alike_requests_have_alike_outcomes(
    interactions: Seq<InteractionView>,
    one: RequestView,
    other: RequestView,
)
    requires
        forall|i: int|
            0 <= i < interactions.len() ==> request_mismatches(
                (#[trigger] interactions[i]).request,
                one,
            ) == request_mismatches(interactions[i].request, other),
    ensures
        alike_outcomes(dispatched(one, interactions), dispatched(other, interactions)),
{
    assert(ranks(one, interactions) =~= ranks(other, interactions));
    let best = first_least(ranks(one, interactions), interactions.len() as int);
    if 0 <= best < interactions.len() {
        assert(request_mismatches(interactions[best].request, one) == request_mismatches(
            interactions[best].request,
            other,
        ));
    }
}

} // verus!
