//! Matching of a JSON document against an expected one, place by place,
//! under the rule that counts at each place.

use crate::json::{json_text, Json, JsonValue};
use crate::mismatch::{append_mismatches, Mismatch, MismatchView};
use crate::models::{attribute, rule_attribute, Matchers, MatchersView, Rule, RuleView};
use crate::path_exp::{
    best_position, best_rule, best_upto_applies, child_path, location, parse_rule_paths,
    path_string, paths_view, rule_paths, selected_rule, PathToken, PathView, TokenView,
};
use crate::regex_util::{is_match, matches_regex};
use crate::text::{chars_of, decimal_number, is_digit, pairs_view, parse_decimal, views};
use vstd::prelude::*;

verus! {

broadcast use vstd::std_specs::vec::group_vec_axioms;

/// How the value at a place is held against the expected one.
#[derive(Debug, Clone, Copy, PartialEq, Eq, Structural)]
pub enum Matcher {
    /// The two are equal.
    Equality,
    /// The two are of one kind.
    Type,
    /// The value is a string that a regular expression matches.
    Regex,
    /// The value is a number without fraction or exponent.
    Integer,
    /// The value is a number with a fraction or an exponent.
    Decimal,
    /// The value is null.
    Null,
    /// The value is a string that holds a given text.
    Include,
}

/// Why a value does not match.
#[derive(Debug, Clone, Copy, PartialEq, Eq, Structural)]
pub enum Reason {
    NotEqual,
    WrongType,
    NoRegexMatch,
    TooFewElements,
    TooManyElements,
    NotInteger,
    NotDecimal,
    NotNull,
    NotIncluded,
    MissingMember,
    UnexpectedMember,
    LengthDiffers,
}

/// The message that goes with a reason.
pub open spec fn reason_text(reason: Reason) -> Seq<char> {
    match reason {
        Reason::NotEqual => "Expected the values to be equal"@,
        Reason::WrongType => "Expected the values to be of the same type"@,
        Reason::NoRegexMatch => "Expected the value to match the regular expression"@,
        Reason::TooFewElements => "Expected the array to have at least the minimum number of elements"@,
        Reason::TooManyElements => "Expected the array to have at most the maximum number of elements"@,
        Reason::NotInteger => "Expected an integer"@,
        Reason::NotDecimal => "Expected a decimal number"@,
        Reason::NotNull => "Expected null"@,
        Reason::NotIncluded => "Expected the value to include the given text"@,
        Reason::MissingMember => "Expected a member that is missing"@,
        Reason::UnexpectedMember => "Found a member that is not expected"@,
        Reason::LengthDiffers => "Expected the arrays to have the same number of elements"@,
    }
}

/// The message that goes with a reason.
pub fn reason_message(reason: Reason) -> (text: String)
    ensures
        text@ == reason_text(reason),
{
    match reason {
        Reason::NotEqual => String::from_str("Expected the values to be equal"),
        Reason::WrongType => String::from_str("Expected the values to be of the same type"),
        Reason::NoRegexMatch => String::from_str(
            "Expected the value to match the regular expression",
        ),
        Reason::TooFewElements => String::from_str(
            "Expected the array to have at least the minimum number of elements",
        ),
        Reason::TooManyElements => String::from_str(
            "Expected the array to have at most the maximum number of elements",
        ),
        Reason::NotInteger => String::from_str("Expected an integer"),
        Reason::NotDecimal => String::from_str("Expected a decimal number"),
        Reason::NotNull => String::from_str("Expected null"),
        Reason::NotIncluded => String::from_str("Expected the value to include the given text"),
        Reason::MissingMember => String::from_str("Expected a member that is missing"),
        Reason::UnexpectedMember => String::from_str("Found a member that is not expected"),
        Reason::LengthDiffers => String::from_str(
            "Expected the arrays to have the same number of elements",
        ),
    }
}

/// The matcher that a rule asks for: the one that its attribute `match`
/// names, and equality where there is no rule or it names none.
pub open spec fn matcher_of(rule: Option<RuleView>) -> Matcher {
    match rule {
        None => Matcher::Equality,
        Some(r) => match attribute(r, "match"@) {
            None => Matcher::Equality,
            Some(name) => if name == "type"@ {
                Matcher::Type
            } else if name == "regex"@ {
                Matcher::Regex
            } else if name == "integer"@ {
                Matcher::Integer
            } else if name == "decimal"@ {
                Matcher::Decimal
            } else if name == "null"@ {
                Matcher::Null
            } else if name == "include"@ {
                Matcher::Include
            } else {
                Matcher::Equality
            },
        },
    }
}

/// The number that a rule gives as a bound under the attribute `name`.
pub open spec fn rule_bound(rule: RuleView, name: Seq<char>) -> Option<usize> {
    match attribute(rule, name) {
        Some(text) => decimal_number(text),
        None => None,
    }
}

/// The bound that counts at a place under the attribute `name`: that of
/// the rule that counts there, if its path ends at this very place.
pub open spec fn bound_at(rules: MatchersView, point: PathView, name: Seq<char>) -> Option<usize> {
    let best = best_position(rule_paths(rules), point);
    if 0 <= best < rules.len() && rule_paths(rules)[best] is Some && rule_paths(
        rules,
    )[best]->0.len() == point.len() {
        rule_bound(rules[best].1, name)
    } else {
        None
    }
}

/// A mismatch of two bodies at a place.
pub open spec fn body_mismatch(
    point: PathView,
    expected: Seq<char>,
    actual: Seq<char>,
    reason: Reason,
) -> MismatchView {
    MismatchView::BodyMismatch {
        path: location(point),
        expected,
        actual,
        mismatch: reason_text(reason),
    }
}

/// A mismatch of two JSON values at a place.
pub open spec fn value_mismatch(point: PathView, e: JsonValue, a: JsonValue, reason: Reason) -> Seq<
    MismatchView,
> {
    seq![body_mismatch(point, json_text(e), json_text(a), reason)]
}

/// Whether the text of a number is that of an integer: digits, with or
/// without a minus sign in front.
pub open spec fn is_integer_text(text: Seq<char>) -> bool {
    if text.len() > 0 && text[0] == '-' {
        text.len() > 1 && forall|i: int| 1 <= i < text.len() ==> is_digit(#[trigger] text[i])
    } else {
        text.len() > 0 && forall|i: int| 0 <= i < text.len() ==> is_digit(#[trigger] text[i])
    }
}

/// Whether `part` stands in `text` at position `at`.
pub open spec fn occurs_at(text: Seq<char>, part: Seq<char>, at: int) -> bool {
    0 <= at && at + part.len() <= text.len() && text.subrange(at, at + part.len()) == part
}

/// Whether `part` stands somewhere in `text`.
pub open spec fn includes(text: Seq<char>, part: Seq<char>) -> bool {
    exists|at: int| occurs_at(text, part, at)
}

/// Whether a value passes a matcher that looks at the value alone.
pub open spec fn passes(matcher: Matcher, rule: Option<RuleView>, a: JsonValue) -> bool {
    match matcher {
        Matcher::Regex => match (rule, a) {
            (Some(r), JsonValue::Str(s)) => match attribute(r, "regex"@) {
                Some(pattern) => matches_regex(pattern, s),
                None => false,
            },
            _ => false,
        },
        Matcher::Integer => match a {
            JsonValue::Number(text) => is_integer_text(text),
            _ => false,
        },
        Matcher::Decimal => match a {
            JsonValue::Number(text) => !is_integer_text(text),
            _ => false,
        },
        Matcher::Null => a is Null,
        Matcher::Include => match (rule, a) {
            (Some(r), JsonValue::Str(s)) => match attribute(r, "value"@) {
                Some(part) => includes(s, part),
                None => false,
            },
            _ => false,
        },
        _ => true,
    }
}

/// The reason that goes with a matcher that looks at the value alone.
pub open spec fn reason_of(matcher: Matcher) -> Reason {
    match matcher {
        Matcher::Regex => Reason::NoRegexMatch,
        Matcher::Integer => Reason::NotInteger,
        Matcher::Decimal => Reason::NotDecimal,
        Matcher::Null => Reason::NotNull,
        Matcher::Include => Reason::NotIncluded,
        Matcher::Type => Reason::WrongType,
        Matcher::Equality => Reason::NotEqual,
    }
}

/// Whether two values without parts are equal.
pub open spec fn same_leaf(e: JsonValue, a: JsonValue) -> bool {
    match (e, a) {
        (JsonValue::Null, JsonValue::Null) => true,
        (JsonValue::Bool(x), JsonValue::Bool(y)) => x == y,
        (JsonValue::Number(x), JsonValue::Number(y)) => x == y,
        (JsonValue::Str(x), JsonValue::Str(y)) => x == y,
        _ => false,
    }
}

/// The place of an element below a place.
pub open spec fn element_point(point: PathView, i: int) -> PathView {
    point.push(TokenView::Index(i as usize))
}

/// The place of a member below a place.
pub open spec fn member_point(point: PathView, name: Seq<char>) -> PathView {
    point.push(TokenView::Field(name))
}

/// The mismatches of the value `a` against the expected value `e` at a
/// place, under the rule that counts there. A rule with a bound makes
/// the place an array of elements like the first expected one. A matcher
/// that looks at the value alone decides by it. Equality and type descend
/// into the members and elements of values of one kind; at a value
/// without parts equality asks for the same value and type for nothing
/// more.
pub open spec fn node_mismatches(
    point: PathView,
    e: JsonValue,
    a: JsonValue,
    rules: MatchersView,
) -> Seq<MismatchView>
    decreases e, 1nat,
{
    let rule = selected_rule(rules, point);
    let min = bound_at(rules, point, "min"@);
    let max = bound_at(rules, point, "max"@);
    let matcher = matcher_of(rule);
    if min is Some || max is Some {
        array_like(point, e, a, rules, min, max)
    } else if matcher != Matcher::Equality && matcher != Matcher::Type {
        if passes(matcher, rule, a) {
            Seq::empty()
        } else {
            value_mismatch(point, e, a, reason_of(matcher))
        }
    } else if e.kind() != a.kind() {
        value_mismatch(point, e, a, reason_of(matcher))
    } else if e is Object || e is Array {
        children(point, e, a, rules)
    } else if matcher == Matcher::Type || same_leaf(e, a) {
        Seq::empty()
    } else {
        value_mismatch(point, e, a, Reason::NotEqual)
    }
}

/// The mismatches of the parts of two values of one kind: of two objects
/// member by member, and of two arrays element by element, after one for
/// a length that differs.
pub open spec fn children(point: PathView, e: JsonValue, a: JsonValue, rules: MatchersView) -> Seq<
    MismatchView,
>
    decreases e, 0nat,
{
    match (e, a) {
        (JsonValue::Object(em), JsonValue::Object(am)) => members_from(point, em, am, rules, 0)
            + unexpected_from(point, em, am, 0),
        (JsonValue::Array(ee), JsonValue::Array(ae)) => (if ee.len() != ae.len() {
            value_mismatch(point, e, a, Reason::LengthDiffers)
        } else {
            Seq::empty()
        }) + elements_from(point, ee, ae, rules, 0),
        _ => Seq::empty(),
    }
}

/// The mismatches of the expected members from position `i` on. A member
/// whose name stands earlier in the object does not count. A member that
/// the actual object lacks is one mismatch.
pub open spec fn members_from(
    point: PathView,
    em: Seq<(Seq<char>, JsonValue)>,
    am: Seq<(Seq<char>, JsonValue)>,
    rules: MatchersView,
    i: int,
) -> Seq<MismatchView>
    decreases em, em.len() - i,
{
    if i < 0 || i >= em.len() {
        Seq::empty()
    } else {
        let name = em[i].0;
        let at = JsonValue::position(am, name);
        let here = if JsonValue::position(em, name) != i {
            Seq::empty()
        } else if 0 <= at < am.len() {
            node_mismatches(member_point(point, name), em[i].1, am[at].1, rules)
        } else {
            seq![
                body_mismatch(
                    member_point(point, name),
                    json_text(em[i].1),
                    Seq::empty(),
                    Reason::MissingMember,
                ),
            ]
        };
        here + members_from(point, em, am, rules, i + 1)
    }
}

/// One mismatch for each actual member from position `j` on whose name
/// the expected object lacks. A member whose name stands earlier in the
/// object does not count.
pub open spec fn unexpected_from(
    point: PathView,
    em: Seq<(Seq<char>, JsonValue)>,
    am: Seq<(Seq<char>, JsonValue)>,
    j: int,
) -> Seq<MismatchView>
    decreases am.len() - j,
{
    if j < 0 || j >= am.len() {
        Seq::empty()
    } else {
        let name = am[j].0;
        let here = if JsonValue::position(am, name) == j && JsonValue::position(em, name)
            >= em.len() {
            seq![
                body_mismatch(
                    member_point(point, name),
                    Seq::empty(),
                    json_text(am[j].1),
                    Reason::UnexpectedMember,
                ),
            ]
        } else {
            Seq::empty()
        };
        here + unexpected_from(point, em, am, j + 1)
    }
}

/// The mismatches of the elements from position `i` on, each against the
/// expected element at its position, as far as both arrays go.
pub open spec fn elements_from(
    point: PathView,
    ee: Seq<JsonValue>,
    ae: Seq<JsonValue>,
    rules: MatchersView,
    i: int,
) -> Seq<MismatchView>
    decreases ee, ee.len() - i,
{
    if i < 0 || i >= ee.len() || i >= ae.len() {
        Seq::empty()
    } else {
        node_mismatches(element_point(point, i), ee[i], ae[i], rules) + elements_from(
            point,
            ee,
            ae,
            rules,
            i + 1,
        )
    }
}

/// The mismatches of a value at a place that a rule bounds: one where the
/// value is no array, else one for each bound that the number of its
/// elements breaks, and those of the first element that is not like the
/// first expected one.
pub open spec fn array_like(
    point: PathView,
    e: JsonValue,
    a: JsonValue,
    rules: MatchersView,
    min: Option<usize>,
    max: Option<usize>,
) -> Seq<MismatchView>
    decreases e, 0nat,
{
    match a {
        JsonValue::Array(ae) => (if min is Some && ae.len() < min->0 {
            value_mismatch(point, e, a, Reason::TooFewElements)
        } else {
            Seq::empty()
        }) + (if max is Some && ae.len() > max->0 {
            value_mismatch(point, e, a, Reason::TooManyElements)
        } else {
            Seq::empty()
        }) + (match e {
            JsonValue::Array(ee) => if ee.len() > 0 {
                first_failing(point, ee[0], ae, rules, 0)
            } else {
                Seq::empty()
            },
            _ => Seq::empty(),
        }),
        _ => value_mismatch(point, e, a, Reason::WrongType),
    }
}

/// The mismatches of the first element from position `j` on that is not
/// like the example; none where every element is.
pub open spec fn first_failing(
    point: PathView,
    example: JsonValue,
    ae: Seq<JsonValue>,
    rules: MatchersView,
    j: int,
) -> Seq<MismatchView>
    decreases example, ae.len() - j + 2,
{
    if j < 0 || j >= ae.len() {
        Seq::empty()
    } else {
        let found = node_mismatches(element_point(point, j), example, ae[j], rules);
        if found.len() > 0 {
            found
        } else {
            first_failing(point, example, ae, rules, j + 1)
        }
    }
}

/// The view of a borrowed rule that may be absent.
pub open spec fn option_rule(rule: Option<&Rule>) -> Option<RuleView> {
    match rule {
        Some(r) => Some(pairs_view(r@)),
        None => None,
    }
}

/// The matcher that a rule asks for.
pub fn matcher_for(rule: Option<&Rule>) -> (matcher: Matcher)
    ensures
        matcher == matcher_of(option_rule(rule)),
{
    match rule {
        None => Matcher::Equality,
        Some(r) => match rule_attribute(r, "match") {
            None => Matcher::Equality,
            Some(name) => {
                let name = name.as_str();
                if name.eq("type") {
                    Matcher::Type
                } else if name.eq("regex") {
                    Matcher::Regex
                } else if name.eq("integer") {
                    Matcher::Integer
                } else if name.eq("decimal") {
                    Matcher::Decimal
                } else if name.eq("null") {
                    Matcher::Null
                } else if name.eq("include") {
                    Matcher::Include
                } else {
                    Matcher::Equality
                }
            },
        },
    }
}

fn bound_of(rule: &Rule, name: &str) -> (bound: Option<usize>)
    ensures
        bound == rule_bound(pairs_view(rule@), name@),
{
    match rule_attribute(rule, name) {
        Some(text) => {
            let digits = chars_of(text.as_str());
            parse_decimal(&digits)
        },
        None => None,
    }
}

fn integer_text(text: &str) -> (r: bool)
    ensures
        r == is_integer_text(text@),
{
    let s = chars_of(text);
    let start: usize = if s.len() > 0 && s[0] == '-' {
        1
    } else {
        0
    };
    if s.len() <= start {
        return false;
    }
    let mut i: usize = start;
    while i < s.len()
        invariant
            start <= i <= s.len(),
            s@ == text@,
            start == (if s@.len() > 0 && s@[0] == '-' {
                1int
            } else {
                0int
            }),
            forall|k: int| start <= k < i ==> is_digit(#[trigger] s@[k]),
        decreases s.len() - i,
    {
        if !('0' <= s[i] && s[i] <= '9') {
            assert(!is_digit(s@[i as int]));
            return false;
        }
        i = i + 1;
    }
    true
}

fn stands_at(text: &Vec<char>, part: &Vec<char>, at: usize) -> (r: bool)
    requires
        at + part.len() <= text.len(),
    ensures
        r == occurs_at(text@, part@, at as int),
{
    let mut k: usize = 0;
    while k < part.len()
        invariant
            k <= part.len(),
            at + part.len() <= text.len(),
            forall|m: int| 0 <= m < k ==> text@[at + m] == part@[m],
        decreases part.len() - k,
    {
        if text[at + k] != part[k] {
            proof {
                if occurs_at(text@, part@, at as int) {
                    assert(text@.subrange(at as int, at + part.len())[k as int] == part@[k as int]);
                }
            }
            return false;
        }
        k = k + 1;
    }
    assert(text@.subrange(at as int, at + part.len()) =~= part@);
    true
}

/// Whether `part` stands somewhere in `text`.
pub fn text_includes(text: &str, part: &str) -> (r: bool)
    ensures
        r == includes(text@, part@),
{
    let t = chars_of(text);
    let p = chars_of(part);
    if p.len() > t.len() {
        assert(!includes(t@, p@)) by {
            assert forall|at: int| !occurs_at(t@, p@, at) by {}
        }
        return false;
    }
    if p.len() == 0 {
        assert(occurs_at(t@, p@, 0)) by {
            assert(t@.subrange(0, 0) =~= p@);
        }
        return true;
    }
    let last: usize = t.len() - p.len();
    let mut at: usize = 0;
    while at <= last
        invariant
            at <= last + 1,
            last == t.len() - p.len(),
            last < t.len(),
            t@ == text@,
            p@ == part@,
            forall|k: int| 0 <= k < at ==> !occurs_at(t@, p@, k),
        decreases last + 1 - at,
    {
        if stands_at(&t, &p, at) {
            assert(occurs_at(t@, p@, at as int));
            return true;
        }
        at = at + 1;
    }
    assert(!includes(t@, p@)) by {
        assert forall|k: int| !occurs_at(t@, p@, k) by {}
    }
    false
}

fn value_passes(matcher: Matcher, rule: Option<&Rule>, a: &Json) -> (r: bool)
    ensures
        r == passes(matcher, option_rule(rule), a@),
{
    match matcher {
        Matcher::Regex => match rule {
            Some(r) => match a {
                Json::Str(s) => match rule_attribute(r, "regex") {
                    Some(pattern) => is_match(pattern.as_str(), s.as_str()),
                    None => false,
                },
                _ => false,
            },
            None => false,
        },
        Matcher::Integer => match a {
            Json::Number(text) => integer_text(text.as_str()),
            _ => false,
        },
        Matcher::Decimal => match a {
            Json::Number(text) => !integer_text(text.as_str()),
            _ => false,
        },
        Matcher::Null => match a {
            Json::Null => true,
            _ => false,
        },
        Matcher::Include => match rule {
            Some(r) => match a {
                Json::Str(s) => match rule_attribute(r, "value") {
                    Some(part) => text_includes(s.as_str(), part.as_str()),
                    None => false,
                },
                _ => false,
            },
            None => false,
        },
        _ => true,
    }
}

fn reason_for(matcher: Matcher) -> (reason: Reason)
    ensures
        reason == reason_of(matcher),
{
    match matcher {
        Matcher::Regex => Reason::NoRegexMatch,
        Matcher::Integer => Reason::NotInteger,
        Matcher::Decimal => Reason::NotDecimal,
        Matcher::Null => Reason::NotNull,
        Matcher::Include => Reason::NotIncluded,
        Matcher::Type => Reason::WrongType,
        Matcher::Equality => Reason::NotEqual,
    }
}

fn leaves_equal(e: &Json, a: &Json) -> (r: bool)
    ensures
        r == same_leaf(e@, a@),
{
    match e {
        Json::Null => match a {
            Json::Null => true,
            _ => false,
        },
        Json::Bool(x) => match a {
            Json::Bool(y) => *x == *y,
            _ => false,
        },
        Json::Number(x) => match a {
            Json::Number(y) => *x == *y,
            _ => false,
        },
        Json::Str(x) => match a {
            Json::Str(y) => *x == *y,
            _ => false,
        },
        _ => false,
    }
}

fn one_mismatch(point: &Vec<PathToken>, expected: String, actual: String, reason: Reason) -> (out:
    Vec<Mismatch>)
    ensures
        views(out@) == seq![body_mismatch(views(point@), expected@, actual@, reason)],
{
    let mut out: Vec<Mismatch> = Vec::new();
    out.push(
        Mismatch::BodyMismatch {
            path: path_string(point),
            expected,
            actual,
            mismatch: reason_message(reason),
        },
    );
    assert(views(out@) =~= seq![body_mismatch(views(point@), expected@, actual@, reason)]);
    out
}

fn one_value_mismatch(point: &Vec<PathToken>, e: &Json, a: &Json, reason: Reason) -> (out: Vec<
    Mismatch,
>)
    ensures
        views(out@) == value_mismatch(views(point@), e@, a@, reason),
{
    one_mismatch(point, e.to_text(), a.to_text(), reason)
}

fn no_mismatch() -> (out: Vec<Mismatch>)
    ensures
        views(out@) == Seq::<MismatchView>::empty(),
{
    let out: Vec<Mismatch> = Vec::new();
    assert(views(out@) =~= Seq::<MismatchView>::empty());
    out
}

/// The position of the first member named `key`, or the number of
/// members.
pub fn member_position(members: &Vec<(String, Json)>, key: &str) -> (at: usize)
    ensures
        at == JsonValue::position(Json::Object(*members)@->Object_0, key@),
        at <= members.len(),
{
    let ghost all = Json::Object(*members)@->Object_0;
    let mut i: usize = 0;
    while i < members.len()
        invariant
            i <= members.len(),
            all == Json::Object(*members)@->Object_0,
            JsonValue::position(all, key@) == JsonValue::position_from(all, key@, i as int),
        decreases members.len() - i,
    {
        if members[i].0.as_str().eq(key) {
            return i;
        }
        i = i + 1;
    }
    i
}

fn match_members(
    point: &Vec<PathToken>,
    e: &Json,
    em: &Vec<(String, Json)>,
    am: &Vec<(String, Json)>,
    rules: &Matchers,
    paths: &Vec<Option<Vec<PathToken>>>,
) -> (out: Vec<Mismatch>)
    requires
        paths_view(paths@) == rule_paths(rules@),
        *e == Json::Object(*em),
    ensures
        views(out@) == members_from(
            views(point@),
            e@->Object_0,
            Json::Object(*am)@->Object_0,
            rules@,
            0,
        ),
    decreases e, 0nat,
{
    let ghost pv = views(point@);
    let ghost ev = e@->Object_0;
    let ghost av = Json::Object(*am)@->Object_0;
    let mut out = no_mismatch();
    let mut i: usize = 0;
    while i < em.len()
        invariant
            paths_view(paths@) == rule_paths(rules@),
            *e == Json::Object(*em),
            pv == views(point@),
            ev == e@->Object_0,
            av == Json::Object(*am)@->Object_0,
            i <= em.len(),
            views(out@) + members_from(pv, ev, av, rules@, i as int) == members_from(
                pv,
                ev,
                av,
                rules@,
                0,
            ),
        decreases em.len() - i,
    {
        let name = em[i].0.as_str();
        let ghost before = views(out@);
        let ghost rest = members_from(pv, ev, av, rules@, i + 1);
        if member_position(em, name) == i {
            let child = child_path(point, PathToken::Field(em[i].0.clone()));
            let at = member_position(am, name);
            let here = if at < am.len() {
                proof {
                    assert(decreases_to!(*e => e->Object_0));
                    assert(decreases_to!(e->Object_0 => e->Object_0[i as int]));
                    assert(decreases_to!(e->Object_0[i as int] => e->Object_0[i as int].1));
                }
                match_node(&child, &em[i].1, &am[at].1, rules, paths)
            } else {
                one_mismatch(&child, em[i].1.to_text(), String::new(), Reason::MissingMember)
            };
            proof {
                assert(before + (views(here@) + rest) =~= (before + views(here@)) + rest);
            }
            append_mismatches(&mut out, here);
        } else {
            proof {
                assert(before + (Seq::<MismatchView>::empty() + rest) =~= before + rest);
            }
        }
        i = i + 1;
    }
    proof {
        assert(views(out@) + Seq::<MismatchView>::empty() =~= views(out@));
    }
    out
}

fn match_unexpected(point: &Vec<PathToken>, em: &Vec<(String, Json)>, am: &Vec<(String, Json)>) -> (out:
    Vec<Mismatch>)
    ensures
        views(out@) == unexpected_from(
            views(point@),
            Json::Object(*em)@->Object_0,
            Json::Object(*am)@->Object_0,
            0,
        ),
{
    let ghost pv = views(point@);
    let ghost ev = Json::Object(*em)@->Object_0;
    let ghost av = Json::Object(*am)@->Object_0;
    let mut out = no_mismatch();
    let mut j: usize = 0;
    while j < am.len()
        invariant
            pv == views(point@),
            ev == Json::Object(*em)@->Object_0,
            av == Json::Object(*am)@->Object_0,
            j <= am.len(),
            views(out@) + unexpected_from(pv, ev, av, j as int) == unexpected_from(pv, ev, av, 0),
        decreases am.len() - j,
    {
        let name = am[j].0.as_str();
        let ghost before = views(out@);
        let ghost rest = unexpected_from(pv, ev, av, j + 1);
        if member_position(am, name) == j && member_position(em, name) >= em.len() {
            let child = child_path(point, PathToken::Field(am[j].0.clone()));
            let here = one_mismatch(
                &child,
                String::new(),
                am[j].1.to_text(),
                Reason::UnexpectedMember,
            );
            proof {
                assert(before + (views(here@) + rest) =~= (before + views(here@)) + rest);
            }
            append_mismatches(&mut out, here);
        } else {
            proof {
                assert(before + (Seq::<MismatchView>::empty() + rest) =~= before + rest);
            }
        }
        j = j + 1;
    }
    proof {
        assert(views(out@) + Seq::<MismatchView>::empty() =~= views(out@));
    }
    out
}

fn match_elements(
    point: &Vec<PathToken>,
    e: &Json,
    ee: &Vec<Json>,
    ae: &Vec<Json>,
    rules: &Matchers,
    paths: &Vec<Option<Vec<PathToken>>>,
) -> (out: Vec<Mismatch>)
    requires
        paths_view(paths@) == rule_paths(rules@),
        *e == Json::Array(*ee),
    ensures
        views(out@) == elements_from(
            views(point@),
            e@->Array_0,
            Json::Array(*ae)@->Array_0,
            rules@,
            0,
        ),
    decreases e, 0nat,
{
    let ghost pv = views(point@);
    let ghost ev = e@->Array_0;
    let ghost av = Json::Array(*ae)@->Array_0;
    let mut out = no_mismatch();
    let mut i: usize = 0;
    while i < ee.len() && i < ae.len()
        invariant
            paths_view(paths@) == rule_paths(rules@),
            *e == Json::Array(*ee),
            pv == views(point@),
            ev == e@->Array_0,
            av == Json::Array(*ae)@->Array_0,
            i <= ee.len(),
            i <= ae.len(),
            views(out@) + elements_from(pv, ev, av, rules@, i as int) == elements_from(
                pv,
                ev,
                av,
                rules@,
                0,
            ),
        decreases ee.len() - i,
    {
        let ghost before = views(out@);
        let ghost rest = elements_from(pv, ev, av, rules@, i + 1);
        let child = child_path(point, PathToken::Index(i));
        proof {
            assert(decreases_to!(*e => e->Array_0));
            assert(decreases_to!(e->Array_0 => e->Array_0[i as int]));
        }
        let here = match_node(&child, &ee[i], &ae[i], rules, paths);
        proof {
            assert(before + (views(here@) + rest) =~= (before + views(here@)) + rest);
        }
        append_mismatches(&mut out, here);
        i = i + 1;
    }
    proof {
        assert(views(out@) + Seq::<MismatchView>::empty() =~= views(out@));
    }
    out
}

fn match_first_failing(
    point: &Vec<PathToken>,
    e: &Json,
    example: &Json,
    ae: &Vec<Json>,
    rules: &Matchers,
    paths: &Vec<Option<Vec<PathToken>>>,
) -> (out: Vec<Mismatch>)
    requires
        paths_view(paths@) == rule_paths(rules@),
        decreases_to!(*e => *example),
    ensures
        views(out@) == first_failing(
            views(point@),
            example@,
            Json::Array(*ae)@->Array_0,
            rules@,
            0,
        ),
    decreases e, 0nat,
{
    let ghost pv = views(point@);
    let ghost av = Json::Array(*ae)@->Array_0;
    let mut found = no_mismatch();
    let mut j: usize = 0;
    while j < ae.len() && found.len() == 0
        invariant
            paths_view(paths@) == rule_paths(rules@),
            decreases_to!(*e => *example),
            pv == views(point@),
            av == Json::Array(*ae)@->Array_0,
            j <= ae.len(),
            first_failing(pv, example@, av, rules@, 0) == (if views(found@).len() > 0 {
                views(found@)
            } else {
                first_failing(pv, example@, av, rules@, j as int)
            }),
        decreases ae.len() - j,
    {
        let child = child_path(point, PathToken::Index(j));
        found = match_node(&child, example, &ae[j], rules, paths);
        j = j + 1;
    }
    proof {
        if views(found@).len() == 0 {
            assert(views(found@) =~= Seq::<MismatchView>::empty());
        }
    }
    found
}

fn match_node(
    point: &Vec<PathToken>,
    e: &Json,
    a: &Json,
    rules: &Matchers,
    paths: &Vec<Option<Vec<PathToken>>>,
) -> (out: Vec<Mismatch>)
    requires
        paths_view(paths@) == rule_paths(rules@),
    ensures
        views(out@) == node_mismatches(views(point@), e@, a@, rules@),
    decreases e, 1nat,
{
    let ghost pv = views(point@);
    let best = best_rule(paths, point);
    proof {
        best_upto_applies(paths_view(paths@), pv, paths@.len() as int);
        assert(paths_view(paths@).len() == paths@.len());
        assert(rule_paths(rules@).len() == rules.entries@.len());
    }
    let mut rule: Option<&Rule> = None;
    let mut min: Option<usize> = None;
    let mut max: Option<usize> = None;
    match best {
        Some(b) => {
            let r = &rules.entries[b].1;
            rule = Some(r);
            let exact = match &paths[b] {
                Some(p) => p.len() == point.len(),
                None => false,
            };
            proof {
                assert(paths_view(paths@)[b as int] == rule_paths(rules@)[b as int]);
            }
            if exact {
                min = bound_of(r, "min");
                max = bound_of(r, "max");
            }
        },
        None => {},
    }
    assert(option_rule(rule) == selected_rule(rules@, pv));
    assert(min == bound_at(rules@, pv, "min"@));
    assert(max == bound_at(rules@, pv, "max"@));
    let matcher = matcher_for(rule);
    if min.is_some() || max.is_some() {
        match a {
            Json::Array(ae) => {
                let mut out = no_mismatch();
                let too_few = match min {
                    Some(m) => ae.len() < m,
                    None => false,
                };
                if too_few {
                    append_mismatches(
                        &mut out,
                        one_value_mismatch(point, e, a, Reason::TooFewElements),
                    );
                }
                let too_many = match max {
                    Some(m) => ae.len() > m,
                    None => false,
                };
                if too_many {
                    append_mismatches(
                        &mut out,
                        one_value_mismatch(point, e, a, Reason::TooManyElements),
                    );
                }
                match e {
                    Json::Array(ee) => {
                        if ee.len() > 0 {
                            proof {
                                assert(decreases_to!(*e => e->Array_0));
                                assert(decreases_to!(e->Array_0 => e->Array_0[0]));
                            }
                            let found = match_first_failing(point, e, &ee[0], ae, rules, paths);
                            append_mismatches(&mut out, found);
                        }
                    },
                    _ => {},
                }
                proof {
                    assert(views(out@) =~= array_like(pv, e@, a@, rules@, min, max));
                }
                out
            },
            _ => one_value_mismatch(point, e, a, Reason::WrongType),
        }
    } else if matcher != Matcher::Equality && matcher != Matcher::Type {
        if value_passes(matcher, rule, a) {
            no_mismatch()
        } else {
            one_value_mismatch(point, e, a, reason_for(matcher))
        }
    } else if e.kind() != a.kind() {
        one_value_mismatch(point, e, a, reason_for(matcher))
    } else {
        match e {
            Json::Object(em) => match a {
                Json::Object(am) => {
                    let mut out = match_members(point, e, em, am, rules, paths);
                    let extra = match_unexpected(point, em, am);
                    append_mismatches(&mut out, extra);
                    out
                },
                _ => no_mismatch(),
            },
            Json::Array(ee) => match a {
                Json::Array(ae) => {
                    let mut out = no_mismatch();
                    if ee.len() != ae.len() {
                        append_mismatches(
                            &mut out,
                            one_value_mismatch(point, e, a, Reason::LengthDiffers),
                        );
                    }
                    let inner = match_elements(point, e, ee, ae, rules, paths);
                    append_mismatches(&mut out, inner);
                    proof {
                        assert(views(out@) =~= children(pv, e@, a@, rules@));
                    }
                    out
                },
                _ => no_mismatch(),
            },
            _ => {
                if matcher == Matcher::Type || leaves_equal(e, a) {
                    no_mismatch()
                } else {
                    one_value_mismatch(point, e, a, Reason::NotEqual)
                }
            },
        }
    }
}

/// The mismatches of the JSON document `actual` against `expected` at
/// the place `point`, under the rules `rules`.
pub fn match_json(point: &Vec<PathToken>, expected: &Json, actual: &Json, rules: &Matchers) -> (out:
    Vec<Mismatch>)
    ensures
        views(out@) == node_mismatches(views(point@), expected@, actual@, rules@),
{
    let paths = parse_rule_paths(rules);
    match_node(point, expected, actual, rules, &paths)
}

} // verus!
