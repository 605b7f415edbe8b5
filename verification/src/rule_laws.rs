//! What holds of the choice of the rule that counts at a place.

use crate::json::JsonValue;
use crate::match_json::{
    bound_at, element_point, elements_from, first_failing, member_point, members_from,
    node_mismatches,
};
use crate::models::MatchersView;
use crate::path_exp::{
    applies, best_upto, compare_from, more_specific, parse_path, rule_paths, score, selected_rule,
    token_matches, PathView,
};
use vstd::prelude::*;

verus! {

/// Comparing two paths one way round gives the opposite of comparing
/// them the other way round.
pub proof fn compare_is_antisymmetric(a: PathView, b: PathView, k: int)
    requires
        0 <= k,
    ensures
        compare_from(a, b, k) == -compare_from(b, a, k),
    decreases a.len() - k,
{
    if k < a.len() && k < b.len() && score(a[k]) == score(b[k]) {
        compare_is_antisymmetric(a, b, k + 1);
    }
}

/// Where `a` is no more specific than `b` and `b` no more than `c`, `a`
/// is no more specific than `c`; and it is less specific where one of
/// the two steps is strict.
pub proof fn compare_is_transitive(a: PathView, b: PathView, c: PathView, k: int)
    requires
        0 <= k,
        compare_from(a, b, k) <= 0,
        compare_from(b, c, k) <= 0,
    ensures
        compare_from(a, c, k) <= 0,
        compare_from(a, b, k) < 0 || compare_from(b, c, k) < 0 ==> compare_from(a, c, k) < 0,
    decreases a.len() - k,
{
    if k < a.len() && k < b.len() && k < c.len() {
        if score(a[k]) == score(b[k]) && score(b[k]) == score(c[k]) {
            compare_is_transitive(a, b, c, k + 1);
        }
    }
}

/// Whether the path at position `k` applies at a place.
pub open spec fn applies_at(paths: Seq<Option<PathView>>, point: PathView, k: int) -> bool {
    0 <= k < paths.len() && paths[k] is Some && applies(paths[k]->0, point)
}

/// Whether position `b` holds the path that counts among the first `n`:
/// it applies, none that applies is more specific, and each later one
/// that applies is less specific.
pub open spec fn is_best(paths: Seq<Option<PathView>>, point: PathView, n: int, b: int) -> bool {
    &&& 0 <= b < n
    &&& applies_at(paths, point, b)
    &&& forall|k: int|
        0 <= k < n && #[trigger] applies_at(paths, point, k) ==> !more_specific(
            paths[k]->0,
            paths[b]->0,
        )
    &&& forall|k: int|
        b < k < n && #[trigger] applies_at(paths, point, k) ==> more_specific(
            paths[b]->0,
            paths[k]->0,
        )
}

/// `best_upto` gives the position that `is_best` describes, and -1 only
/// where no path applies.
pub proof fn best_upto_is_best(paths: Seq<Option<PathView>>, point: PathView, n: int)
    requires
        0 <= n <= paths.len(),
    ensures
        best_upto(paths, point, n) >= 0 ==> is_best(paths, point, n, best_upto(paths, point, n)),
        best_upto(paths, point, n) < 0 ==> forall|k: int|
            0 <= k < n ==> !#[trigger] applies_at(paths, point, k),
    decreases n,
{
    if n > 0 {
        best_upto_is_best(paths, point, n - 1);
        let before = best_upto(paths, point, n - 1);
        let now = best_upto(paths, point, n);
        if applies_at(paths, point, n - 1) {
            let new = paths[n - 1]->0;
            if before >= 0 {
                let old = paths[before]->0;
                compare_is_antisymmetric(old, new, 0);
                compare_is_antisymmetric(new, old, 0);
                if now == n - 1 {
                    assert forall|k: int|
                        0 <= k < n && #[trigger] applies_at(paths, point, k) implies !more_specific(
                        paths[k]->0,
                        new,
                    ) by {
                        if k < n - 1 {
                            compare_is_antisymmetric(paths[k]->0, old, 0);
                            compare_is_transitive(paths[k]->0, old, new, 0);
                        } else {
                            compare_is_antisymmetric(new, new, 0);
                        }
                    }
                } else {
                    assert(now == before);
                }
            } else {
                compare_is_antisymmetric(new, new, 0);
            }
        }
    }
}

/// At most one position is the best.
pub proof fn best_is_unique(paths: Seq<Option<PathView>>, point: PathView, n: int, x: int, y: int)
    requires
        is_best(paths, point, n, x),
        is_best(paths, point, n, y),
    ensures
        x == y,
{
    if x < y {
        assert(applies_at(paths, point, y));
        assert(applies_at(paths, point, x));
    } else if y < x {
        assert(applies_at(paths, point, x));
        assert(applies_at(paths, point, y));
    }
}

/// The position of an entry once the entry at `j` is taken out.
pub open spec fn shifted(b: int, j: int) -> int {
    if b > j {
        b - 1
    } else {
        b
    }
}

/// Taking out a rule whose path applies at a place, while a rule with a
/// strictly more specific path applies there too, leaves the rule that
/// counts at the place as it was, and with it the bounds that count
/// there.
pub proof fn specific_rule_wins(rules: MatchersView, point: PathView, i: int, j: int)
    requires
        0 <= i < rules.len(),
        0 <= j < rules.len(),
        parse_path(rules[i].0) is Some,
        parse_path(rules[j].0) is Some,
        applies(parse_path(rules[i].0)->0, point),
        applies(parse_path(rules[j].0)->0, point),
        more_specific(parse_path(rules[i].0)->0, parse_path(rules[j].0)->0),
    ensures
        selected_rule(rules.remove(j), point) == selected_rule(rules, point),
        forall|name: Seq<char>|
            bound_at(rules.remove(j), point, name) == #[trigger] bound_at(rules, point, name),
{
    let paths = rule_paths(rules);
    let fewer = rule_paths(rules.remove(j));
    let n = rules.len() as int;
    assert(fewer =~= paths.remove(j));
    best_upto_is_best(paths, point, n);
    best_upto_is_best(fewer, point, n - 1);
    let b = best_upto(paths, point, n);
    assert(applies_at(paths, point, i));
    assert(applies_at(paths, point, j));
    assert(b >= 0);
    compare_is_antisymmetric(paths[i]->0, paths[i]->0, 0);
    assert(i != j);
    assert(b != j);
    let c = shifted(b, j);
    assert forall|k: int| 0 <= k < n - 1 implies (applies_at(fewer, point, k) <==> applies_at(
        paths,
        point,
        if k >= j {
            k + 1
        } else {
            k
        },
    )) by {}
    assert(is_best(fewer, point, n - 1, c)) by {
        assert(applies_at(fewer, point, c));
        assert forall|k: int|
            0 <= k < n - 1 && #[trigger] applies_at(fewer, point, k) implies !more_specific(
            fewer[k]->0,
            fewer[c]->0,
        ) by {
            let orig = if k >= j {
                k + 1
            } else {
                k
            };
            assert(applies_at(paths, point, orig));
        }
        assert forall|k: int|
            c < k < n - 1 && #[trigger] applies_at(fewer, point, k) implies more_specific(
            fewer[c]->0,
            fewer[k]->0,
        ) by {
            let orig = if k >= j {
                k + 1
            } else {
                k
            };
            assert(applies_at(paths, point, orig));
        }
    }
    let d = best_upto(fewer, point, n - 1);
    assert(d >= 0) by {
        if d < 0 {
            assert(!applies_at(fewer, point, c));
        }
    }
    best_is_unique(fewer, point, n - 1, c, d);
    assert(rules.remove(j)[c] == rules[b]);
    assert(fewer[c] == paths[b]);
}

/// Whether the path `q` leads to the place of `p` or below it.
pub open spec fn extends(q: PathView, p: PathView) -> bool {
    p.len() <= q.len() && q.take(p.len() as int) == p
}

/// Whether two sets of rules make the same choice at a place and at
/// every place below it.
pub open spec fn agree_below(first: MatchersView, second: MatchersView, point: PathView) -> bool {
    forall|q: PathView| #[trigger]
        extends(q, point) ==> selected_rule(first, q) == selected_rule(second, q) && bound_at(
            first,
            q,
            "min"@,
        ) == bound_at(second, q, "min"@) && bound_at(first, q, "max"@) == bound_at(
            second,
            q,
            "max"@,
        )
}

/// What leads below a place that is below another leads below that one.
pub proof fn agree_below_child(
    first: MatchersView,
    second: MatchersView,
    point: PathView,
    child: PathView,
)
    requires
        agree_below(first, second, point),
        extends(child, point),
    ensures
        agree_below(first, second, child),
{
    assert forall|q: PathView| #[trigger] extends(q, child) implies extends(q, point) by {
        assert(q.take(point.len() as int) =~= q.take(child.len() as int).take(point.len() as int));
    }
}

/// Two sets of rules that make the same choice at a place and below it
/// give the same mismatches there.
pub proof fn same_choice_same_mismatches(
    point: PathView,
    e: JsonValue,
    a: JsonValue,
    first: MatchersView,
    second: MatchersView,
)
    requires
        agree_below(first, second, point),
    ensures
        node_mismatches(point, e, a, first) == node_mismatches(point, e, a, second),
    decreases e, 1nat,
{
    assert(extends(point, point)) by {
        assert(point.take(point.len() as int) =~= point);
    }
    let min = bound_at(first, point, "min"@);
    let max = bound_at(first, point, "max"@);
    match (e, a) {
        (JsonValue::Object(em), JsonValue::Object(am)) => {
            same_choice_same_members(point, em, am, first, second, 0);
        },
        (JsonValue::Array(ee), JsonValue::Array(ae)) => {
            same_choice_same_elements(point, ee, ae, first, second, 0);
            if ee.len() > 0 {
                same_choice_same_first_failing(point, ee[0], ae, first, second, 0);
            }
        },
        (JsonValue::Array(ee), _) => {},
        (_, JsonValue::Array(ae)) => {},
        _ => {},
    }
}

/// The same of the members of two objects.
pub proof fn same_choice_same_members(
    point: PathView,
    em: Seq<(Seq<char>, JsonValue)>,
    am: Seq<(Seq<char>, JsonValue)>,
    first: MatchersView,
    second: MatchersView,
    i: int,
)
    requires
        agree_below(first, second, point),
    ensures
        members_from(point, em, am, first, i) == members_from(point, em, am, second, i),
    decreases em, em.len() - i,
{
    if 0 <= i < em.len() {
        let name = em[i].0;
        let at = JsonValue::position(am, name);
        let child = member_point(point, name);
        assert(extends(child, point)) by {
            assert(child.take(point.len() as int) =~= point);
        }
        agree_below_child(first, second, point, child);
        if 0 <= at < am.len() {
            same_choice_same_mismatches(child, em[i].1, am[at].1, first, second);
        }
        same_choice_same_members(point, em, am, first, second, i + 1);
    }
}

/// The same of the elements of two arrays.
pub proof fn same_choice_same_elements(
    point: PathView,
    ee: Seq<JsonValue>,
    ae: Seq<JsonValue>,
    first: MatchersView,
    second: MatchersView,
    i: int,
)
    requires
        agree_below(first, second, point),
    ensures
        elements_from(point, ee, ae, first, i) == elements_from(point, ee, ae, second, i),
    decreases ee, ee.len() - i,
{
    if 0 <= i < ee.len() && i < ae.len() {
        let child = element_point(point, i);
        assert(extends(child, point)) by {
            assert(child.take(point.len() as int) =~= point);
        }
        agree_below_child(first, second, point, child);
        same_choice_same_mismatches(child, ee[i], ae[i], first, second);
        same_choice_same_elements(point, ee, ae, first, second, i + 1);
    }
}

/// The same of the elements of an array that are held against one
/// example.
pub proof fn same_choice_same_first_failing(
    point: PathView,
    example: JsonValue,
    ae: Seq<JsonValue>,
    first: MatchersView,
    second: MatchersView,
    j: int,
)
    requires
        agree_below(first, second, point),
    ensures
        first_failing(point, example, ae, first, j) == first_failing(point, example, ae, second, j),
    decreases example, ae.len() - j + 2,
{
    if 0 <= j < ae.len() {
        let child = element_point(point, j);
        assert(extends(child, point)) by {
            assert(child.take(point.len() as int) =~= point);
        }
        agree_below_child(first, second, point, child);
        same_choice_same_mismatches(child, example, ae[j], first, second);
        same_choice_same_first_failing(point, example, ae, first, second, j + 1);
    }
}

/// A path that applies at a place applies at every place below it.
pub proof fn applies_below(rule: PathView, point: PathView, q: PathView)
    requires
        applies(rule, point),
        extends(q, point),
    ensures
        applies(rule, q),
{
    assert forall|k: int| 0 <= k < rule.len() implies token_matches(#[trigger] rule[k], q[k]) by {
        assert(q.take(point.len() as int)[k] == q[k]);
    }
}

/// Where two rules apply at a place and the path of one is strictly more
/// specific than that of the other, taking the other out changes no
/// mismatch of any two values at that place.
pub proof fn specific_rule_decides(
    rules: MatchersView,
    point: PathView,
    i: int,
    j: int,
    e: JsonValue,
    a: JsonValue,
)
    requires
        0 <= i < rules.len(),
        0 <= j < rules.len(),
        parse_path(rules[i].0) is Some,
        parse_path(rules[j].0) is Some,
        applies(parse_path(rules[i].0)->0, point),
        applies(parse_path(rules[j].0)->0, point),
        more_specific(parse_path(rules[i].0)->0, parse_path(rules[j].0)->0),
    ensures
        node_mismatches(point, e, a, rules.remove(j)) == node_mismatches(point, e, a, rules),
{
    assert forall|q: PathView| #[trigger] extends(q, point) implies selected_rule(
        rules.remove(j),
        q,
    ) == selected_rule(rules, q) && bound_at(rules.remove(j), q, "min"@) == bound_at(
        rules,
        q,
        "min"@,
    ) && bound_at(rules.remove(j), q, "max"@) == bound_at(rules, q, "max"@) by {
        applies_below(parse_path(rules[i].0)->0, point, q);
        applies_below(parse_path(rules[j].0)->0, point, q);
        specific_rule_wins(rules, q, i, j);
    }
    same_choice_same_mismatches(point, e, a, rules.remove(j), rules);
}

} // verus!
