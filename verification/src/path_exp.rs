//! Path expressions: the selectors by which a matching rule names the
//! places it is for, such as `$.body.items[*].id`.

use crate::models::{Matchers, MatchersView, RuleView};
use crate::text::{
    chars_of, clone_pairs, decimal, decimal_number, decimal_text, is_digit, option_text,
    parse_decimal, string_of, views,
};
use vstd::prelude::*;

verus! {

/// One step of a path: a member by name, an element by index, or a
/// wildcard for either.
#[derive(Debug, PartialEq, Eq)]
pub enum PathToken {
    /// The member with this name.
    Field(String),
    /// The element at this index.
    Index(usize),
    /// Any element.
    AnyIndex,
    /// Any member.
    AnyField,
}

/// The mathematical value of a `PathToken`.
pub enum TokenView {
    Field(Seq<char>),
    Index(usize),
    AnyIndex,
    AnyField,
}

impl View for PathToken {
    type V = TokenView;

    open spec fn view(&self) -> TokenView {
        match self {
            PathToken::Field(name) => TokenView::Field(name@),
            PathToken::Index(i) => TokenView::Index(*i),
            PathToken::AnyIndex => TokenView::AnyIndex,
            PathToken::AnyField => TokenView::AnyField,
        }
    }
}

impl Clone for PathToken {
    fn clone(&self) -> (copy: PathToken)
        ensures
            copy@ == self@,
    {
        match self {
            PathToken::Field(name) => PathToken::Field(name.clone()),
            PathToken::Index(i) => PathToken::Index(*i),
            PathToken::AnyIndex => PathToken::AnyIndex,
            PathToken::AnyField => PathToken::AnyField,
        }
    }
}

/// A path as a sequence of steps from the root.
pub type PathView = Seq<TokenView>;

/// The first position from `from` on that holds a dot or an opening
/// bracket, or the length of the text.
pub open spec fn name_end(s: Seq<char>, from: int) -> int
    decreases s.len() - from,
{
    if from < 0 || from >= s.len() || s[from] == '.' || s[from] == '[' {
        from
    } else {
        name_end(s, from + 1)
    }
}

/// The first position from `from` on that holds a single quote, or the
/// length of the text.
pub open spec fn quote_end(s: Seq<char>, from: int) -> int
    decreases s.len() - from,
{
    if from < 0 || from >= s.len() || s[from] == '\'' {
        from
    } else {
        quote_end(s, from + 1)
    }
}

/// The first position from `from` on that holds no digit, or the length
/// of the text.
pub open spec fn digits_end(s: Seq<char>, from: int) -> int
    decreases s.len() - from,
{
    if from < 0 || from >= s.len() || !is_digit(s[from]) {
        from
    } else {
        digits_end(s, from + 1)
    }
}

/// A list of steps with one more in front, where there is a list.
pub open spec fn prepend(token: TokenView, rest: Option<PathView>) -> Option<PathView> {
    match rest {
        Some(tokens) => Some(seq![token] + tokens),
        None => None,
    }
}

/// The steps that a path expression holds from position `at` on: `.name`,
/// `.*`, `['name']`, `[index]` and `[*]`, one after the other. A text that
/// holds anything else stands for no path.
pub open spec fn parse_from(s: Seq<char>, at: int) -> Option<PathView>
    decreases s.len() - at,
{
    if at < 0 {
        None
    } else if at >= s.len() {
        Some(Seq::empty())
    } else if s[at] == '.' {
        let end = name_end(s, at + 1);
        if end <= at + 1 || end > s.len() {
            None
        } else {
            let name = s.subrange(at + 1, end);
            let token = if name == seq!['*'] {
                TokenView::AnyField
            } else {
                TokenView::Field(name)
            };
            prepend(token, parse_from(s, end))
        }
    } else if s[at] == '[' {
        if at + 2 < s.len() && s[at + 1] == '*' && s[at + 2] == ']' {
            prepend(TokenView::AnyIndex, parse_from(s, at + 3))
        } else if at + 1 < s.len() && s[at + 1] == '\'' {
            let close = quote_end(s, at + 2);
            if close >= at + 2 && close + 1 < s.len() && s[close + 1] == ']' {
                prepend(TokenView::Field(s.subrange(at + 2, close)), parse_from(s, close + 2))
            } else {
                None
            }
        } else {
            let end = digits_end(s, at + 1);
            if end > at + 1 && end < s.len() && s[end] == ']' {
                match decimal_number(s.subrange(at + 1, end)) {
                    Some(n) => prepend(TokenView::Index(n), parse_from(s, end + 1)),
                    None => None,
                }
            } else {
                None
            }
        }
    } else {
        None
    }
}

/// The path that an expression stands for: the steps behind the leading
/// `$`. An expression without it stands for no path.
pub open spec fn parse_path(s: Seq<char>) -> Option<PathView> {
    if s.len() > 0 && s[0] == '$' {
        parse_from(s, 1)
    } else {
        None
    }
}

/// Whether a step of a rule's path lets a step of a place pass.
pub open spec fn token_matches(rule: TokenView, point: TokenView) -> bool {
    match (rule, point) {
        (TokenView::Field(a), TokenView::Field(b)) => a == b,
        (TokenView::Index(a), TokenView::Index(b)) => a == b,
        (TokenView::AnyIndex, TokenView::Index(_)) => true,
        (TokenView::AnyField, TokenView::Field(_)) => true,
        _ => false,
    }
}

/// Whether a rule's path applies at a place: step by step it lets the
/// place's path pass, as far as the rule's path goes.
pub open spec fn applies(rule: PathView, point: PathView) -> bool {
    rule.len() <= point.len() && forall|i: int|
        0 <= i < rule.len() ==> token_matches(#[trigger] rule[i], point[i])
}

/// The score of a step: 2 for a name or an index, 1 for a wildcard.
pub open spec fn score(token: TokenView) -> int {
    match token {
        TokenView::Field(_) => 2,
        TokenView::Index(_) => 2,
        TokenView::AnyIndex => 1,
        TokenView::AnyField => 1,
    }
}

/// Compares two paths by their scores from step `k` on: 1 where `a` is
/// the more specific, -1 where `b` is, 0 where neither is. The first step
/// with different scores decides; where there is none, the longer path is
/// the more specific.
pub open spec fn compare_from(a: PathView, b: PathView, k: int) -> int
    decreases a.len() - k,
{
    if k < 0 {
        0
    } else if k >= a.len() {
        if k >= b.len() {
            0
        } else {
            -1
        }
    } else if k >= b.len() {
        1
    } else if score(a[k]) > score(b[k]) {
        1
    } else if score(a[k]) < score(b[k]) {
        -1
    } else {
        compare_from(a, b, k + 1)
    }
}

/// Whether `a` is strictly more specific than `b`.
pub open spec fn more_specific(a: PathView, b: PathView) -> bool {
    compare_from(a, b, 0) > 0
}

/// The paths of the entries of a set of rules, in order.
pub open spec fn rule_paths(rules: MatchersView) -> Seq<Option<PathView>> {
    Seq::new(rules.len(), |i: int| parse_path(rules[i].0))
}

/// The position of the rule that counts at a place among the first `n`:
/// the most specific of those that apply and, of several that are equally
/// specific, the latest. -1 where none applies.
pub open spec fn best_upto(paths: Seq<Option<PathView>>, point: PathView, n: int) -> int
    decreases n,
{
    if n <= 0 || n > paths.len() {
        -1
    } else {
        let before = best_upto(paths, point, n - 1);
        match paths[n - 1] {
            Some(path) => if applies(path, point) && (before < 0 || !more_specific(
                paths[before]->0,
                path,
            )) {
                n - 1
            } else {
                before
            },
            None => before,
        }
    }
}

/// The position of the rule that counts at a place, or -1.
pub open spec fn best_position(paths: Seq<Option<PathView>>, point: PathView) -> int {
    best_upto(paths, point, paths.len() as int)
}

/// The rule that counts at a place, if any applies there.
pub open spec fn selected_rule(rules: MatchersView, point: PathView) -> Option<RuleView> {
    let best = best_position(rule_paths(rules), point);
    if 0 <= best < rules.len() {
        Some(rules[best].1)
    } else {
        None
    }
}

/// `best_upto` gives -1 or a position below `n` whose path applies.
pub proof fn best_upto_applies(paths: Seq<Option<PathView>>, point: PathView, n: int)
    requires
        0 <= n <= paths.len(),
    ensures
        -1 <= best_upto(paths, point, n) < n,
        best_upto(paths, point, n) >= 0 ==> paths[best_upto(paths, point, n)] is Some && applies(
            paths[best_upto(paths, point, n)]->0,
            point,
        ),
    decreases n,
{
    if n > 0 {
        best_upto_applies(paths, point, n - 1);
    }
}

/// The views of a list of paths, each of which may be absent.
pub open spec fn paths_view(paths: Seq<Option<Vec<PathToken>>>) -> Seq<Option<PathView>> {
    Seq::new(
        paths.len(),
        |i: int|
            match paths[i] {
                Some(tokens) => Some(views(tokens@)),
                None => None,
            },
    )
}

/// The view of a path that may be absent.
pub open spec fn option_path(path: Option<Vec<PathToken>>) -> Option<PathView> {
    match path {
        Some(tokens) => Some(views(tokens@)),
        None => None,
    }
}

fn find_name_end(s: &Vec<char>, from: usize) -> (end: usize)
    requires
        from <= s.len(),
    ensures
        end == name_end(s@, from as int),
        from <= end <= s.len(),
{
    let mut i: usize = from;
    while i < s.len() && s[i] != '.' && s[i] != '['
        invariant
            from <= i <= s.len(),
            name_end(s@, from as int) == name_end(s@, i as int),
        decreases s.len() - i,
    {
        i = i + 1;
    }
    i
}

fn find_quote_end(s: &Vec<char>, from: usize) -> (end: usize)
    requires
        from <= s.len(),
    ensures
        end == quote_end(s@, from as int),
        from <= end <= s.len(),
{
    let mut i: usize = from;
    while i < s.len() && s[i] != '\''
        invariant
            from <= i <= s.len(),
            quote_end(s@, from as int) == quote_end(s@, i as int),
        decreases s.len() - i,
    {
        i = i + 1;
    }
    i
}

fn find_digits_end(s: &Vec<char>, from: usize) -> (end: usize)
    requires
        from <= s.len(),
    ensures
        end == digits_end(s@, from as int),
        from <= end <= s.len(),
{
    let mut i: usize = from;
    while i < s.len() && '0' <= s[i] && s[i] <= '9'
        invariant
            from <= i <= s.len(),
            digits_end(s@, from as int) == digits_end(s@, i as int),
        decreases s.len() - i,
    {
        i = i + 1;
    }
    i
}

fn slice_of(s: &Vec<char>, from: usize, to: usize) -> (part: Vec<char>)
    requires
        from <= to <= s.len(),
    ensures
        part@ == s@.subrange(from as int, to as int),
{
    let mut part: Vec<char> = Vec::new();
    let mut k: usize = from;
    while k < to
        invariant
            from <= k <= to <= s.len(),
            part@ == s@.subrange(from as int, k as int),
        decreases to - k,
    {
        part.push(s[k]);
        k = k + 1;
        assert(s@.subrange(from as int, k as int) =~= s@.subrange(from as int, k - 1).push(
            s@[k - 1],
        ));
    }
    part
}

fn with_first(token: PathToken, rest: Option<Vec<PathToken>>) -> (r: Option<Vec<PathToken>>)
    ensures
        option_path(r) == prepend(token@, option_path(rest)),
{
    match rest {
        Some(mut tokens) => {
            let ghost before = views(tokens@);
            tokens.insert(0, token);
            assert(views(tokens@) =~= seq![token@] + before);
            Some(tokens)
        },
        None => None,
    }
}

fn parse_tokens(s: &Vec<char>, at: usize) -> (r: Option<Vec<PathToken>>)
    ensures
        option_path(r) == parse_from(s@, at as int),
    decreases s.len() - at,
{
    if at >= s.len() {
        let tokens: Vec<PathToken> = Vec::new();
        assert(views(tokens@) =~= Seq::<TokenView>::empty());
        return Some(tokens);
    }
    if s[at] == '.' {
        let end = find_name_end(s, at + 1);
        if end <= at + 1 {
            return None;
        }
        let name = slice_of(s, at + 1, end);
        let token = if name.len() == 1 && name[0] == '*' {
            assert(name@ =~= seq!['*']);
            PathToken::AnyField
        } else {
            assert(name@ != seq!['*']) by {
                if name@ == seq!['*'] {
                    assert(name@.len() == 1);
                    assert(name@[0] == '*');
                }
            }
            PathToken::Field(string_of(&name))
        };
        with_first(token, parse_tokens(s, end))
    } else if s[at] == '[' {
        if s.len() - at > 2 && s[at + 1] == '*' && s[at + 2] == ']' {
            with_first(PathToken::AnyIndex, parse_tokens(s, at + 3))
        } else if s.len() - at > 1 && s[at + 1] == '\'' {
            let close = find_quote_end(s, at + 2);
            if close < s.len() && s.len() - close > 1 && s[close + 1] == ']' {
                let name = slice_of(s, at + 2, close);
                with_first(PathToken::Field(string_of(&name)), parse_tokens(s, close + 2))
            } else {
                None
            }
        } else {
            let end = find_digits_end(s, at + 1);
            if end > at + 1 && end < s.len() && s[end] == ']' {
                let digits = slice_of(s, at + 1, end);
                match parse_decimal(&digits) {
                    Some(n) => with_first(PathToken::Index(n), parse_tokens(s, end + 1)),
                    None => None,
                }
            } else {
                None
            }
        }
    } else {
        None
    }
}

/// Reads a path expression. One that is not well formed gives nothing.
pub fn parse_path_exp(expression: &str) -> (r: Option<Vec<PathToken>>)
    ensures
        option_path(r) == parse_path(expression@),
{
    let s = chars_of(expression);
    if s.len() > 0 && s[0] == '$' {
        parse_tokens(&s, 1)
    } else {
        None
    }
}

/// Reads the path expressions of a set of rules, in order.
pub fn parse_rule_paths(rules: &Matchers) -> (paths: Vec<Option<Vec<PathToken>>>)
    ensures
        paths_view(paths@) == rule_paths(rules@),
{
    let mut paths: Vec<Option<Vec<PathToken>>> = Vec::new();
    let mut i: usize = 0;
    while i < rules.entries.len()
        invariant
            i <= rules.entries.len(),
            paths@.len() == i,
            forall|k: int| 0 <= k < i ==> option_path(#[trigger] paths@[k]) == parse_path(rules@[k].0),
        decreases rules.entries.len() - i,
    {
        paths.push(parse_path_exp(rules.entries[i].0.as_str()));
        i = i + 1;
    }
    assert(paths_view(paths@) =~= rule_paths(rules@));
    paths
}

fn token_lets_pass(rule: &PathToken, point: &PathToken) -> (r: bool)
    ensures
        r == token_matches(rule@, point@),
{
    match rule {
        PathToken::Field(a) => match point {
            PathToken::Field(b) => *a == *b,
            _ => false,
        },
        PathToken::Index(a) => match point {
            PathToken::Index(b) => *a == *b,
            _ => false,
        },
        PathToken::AnyIndex => match point {
            PathToken::Index(_) => true,
            _ => false,
        },
        PathToken::AnyField => match point {
            PathToken::Field(_) => true,
            _ => false,
        },
    }
}

/// Whether a rule's path applies at a place.
pub fn path_applies(rule: &Vec<PathToken>, point: &Vec<PathToken>) -> (r: bool)
    ensures
        r == applies(views(rule@), views(point@)),
{
    if rule.len() > point.len() {
        return false;
    }
    let mut i: usize = 0;
    while i < rule.len()
        invariant
            i <= rule.len() <= point.len(),
            forall|k: int|
                0 <= k < i ==> token_matches(#[trigger] views(rule@)[k], views(point@)[k]),
        decreases rule.len() - i,
    {
        if !token_lets_pass(&rule[i], &point[i]) {
            assert(!token_matches(views(rule@)[i as int], views(point@)[i as int]));
            return false;
        }
        i = i + 1;
    }
    true
}

fn token_score(token: &PathToken) -> (r: u8)
    ensures
        r == score(token@),
{
    match token {
        PathToken::Field(_) => 2,
        PathToken::Index(_) => 2,
        PathToken::AnyIndex => 1,
        PathToken::AnyField => 1,
    }
}

/// Whether the path `a` is strictly more specific than the path `b`.
pub fn is_more_specific(a: &Vec<PathToken>, b: &Vec<PathToken>) -> (r: bool)
    ensures
        r == more_specific(views(a@), views(b@)),
{
    let mut k: usize = 0;
    while k < a.len() && k < b.len()
        invariant
            k <= a.len(),
            k <= b.len(),
            compare_from(views(a@), views(b@), 0) == compare_from(views(a@), views(b@), k as int),
        decreases a.len() - k,
    {
        let x = token_score(&a[k]);
        let y = token_score(&b[k]);
        if x > y {
            return true;
        }
        if x < y {
            return false;
        }
        k = k + 1;
    }
    k < a.len()
}

/// The position of the rule that counts at a place: the most specific of
/// those whose path applies there and, of several that are equally
/// specific, the one added last.
pub fn best_rule(paths: &Vec<Option<Vec<PathToken>>>, point: &Vec<PathToken>) -> (best: Option<
    usize,
>)
    ensures
        best matches Some(i) ==> i == best_position(paths_view(paths@), views(point@)),
        best is None ==> best_position(paths_view(paths@), views(point@)) < 0,
{
    let mut best: Option<usize> = None;
    let mut i: usize = 0;
    while i < paths.len()
        invariant
            i <= paths.len(),
            best matches Some(b) ==> b < i && b == best_upto(
                paths_view(paths@),
                views(point@),
                i as int,
            ) && paths@[b as int] is Some,
            best is None ==> best_upto(paths_view(paths@), views(point@), i as int) < 0,
        decreases paths.len() - i,
    {
        match &paths[i] {
            Some(path) => {
                if path_applies(path, point) {
                    let take = match best {
                        None => true,
                        Some(b) => match &paths[b] {
                            Some(current) => !is_more_specific(current, path),
                            None => true,
                        },
                    };
                    if take {
                        best = Some(i);
                    }
                }
            },
            None => {},
        }
        i = i + 1;
    }
    best
}

/// Whether a character may stand in an identifier: an ASCII letter, a
/// digit or the underscore.
pub open spec fn is_word_char(c: char) -> bool {
    ('a' <= c && c <= 'z') || ('A' <= c && c <= 'Z') || ('0' <= c && c <= '9') || c == '_'
}

/// Whether a name can stand behind a dot in a path: an ASCII letter or an
/// underscore, followed by letters, digits and underscores.
pub open spec fn is_identifier(name: Seq<char>) -> bool {
    &&& name.len() > 0
    &&& !is_digit(name[0])
    &&& forall|i: int| 0 <= i < name.len() ==> is_word_char(#[trigger] name[i])
}

/// A member's name as a step of a path: behind a dot where it is an
/// identifier, between brackets and quotes where it is not.
pub open spec fn key_text(name: Seq<char>) -> Seq<char> {
    if is_identifier(name) {
        seq!['.'] + name
    } else {
        seq!['[', '\''] + name + seq!['\'', ']']
    }
}

/// A step as it is written in a path.
pub open spec fn step_text(token: TokenView) -> Seq<char> {
    match token {
        TokenView::Field(name) => key_text(name),
        TokenView::Index(i) => seq!['['] + decimal(i as nat) + seq![']'],
        TokenView::AnyIndex => seq!['[', '*', ']'],
        TokenView::AnyField => seq!['.', '*'],
    }
}

/// The first `n` steps of a path as they are written behind `$`.
pub open spec fn location_upto(point: PathView, n: int) -> Seq<char>
    decreases n,
{
    if n <= 0 || n > point.len() {
        seq!['$']
    } else {
        location_upto(point, n - 1) + step_text(point[n - 1])
    }
}

/// A path as it is written: `$` and its steps.
pub open spec fn location(point: PathView) -> Seq<char> {
    location_upto(point, point.len() as int)
}

fn push_chars(out: &mut String, more: &str)
    ensures
        final(out)@ == old(out)@ + more@,
{
    out.append(more);
}

/// Writes a member's name as a step of a path: `.name` where the name is
/// an identifier, `['name']` where it is not.
pub fn obj_key_for_path(key: &str) -> (step: String)
    ensures
        step@ == key_text(key@),
{
    let name = chars_of(key);
    let mut plain = name.len() > 0 && !('0' <= name[0] && name[0] <= '9');
    let mut i: usize = 0;
    while plain && i < name.len()
        invariant
            i <= name.len(),
            plain ==> name.len() > 0 && !is_digit(name@[0]),
            plain ==> forall|k: int| 0 <= k < i ==> is_word_char(#[trigger] name@[k]),
            !plain ==> !is_identifier(name@),
        decreases name.len() - i + if plain { 1nat } else { 0nat },
    {
        let c = name[i];
        if ('a' <= c && c <= 'z') || ('A' <= c && c <= 'Z') || ('0' <= c && c <= '9') || c == '_' {
            i = i + 1;
        } else {
            plain = false;
        }
    }
    let mut step = String::new();
    if plain {
        step.push('.');
        step.append(key);
        assert(step@ =~= seq!['.'] + key@);
    } else {
        step.push('[');
        step.push('\'');
        step.append(key);
        step.push('\'');
        step.push(']');
        assert(step@ =~= seq!['[', '\''] + key@ + seq!['\'', ']']);
    }
    step
}

fn step_string(token: &PathToken) -> (step: String)
    ensures
        step@ == step_text(token@),
{
    match token {
        PathToken::Field(name) => obj_key_for_path(name.as_str()),
        PathToken::Index(i) => {
            let mut step = String::new();
            step.push('[');
            step.append(decimal_text(*i).as_str());
            step.push(']');
            assert(step@ =~= seq!['['] + decimal(*i as nat) + seq![']']);
            step
        },
        PathToken::AnyIndex => {
            let mut step = String::new();
            step.push('[');
            step.push('*');
            step.push(']');
            assert(step@ =~= seq!['[', '*', ']']);
            step
        },
        PathToken::AnyField => {
            let mut step = String::new();
            step.push('.');
            step.push('*');
            assert(step@ =~= seq!['.', '*']);
            step
        },
    }
}

/// Writes a path: `$` and its steps.
pub fn path_string(point: &Vec<PathToken>) -> (text: String)
    ensures
        text@ == location(views(point@)),
{
    let mut text = String::new();
    text.push('$');
    assert(text@ =~= seq!['$']);
    let mut i: usize = 0;
    while i < point.len()
        invariant
            i <= point.len(),
            text@ == location_upto(views(point@), i as int),
        decreases point.len() - i,
    {
        let step = step_string(&point[i]);
        push_chars(&mut text, step.as_str());
        i = i + 1;
    }
    text
}

/// A path with one more step at its end.
pub fn child_path(point: &Vec<PathToken>, step: PathToken) -> (child: Vec<PathToken>)
    ensures
        views(child@) == views(point@).push(step@),
{
    let mut child: Vec<PathToken> = Vec::new();
    let mut i: usize = 0;
    while i < point.len()
        invariant
            i <= point.len(),
            child@.len() == i,
            forall|k: int| 0 <= k < i ==> (#[trigger] child@[k])@ == point@[k]@,
        decreases point.len() - i,
    {
        child.push(point[i].clone());
        i = i + 1;
    }
    child.push(step);
    assert(views(child@) =~= views(point@).push(step@));
    child
}

/// The category of a rule: the part of the message that its path starts
/// in, such as `body`, `headers`, `path` or `query`. A path expression
/// that is not well formed, or that does not start with a name, has none.
pub open spec fn category_of(path: Seq<char>) -> Option<Seq<char>> {
    match parse_path(path) {
        Some(tokens) => if tokens.len() > 0 {
            match tokens[0] {
                TokenView::Field(name) => Some(name),
                _ => None,
            }
        } else {
            None
        },
        None => None,
    }
}

/// The rules from position `i` on that are of a category, in order.
pub open spec fn rules_in_from(rules: MatchersView, category: Seq<char>, i: int) -> MatchersView
    decreases rules.len() - i,
{
    if i < 0 || i >= rules.len() {
        Seq::empty()
    } else if category_of(rules[i].0) == Some(category) {
        seq![rules[i]] + rules_in_from(rules, category, i + 1)
    } else {
        rules_in_from(rules, category, i + 1)
    }
}

/// The rules of a category, in order.
pub open spec fn rules_in(rules: MatchersView, category: Seq<char>) -> MatchersView {
    rules_in_from(rules, category, 0)
}

/// The category of a rule's path expression, if it has one.
pub fn rule_category(path: &str) -> (category: Option<String>)
    ensures
        option_text(category) == category_of(path@),
{
    match parse_path_exp(path) {
        Some(tokens) => {
            if tokens.len() > 0 {
                match &tokens[0] {
                    PathToken::Field(name) => Some(name.clone()),
                    _ => None,
                }
            } else {
                None
            }
        },
        None => None,
    }
}

/// The rules of a category, such as `body` or `headers`, in order.
pub fn rules_of_category(rules: &Matchers, category: &str) -> (found: Matchers)
    ensures
        found@ == rules_in(rules@, category@),
{
    let mut found = Matchers::new();
    let mut i: usize = 0;
    proof {
        assert(found@ + rules_in_from(rules@, category@, 0) =~= rules_in_from(
            rules@,
            category@,
            0,
        ));
    }
    while i < rules.entries.len()
        invariant
            i <= rules.entries.len(),
            found@ + rules_in_from(rules@, category@, i as int) == rules_in_from(
                rules@,
                category@,
                0,
            ),
        decreases rules.entries.len() - i,
    {
        let ghost before = found@;
        let ghost rest = rules_in_from(rules@, category@, i + 1);
        let belongs = match rule_category(rules.entries[i].0.as_str()) {
            Some(name) => name.as_str().eq(category),
            None => false,
        };
        if belongs {
            found.insert(
                rules.entries[i].0.clone(),
                clone_pairs(&rules.entries[i].1),
            );
            proof {
                assert(before + (seq![rules@[i as int]] + rest) =~= found@ + rest);
            }
        }
        i = i + 1;
    }
    proof {
        assert(found@ + MatchersView::empty() =~= found@);
    }
    found
}

} // verus!
