//! Patterns: values that say both what example a pact shows and by what
//! rules an actual value is held against it.

use crate::json::{Json, JsonValue};
use crate::models::{Matchers, MatchersView, Rule, RuleView};
use crate::path_exp::{key_text, obj_key_for_path};
use crate::regex_util::{regex_compiles, regex_is_valid};
use crate::text::{decimal, decimal_text, pairs_view};
use std::marker::PhantomData;
use vstd::prelude::*;
use vstd::std_specs::convert::{FromSpecImpl, IntoSpec};

verus! {

broadcast use vstd::std_specs::vec::group_vec_axioms;

/// A value that stands for an example and for the rules that go with it.
pub trait Pattern: Sized {
    /// What the examples of this kind of pattern are.
    type Matches: View;

    /// The example that the pattern shows.
    spec fn example(&self) -> <Self::Matches as View>::V;

    /// The rules that the pattern asks for at a path, in order.
    spec fn rules(&self, path: Seq<char>) -> MatchersView;

    /// The example that the pattern shows.
    fn to_example(&self) -> (shown: Self::Matches)
        ensures
            shown@ == self.example(),
    ;

    /// Adds the rules that the pattern asks for at `path` to `rules_out`.
    fn extract_matching_rules(&self, path: &str, rules_out: &mut Matchers)
        ensures
            final(rules_out)@ == old(rules_out)@ + self.rules(path@),
    ;
}

/// The rule that asks for a value of the same type.
pub open spec fn type_rule() -> RuleView {
    seq![("match"@, "type"@)]
}

/// The rule that asks for a match of a regular expression.
pub open spec fn regex_rule(source: Seq<char>) -> RuleView {
    seq![("match"@, "regex"@), ("regex"@, source)]
}

/// The rule that asks for an array of at least `min` elements.
pub open spec fn min_rule(min: usize) -> RuleView {
    seq![("match"@, "type"@), ("min"@, decimal(min as nat))]
}

fn make_type_rule() -> (rule: Rule)
    ensures
        pairs_view(rule@) == type_rule(),
{
    let mut rule: Rule = Vec::new();
    rule.push((String::from_str("match"), String::from_str("type")));
    assert(pairs_view(rule@) =~= type_rule());
    rule
}

fn make_regex_rule(source: &str) -> (rule: Rule)
    ensures
        pairs_view(rule@) == regex_rule(source@),
{
    let mut rule: Rule = Vec::new();
    rule.push((String::from_str("match"), String::from_str("regex")));
    rule.push((String::from_str("regex"), String::from_str(source)));
    assert(pairs_view(rule@) =~= regex_rule(source@));
    rule
}

fn make_min_rule(min: usize) -> (rule: Rule)
    ensures
        pairs_view(rule@) == min_rule(min),
{
    let mut rule: Rule = Vec::new();
    rule.push((String::from_str("match"), String::from_str("type")));
    rule.push((String::from_str("min"), decimal_text(min)));
    assert(pairs_view(rule@) =~= min_rule(min));
    rule
}

/// A pattern for a string.
#[derive(Debug)]
pub enum StringPattern {
    /// This very string.
    Literal(String),
    /// Any string, with the example of the pattern inside.
    Like(Box<StringPattern>),
    /// Any string that the regular expression matches, with this example.
    Term { regex: String, example: String },
}

impl StringPattern {
    /// The example that the pattern shows.
    pub open spec fn shown(&self) -> Seq<char>
        decreases self,
    {
        match self {
            StringPattern::Literal(s) => s@,
            StringPattern::Like(inner) => inner.shown(),
            StringPattern::Term { regex, example } => example@,
        }
    }

    /// The rules that the pattern asks for at a path.
    pub open spec fn asked(&self, path: Seq<char>) -> MatchersView
        decreases self,
    {
        match self {
            StringPattern::Literal(_) => Seq::empty(),
            StringPattern::Like(inner) => seq![(path, type_rule())] + inner.asked(path),
            StringPattern::Term { regex, example } => seq![(path, regex_rule(regex@))],
        }
    }
}

impl Pattern for StringPattern {
    type Matches = String;

    open spec fn example(&self) -> Seq<char> {
        self.shown()
    }

    open spec fn rules(&self, path: Seq<char>) -> MatchersView {
        self.asked(path)
    }

    fn to_example(&self) -> (shown: String)
        decreases self,
    {
        match self {
            StringPattern::Literal(s) => s.clone(),
            StringPattern::Like(inner) => inner.to_example(),
            StringPattern::Term { regex, example } => example.clone(),
        }
    }

    fn extract_matching_rules(&self, path: &str, rules_out: &mut Matchers)
        decreases self,
    {
        match self {
            StringPattern::Literal(_) => {
                assert(rules_out@ + Seq::empty() =~= rules_out@);
            },
            StringPattern::Like(inner) => {
                rules_out.insert(String::from_str(path), make_type_rule());
                inner.extract_matching_rules(path, rules_out);
                assert(rules_out@ =~= old(rules_out)@ + self.rules(path@));
            },
            StringPattern::Term { regex, example } => {
                rules_out.insert(String::from_str(path), make_regex_rule(regex.as_str()));
                assert(rules_out@ =~= old(rules_out)@ + self.rules(path@));
            },
        }
    }
}

/// A pattern for a JSON document.
#[derive(Debug)]
pub enum JsonPattern {
    /// This very document.
    Json(Json),
    /// An array of these patterns.
    Array(Vec<JsonPattern>),
    /// An object of these members.
    Object(Vec<(String, JsonPattern)>),
    /// Any value of the type of the example of the pattern inside.
    Like(Box<JsonPattern>),
    /// Any array of at least so many elements like the pattern inside.
    ArrayLike(Box<JsonPattern>, usize),
    /// Any string that the regular expression matches, with this example.
    Term { regex: String, example: String },
}

/// The path of an element below a path.
pub open spec fn index_path(path: Seq<char>, i: int) -> Seq<char> {
    path + seq!['['] + decimal(i as nat) + seq![']']
}

/// The path of a member below a path.
pub open spec fn key_path(path: Seq<char>, name: Seq<char>) -> Seq<char> {
    path + key_text(name)
}

/// The path of every element below a path.
pub open spec fn each_path(path: Seq<char>) -> Seq<char> {
    path + "[*]"@
}

/// The path of every member of every element below a path.
pub open spec fn each_member_path(path: Seq<char>) -> Seq<char> {
    path + "[*].*"@
}

/// The rules that the patterns of an array ask for from position `i` on,
/// each at the path of its element.
pub open spec fn items_asked(items: Seq<JsonPattern>, path: Seq<char>, i: int) -> MatchersView
    decreases items, items.len() - i,
{
    if i < 0 || i >= items.len() {
        Seq::empty()
    } else {
        items[i].asked(index_path(path, i)) + items_asked(items, path, i + 1)
    }
}

/// The rules that the patterns of the members of an object ask for from
/// position `i` on, each at the path of its member.
pub open spec fn members_asked(members: Seq<(String, JsonPattern)>, path: Seq<char>, i: int) -> MatchersView
    decreases members, members.len() - i,
{
    if i < 0 || i >= members.len() {
        Seq::empty()
    } else {
        members[i].1.asked(key_path(path, members[i].0@)) + members_asked(members, path, i + 1)
    }
}

impl JsonPattern {
    /// The example that the pattern shows.
    pub open spec fn shown(&self) -> JsonValue
        decreases self,
    {
        match self {
            JsonPattern::Json(j) => j@,
            JsonPattern::Array(items) => JsonValue::Array(
                Seq::new(
                    items@.len(),
                    |i: int|
                        if 0 <= i < items@.len() {
                            items@[i].shown()
                        } else {
                            JsonValue::Null
                        },
                ),
            ),
            JsonPattern::Object(members) => JsonValue::Object(
                Seq::new(
                    members@.len(),
                    |i: int|
                        (
                            members@[i].0@,
                            if 0 <= i < members@.len() {
                                members@[i].1.shown()
                            } else {
                                JsonValue::Null
                            },
                        ),
                ),
            ),
            JsonPattern::Like(inner) => inner.shown(),
            JsonPattern::ArrayLike(inner, min) => JsonValue::Array(
                Seq::new(*min as nat, |i: int| inner.shown()),
            ),
            JsonPattern::Term { regex, example } => JsonValue::Str(example@),
        }
    }

    /// The rules that the pattern asks for at a path.
    pub open spec fn asked(&self, path: Seq<char>) -> MatchersView
        decreases self, 0nat,
    {
        match self {
            JsonPattern::Json(_) => Seq::empty(),
            JsonPattern::Array(items) => items_asked(items@, path, 0),
            JsonPattern::Object(members) => members_asked(members@, path, 0),
            JsonPattern::Like(inner) => seq![(path, type_rule())] + inner.asked(path),
            JsonPattern::ArrayLike(inner, min) => seq![
                (path, min_rule(*min)),
                (each_member_path(path), type_rule()),
            ] + inner.asked(each_path(path)),
            JsonPattern::Term { regex, example } => seq![(path, regex_rule(regex@))],
        }
    }
}

fn element_path(path: &str, i: usize) -> (child: String)
    ensures
        child@ == index_path(path@, i as int),
{
    let mut child = String::from_str(path);
    child.push('[');
    child.append(decimal_text(i).as_str());
    child.push(']');
    assert(child@ =~= index_path(path@, i as int));
    child
}

fn member_path(path: &str, name: &str) -> (child: String)
    ensures
        child@ == key_path(path@, name@),
{
    let mut child = String::from_str(path);
    child.append(obj_key_for_path(name).as_str());
    child
}

fn suffixed(path: &str, suffix: &str) -> (child: String)
    ensures
        child@ == path@ + suffix@,
{
    let mut child = String::from_str(path);
    child.append(suffix);
    child
}

impl Pattern for JsonPattern {
    type Matches = Json;

    open spec fn example(&self) -> JsonValue {
        self.shown()
    }

    open spec fn rules(&self, path: Seq<char>) -> MatchersView {
        self.asked(path)
    }

    fn to_example(&self) -> (shown: Json)
        decreases self,
    {
        match self {
            JsonPattern::Json(j) => j.clone(),
            JsonPattern::Array(items) => {
                let mut out: Vec<Json> = Vec::new();
                let mut i: usize = 0;
                while i < items.len()
                    invariant
                        *self == JsonPattern::Array(*items),
                        i <= items.len(),
                        out@.len() == i,
                        forall|k: int| 0 <= k < i ==> (#[trigger] out@[k])@ == items@[k].shown(),
                    decreases items.len() - i,
                {
                    proof {
                        assert(decreases_to!(*self => self->Array_0));
                        assert(decreases_to!(self->Array_0 => self->Array_0[i as int]));
                    }
                    out.push(items[i].to_example());
                    i = i + 1;
                }
                let shown = Json::Array(out);
                assert(shown@->Array_0 =~= self.shown()->Array_0);
                shown
            },
            JsonPattern::Object(members) => {
                let mut out: Vec<(String, Json)> = Vec::new();
                let mut i: usize = 0;
                while i < members.len()
                    invariant
                        *self == JsonPattern::Object(*members),
                        i <= members.len(),
                        out@.len() == i,
                        forall|k: int|
                            0 <= k < i ==> (#[trigger] out@[k]).0@ == members@[k].0@ && out@[k].1@
                                == members@[k].1.shown(),
                    decreases members.len() - i,
                {
                    proof {
                        assert(decreases_to!(*self => self->Object_0));
                        assert(decreases_to!(self->Object_0 => self->Object_0[i as int]));
                        assert(decreases_to!(self->Object_0[i as int] => self->Object_0[i as int].1));
                    }
                    out.push((members[i].0.clone(), members[i].1.to_example()));
                    i = i + 1;
                }
                let shown = Json::Object(out);
                assert(shown@->Object_0 =~= self.shown()->Object_0);
                shown
            },
            JsonPattern::Like(inner) => inner.to_example(),
            JsonPattern::ArrayLike(inner, min) => {
                let element = inner.to_example();
                let mut out: Vec<Json> = Vec::new();
                let mut i: usize = 0;
                while i < *min
                    invariant
                        i <= *min,
                        out@.len() == i,
                        forall|k: int| 0 <= k < i ==> (#[trigger] out@[k])@ == element@,
                    decreases *min - i,
                {
                    out.push(element.clone());
                    i = i + 1;
                }
                let shown = Json::Array(out);
                assert(shown@->Array_0 =~= self.shown()->Array_0);
                shown
            },
            JsonPattern::Term { regex, example } => Json::Str(example.clone()),
        }
    }

    fn extract_matching_rules(&self, path: &str, rules_out: &mut Matchers)
        decreases self,
    {
        match self {
            JsonPattern::Json(_) => {
                assert(rules_out@ + Seq::empty() =~= rules_out@);
            },
            JsonPattern::Array(items) => {
                let mut i: usize = 0;
                proof {
                    assert(rules_out@ + Seq::empty() =~= rules_out@);
                }
                let ghost mut done: MatchersView = Seq::empty();
                while i < items.len()
                    invariant
                        *self == JsonPattern::Array(*items),
                        i <= items.len(),
                        rules_out@ == old(rules_out)@ + done,
                        done + items_asked(items@, path@, i as int) == items_asked(
                            items@,
                            path@,
                            0,
                        ),
                    decreases items.len() - i,
                {
                    proof {
                        assert(decreases_to!(*self => self->Array_0));
                        assert(decreases_to!(self->Array_0 => self->Array_0[i as int]));
                    }
                    let child = element_path(path, i);
                    let ghost added = items@[i as int].asked(child@);
                    let ghost rest = items_asked(items@, path@, i + 1);
                    items[i].extract_matching_rules(child.as_str(), rules_out);
                    proof {
                        assert(done + (added + rest) =~= (done + added) + rest);
                        assert(old(rules_out)@ + done + added =~= old(rules_out)@ + (done + added));
                        done = done + added;
                    }
                    i = i + 1;
                }
                proof {
                    assert(done + Seq::empty() =~= done);
                }
            },
            JsonPattern::Object(members) => {
                let mut i: usize = 0;
                proof {
                    assert(rules_out@ + Seq::empty() =~= rules_out@);
                }
                let ghost mut done: MatchersView = Seq::empty();
                while i < members.len()
                    invariant
                        *self == JsonPattern::Object(*members),
                        i <= members.len(),
                        rules_out@ == old(rules_out)@ + done,
                        done + members_asked(members@, path@, i as int) == members_asked(
                            members@,
                            path@,
                            0,
                        ),
                    decreases members.len() - i,
                {
                    proof {
                        assert(decreases_to!(*self => self->Object_0));
                        assert(decreases_to!(self->Object_0 => self->Object_0[i as int]));
                        assert(decreases_to!(self->Object_0[i as int] => self->Object_0[i as int].1));
                    }
                    let child = member_path(path, members[i].0.as_str());
                    let ghost added = members@[i as int].1.asked(child@);
                    let ghost rest = members_asked(members@, path@, i + 1);
                    members[i].1.extract_matching_rules(child.as_str(), rules_out);
                    proof {
                        assert(done + (added + rest) =~= (done + added) + rest);
                        assert(old(rules_out)@ + done + added =~= old(rules_out)@ + (done + added));
                        done = done + added;
                    }
                    i = i + 1;
                }
                proof {
                    assert(done + Seq::empty() =~= done);
                }
            },
            JsonPattern::Like(inner) => {
                rules_out.insert(String::from_str(path), make_type_rule());
                inner.extract_matching_rules(path, rules_out);
                assert(rules_out@ =~= old(rules_out)@ + self.rules(path@));
            },
            JsonPattern::ArrayLike(inner, min) => {
                rules_out.insert(String::from_str(path), make_min_rule(*min));
                rules_out.insert(suffixed(path, "[*].*"), make_type_rule());
                let each = suffixed(path, "[*]");
                inner.extract_matching_rules(each.as_str(), rules_out);
                assert(rules_out@ =~= old(rules_out)@ + self.rules(path@));
            },
            JsonPattern::Term { regex, example } => {
                rules_out.insert(String::from_str(path), make_regex_rule(regex.as_str()));
                assert(rules_out@ =~= old(rules_out)@ + self.rules(path@));
            },
        }
    }
}

/// Match values based on their data types.
#[derive(Debug)]
pub struct SomethingLike<Nested: Pattern> {
    pub example: Nested,
}

impl<Nested: Pattern> SomethingLike<Nested> {
    /// Match all values which have the same type as `example`.
    pub fn new<E: Into<Nested>>(example: E) -> (like: Self)
        ensures
            E::obeys_into_spec() ==> like.example == example.into_spec(),
    {
        SomethingLike { example: example.into() }
    }

    /// Match all values which have the same type as the example of the
    /// given pattern.
    pub fn of(example: Nested) -> (like: Self)
        ensures
            like.example == example,
    {
        SomethingLike { example }
    }
}

impl<Nested: Pattern> Pattern for SomethingLike<Nested> {
    type Matches = Nested::Matches;

    open spec fn example(&self) -> <Nested::Matches as View>::V {
        self.example.example()
    }

    open spec fn rules(&self, path: Seq<char>) -> MatchersView {
        seq![(path, type_rule())] + self.example.rules(path)
    }

    fn to_example(&self) -> (shown: Nested::Matches) {
        self.example.to_example()
    }

    fn extract_matching_rules(&self, path: &str, rules_out: &mut Matchers) {
        rules_out.insert(String::from_str(path), make_type_rule());
        self.example.extract_matching_rules(path, rules_out);
        assert(rules_out@ =~= old(rules_out)@ + self.rules(path@));
    }
}

/// Match an array with the specified "shape".
#[derive(Debug)]
pub struct ArrayLike {
    pub example_element: JsonPattern,
    pub min_length: usize,
}

impl ArrayLike {
    /// Match arrays containing elements like `example_element`.
    pub fn new(example_element: JsonPattern) -> (like: ArrayLike)
        ensures
            like.example_element == example_element,
            like.min_length == 1,
    {
        ArrayLike { example_element: example_element, min_length: 1 }
    }

    /// Use this after `new` to set a minimum length for the matching array.
    pub fn with_min_length(self, min_length: usize) -> (like: ArrayLike)
        ensures
            like.example_element == self.example_element,
            like.min_length == min_length,
    {
        let mut like = self;
        like.min_length = min_length;
        like
    }
}

impl Pattern for ArrayLike {
    type Matches = Json;

    open spec fn example(&self) -> JsonValue {
        JsonValue::Array(Seq::new(self.min_length as nat, |i: int| self.example_element.shown()))
    }

    open spec fn rules(&self, path: Seq<char>) -> MatchersView {
        seq![(path, min_rule(self.min_length)), (each_member_path(path), type_rule())]
            + self.example_element.asked(each_path(path))
    }

    fn to_example(&self) -> (shown: Json) {
        let element = self.example_element.to_example();
        let mut out: Vec<Json> = Vec::new();
        let mut i: usize = 0;
        while i < self.min_length
            invariant
                i <= self.min_length,
                out@.len() == i,
                forall|k: int| 0 <= k < i ==> (#[trigger] out@[k])@ == element@,
            decreases self.min_length - i,
        {
            out.push(element.clone());
            i = i + 1;
        }
        let shown = Json::Array(out);
        assert(shown@->Array_0 =~= self.example()->Array_0);
        shown
    }

    fn extract_matching_rules(&self, path: &str, rules_out: &mut Matchers) {
        rules_out.insert(String::from_str(path), make_min_rule(self.min_length));
        rules_out.insert(suffixed(path, "[*].*"), make_type_rule());
        let new_path = suffixed(path, "[*]");
        self.example_element.extract_matching_rules(new_path.as_str(), rules_out);
        assert(rules_out@ =~= old(rules_out)@ + self.rules(path@));
    }
}

/// A regular expression that is known to be well formed.
#[derive(Debug)]
pub struct RegexPattern {
    source: String,
}

impl RegexPattern {
    #[verifier::type_invariant]
    spec fn well_formed(&self) -> bool {
        regex_compiles(self.source@)
    }

    /// The string that holds the regular expression.
    pub closed spec fn text(&self) -> String {
        self.source
    }

    /// The text of the regular expression.
    pub open spec fn source(&self) -> Seq<char> {
        self.text()@
    }

    /// The string that holds the regular expression.
    pub fn into_string(self) -> (text: String)
        ensures
            text == self.text(),
            text@ == self.source(),
    {
        self.source
    }

    /// The text of the regular expression.
    pub fn as_str(&self) -> (text: &str)
        ensures
            text@ == self.source(),
            regex_compiles(text@),
    {
        proof {
            use_type_invariant(self);
        }
        self.source.as_str()
    }
}

/// Reads a regular expression; nothing comes back for a text that is
/// none.
pub fn try_build_regex(regex_str: &str) -> (built: Option<RegexPattern>)
    ensures
        built is Some <==> regex_compiles(regex_str@),
        built matches Some(regex) ==> regex.source() == regex_str@,
{
    if regex_is_valid(regex_str) {
        Some(build_regex(regex_str))
    } else {
        None
    }
}

/// Reads a regular expression that is known to be one.
pub fn build_regex(regex_str: &str) -> (regex: RegexPattern)
    requires
        regex_compiles(regex_str@),
    ensures
        regex.source() == regex_str@,
{
    RegexPattern { source: String::from_str(regex_str) }
}

/// What a text can be made into: the examples of the patterns that a
/// regular expression stands for.
pub trait FromText: View + Sized {
    /// The value of the example that a text makes.
    spec fn of_text(text: Seq<char>) -> Self::V;

    /// The example that a text makes.
    fn from_text(text: String) -> (made: Self)
        ensures
            made@ == Self::of_text(text@),
    ;
}

impl FromText for String {
    open spec fn of_text(text: Seq<char>) -> Seq<char> {
        text
    }

    fn from_text(text: String) -> (made: String) {
        text
    }
}

impl FromText for Json {
    open spec fn of_text(text: Seq<char>) -> JsonValue {
        JsonValue::Str(text)
    }

    fn from_text(text: String) -> (made: Json) {
        Json::Str(text)
    }
}

/// Match and generate strings that match a regular expression.
#[derive(Debug)]
pub struct Term<Nested: Pattern> {
    /// The example string we generate when asked.
    pub example: String,
    /// The regex we use to match.
    pub regex: RegexPattern,
    /// The kind of pattern that this one stands among.
    pub phantom: PhantomData<Nested>,
}

impl<Nested: Pattern> Term<Nested> {
    /// Construct a new `Term`, given a regex and the example string to
    /// generate.
    pub fn new(regex: RegexPattern, example: &str) -> (term: Self)
        ensures
            term.example@ == example@,
            term.regex == regex,
    {
        Term { example: String::from_str(example), regex: regex, phantom: PhantomData }
    }
}

impl<Nested> Pattern for Term<Nested> where Nested: Pattern, Nested::Matches: FromText {
    type Matches = Nested::Matches;

    open spec fn example(&self) -> <Nested::Matches as View>::V {
        <Nested::Matches as FromText>::of_text(self.example@)
    }

    open spec fn rules(&self, path: Seq<char>) -> MatchersView {
        seq![(path, regex_rule(self.regex.source()))]
    }

    fn to_example(&self) -> (shown: Nested::Matches) {
        <Nested::Matches as FromText>::from_text(self.example.clone())
    }

    fn extract_matching_rules(&self, path: &str, rules_out: &mut Matchers) {
        rules_out.insert(String::from_str(path), make_regex_rule(self.regex.as_str()));
        assert(rules_out@ =~= old(rules_out)@ + self.rules(path@));
    }
}

impl From<String> for StringPattern {
    fn from(text: String) -> (pattern: StringPattern) {
        StringPattern::Literal(text)
    }
}

impl FromSpecImpl<String> for StringPattern {
    open spec fn obeys_from_spec() -> bool {
        true
    }

    open spec fn from_spec(text: String) -> StringPattern {
        StringPattern::Literal(text)
    }
}

impl From<Json> for JsonPattern {
    fn from(json: Json) -> (pattern: JsonPattern) {
        JsonPattern::Json(json)
    }
}

impl FromSpecImpl<Json> for JsonPattern {
    open spec fn obeys_from_spec() -> bool {
        true
    }

    open spec fn from_spec(json: Json) -> JsonPattern {
        JsonPattern::Json(json)
    }
}

impl From<SomethingLike<JsonPattern>> for JsonPattern {
    fn from(like: SomethingLike<JsonPattern>) -> (pattern: JsonPattern) {
        JsonPattern::Like(Box::new(like.example))
    }
}

impl FromSpecImpl<SomethingLike<JsonPattern>> for JsonPattern {
    open spec fn obeys_from_spec() -> bool {
        true
    }

    open spec fn from_spec(like: SomethingLike<JsonPattern>) -> JsonPattern {
        JsonPattern::Like(Box::new(like.example))
    }
}

impl From<SomethingLike<StringPattern>> for StringPattern {
    fn from(like: SomethingLike<StringPattern>) -> (pattern: StringPattern) {
        StringPattern::Like(Box::new(like.example))
    }
}

impl FromSpecImpl<SomethingLike<StringPattern>> for StringPattern {
    open spec fn obeys_from_spec() -> bool {
        true
    }

    open spec fn from_spec(like: SomethingLike<StringPattern>) -> StringPattern {
        StringPattern::Like(Box::new(like.example))
    }
}

impl From<ArrayLike> for JsonPattern {
    fn from(like: ArrayLike) -> (pattern: JsonPattern) {
        JsonPattern::ArrayLike(Box::new(like.example_element), like.min_length)
    }
}

impl FromSpecImpl<ArrayLike> for JsonPattern {
    open spec fn obeys_from_spec() -> bool {
        true
    }

    open spec fn from_spec(like: ArrayLike) -> JsonPattern {
        JsonPattern::ArrayLike(Box::new(like.example_element), like.min_length)
    }
}

impl From<Term<JsonPattern>> for JsonPattern {
    fn from(term: Term<JsonPattern>) -> (pattern: JsonPattern) {
        JsonPattern::Term { regex: term.regex.into_string(), example: term.example }
    }
}

impl FromSpecImpl<Term<JsonPattern>> for JsonPattern {
    open spec fn obeys_from_spec() -> bool {
        true
    }

    open spec fn from_spec(term: Term<JsonPattern>) -> JsonPattern {
        JsonPattern::Term { regex: term.regex.text(), example: term.example }
    }
}

impl From<Term<StringPattern>> for StringPattern {
    fn from(term: Term<StringPattern>) -> (pattern: StringPattern) {
        StringPattern::Term { regex: term.regex.into_string(), example: term.example }
    }
}

impl FromSpecImpl<Term<StringPattern>> for StringPattern {
    open spec fn obeys_from_spec() -> bool {
        true
    }

    open spec fn from_spec(term: Term<StringPattern>) -> StringPattern {
        StringPattern::Term { regex: term.regex.text(), example: term.example }
    }
}

} // verus!
