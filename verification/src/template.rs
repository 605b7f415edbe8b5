//! URI templates: a text in which `{name}` stands for the value that a
//! table gives `name`. The tokens are found by the `regex` crate; what a
//! token is replaced by is decided here.

use crate::regex_util::regex_compiles;
use crate::text::{chars_of, option_text, pairs_view, string_of};
use vstd::prelude::*;

verus! {

/// The value that the table gives a name from position `from` on: that of
/// the first entry with the name.
pub open spec fn lookup_from(
    values: Seq<(Seq<char>, Seq<char>)>,
    name: Seq<char>,
    from: int,
) -> Option<Seq<char>>
    decreases values.len() - from,
{
    if from < 0 || from >= values.len() {
        None
    } else if values[from].0 == name {
        Some(values[from].1)
    } else {
        lookup_from(values, name, from + 1)
    }
}

/// The name that a token holds: what stands between its first and its
/// last character, the two braces.
pub open spec fn token_name(token: Seq<char>) -> Seq<char> {
    if token.len() >= 2 {
        token.subrange(1, token.len() - 1)
    } else {
        Seq::empty()
    }
}

/// What a token is replaced by: the value of its name, or the token itself
/// where the table has no such name.
pub open spec fn token_replacement(values: Seq<(Seq<char>, Seq<char>)>, token: Seq<char>) -> Seq<
    char,
> {
    match lookup_from(values, token_name(token), 0) {
        Some(v) => v,
        None => token,
    }
}

/// The regular expression that finds the tokens of a template: a name of
/// one or more word characters between braces.
pub open spec fn token_pattern() -> Seq<char> {
    "\\{(\\w+)\\}"@
}

/// What the `regex` crate makes of a text when each match of a pattern in
/// it, from left to right and without overlap, is replaced by what
/// `token_value` gives for the match; nothing where the crate refuses the
/// pattern.
pub uninterp spec fn replaced_matches(
    pattern: Seq<char>,
    text: Seq<char>,
    values: Seq<(Seq<char>, Seq<char>)>,
) -> Option<Seq<char>>;

/// A template with each token replaced; a template is left as it is
/// where the pattern for tokens is refused.
pub open spec fn expanded(href: Seq<char>, values: Seq<(Seq<char>, Seq<char>)>) -> Seq<char> {
    match replaced_matches(token_pattern(), href, values) {
        Some(url) => url,
        None => href,
    }
}

fn lookup(values: &Vec<(String, String)>, name: &Vec<char>) -> (found: Option<usize>)
    ensures
        found matches Some(i) ==> i < values.len() && lookup_from(pairs_view(values@), name@, 0)
            == Some(values@[i as int].1@),
        found is None ==> lookup_from(pairs_view(values@), name@, 0) is None,
{
    let mut i: usize = 0;
    let key = string_of(name);
    while i < values.len()
        invariant
            i <= values.len(),
            key@ == name@,
            lookup_from(pairs_view(values@), name@, 0) == lookup_from(
                pairs_view(values@),
                name@,
                i as int,
            ),
        decreases values.len() - i,
    {
        if values[i].0 == key {
            return Some(i);
        }
        i = i + 1;
    }
    None
}

/// What a token, braces and all, is replaced by: the value that the table
/// gives its name, or the token itself where the table has no such name.
pub fn token_value(values: &Vec<(String, String)>, token: &str) -> (replacement: String)
    ensures
        replacement@ == token_replacement(pairs_view(values@), token@),
{
    let s = chars_of(token);
    let mut name: Vec<char> = Vec::new();
    if s.len() >= 2 {
        let mut k: usize = 1;
        while k < s.len() - 1
            invariant
                1 <= k <= s.len() - 1,
                name@ == s@.subrange(1, k as int),
            decreases s.len() - k,
        {
            name.push(s[k]);
            k = k + 1;
            assert(s@.subrange(1, k as int) =~= s@.subrange(1, k - 1).push(s@[k - 1]));
        }
    }
    assert(name@ =~= token_name(token@));
    match lookup(values, &name) {
        Some(at) => values[at].1.clone(),
        None => String::from_str(token),
    }
}

/// `Regex::new` and, where it accepts the pattern, `Regex::replace_all`
/// with a closure that hands each match to `token_value`: nothing comes
/// back for a pattern that is refused, and else the text with the matches
/// replaced, which depends on the pattern, the text and the table alone.
#[verifier::external_body]
fn replace_matches(pattern: &str, text: &str, values: &Vec<(String, String)>) -> (r: Option<String>)
    ensures
        option_text(r) == replaced_matches(pattern@, text@, pairs_view(values@)),
        r is Some <==> regex_compiles(pattern@),
{
    regex::Regex::new(pattern).ok().map(
        |re| re.replace_all(text, |caps: &regex::Captures| token_value(values, &caps[0])).into_owned(),
    )
}

/// Replaces each `{name}` in a text by the value that `values` gives
/// `name`; a token whose name the table lacks stays as it is. A name is
/// made of what the `regex` crate takes for word characters.
pub fn expand_template(href: &str, values: &Vec<(String, String)>) -> (url: String)
    ensures
        url@ == expanded(href@, pairs_view(values@)),
{
    match replace_matches("\\{(\\w+)\\}", href, values) {
        Some(url) => url,
        None => String::from_str(href),
    }
}

} // verus!
