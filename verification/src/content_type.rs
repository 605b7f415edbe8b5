//! Media types as they stand in a `Content-Type` header.

use crate::text::{chars_of, string_of};
use vstd::prelude::*;

verus! {

/// An ASCII capital as its small letter; any other character as itself.
pub open spec fn ascii_lower_char(c: char) -> char {
    if 'A' <= c && c <= 'Z' {
        ((c as u8) + 32) as char
    } else {
        c
    }
}

/// A text with its ASCII capitals made small.
pub open spec fn ascii_lower(s: Seq<char>) -> Seq<char> {
    Seq::new(s.len(), |i: int| ascii_lower_char(s[i]))
}

/// Whether a character is a space or a tab.
pub open spec fn is_blank(c: char) -> bool {
    c == ' ' || c == '\t'
}

/// The first position from `from` on that holds `c`, or the length of the
/// text.
pub open spec fn index_of(s: Seq<char>, c: char, from: int) -> int
    decreases s.len() - from,
{
    if from < 0 || from >= s.len() || s[from] == c {
        from
    } else {
        index_of(s, c, from + 1)
    }
}

/// The first position from `from` on that holds no blank, or the length
/// of the text.
pub open spec fn blanks_end(s: Seq<char>, from: int) -> int
    decreases s.len() - from,
{
    if from < 0 || from >= s.len() || !is_blank(s[from]) {
        from
    } else {
        blanks_end(s, from + 1)
    }
}

/// The position after the last character before `to` that is no blank,
/// or `low` if there is none from `low` on.
pub open spec fn blanks_start(s: Seq<char>, low: int, to: int) -> int
    decreases to - low,
{
    if to <= low || to > s.len() || !is_blank(s[to - 1]) {
        to
    } else {
        blanks_start(s, low, to - 1)
    }
}

/// A text without the blanks at its two ends.
pub open spec fn trimmed(s: Seq<char>) -> Seq<char> {
    let start = blanks_end(s, 0);
    let end = blanks_start(s, start, s.len() as int);
    if 0 <= start <= end <= s.len() {
        s.subrange(start, end)
    } else {
        Seq::empty()
    }
}

/// The media type that a header value names: what stands before the first
/// semicolon, without blanks around it, in small letters.
pub open spec fn media_type_of(header: Seq<char>) -> Seq<char> {
    let end = index_of(header, ';', 0);
    if 0 <= end <= header.len() {
        ascii_lower(trimmed(header.take(end)))
    } else {
        Seq::empty()
    }
}

/// Whether `prefix` stands at the start of `s`.
pub open spec fn starts_with(s: Seq<char>, prefix: Seq<char>) -> bool {
    prefix.len() <= s.len() && s.take(prefix.len() as int) == prefix
}

/// Whether `suffix` stands at the end of `s`.
pub open spec fn ends_with(s: Seq<char>, suffix: Seq<char>) -> bool {
    suffix.len() <= s.len() && s.skip(s.len() - suffix.len()) == suffix
}

/// Whether a media type is that of a JSON resource: `application/json`
/// itself, or `application/`, a name of at least one character, and
/// `+json`, such as `application/hal+json`.
pub open spec fn is_json_resource_media(media: Seq<char>) -> bool {
    media == "application/json"@ || (starts_with(media, "application/"@) && ends_with(
        media,
        "+json"@,
    ) && media.len() > "application/"@.len() + "+json"@.len())
}

/// Whether the body of a message of a media type is held to be JSON:
/// `application/json`, with or without more behind it, or `application/`
/// and a name that ends in `+json`.
pub open spec fn is_json_media(media: Seq<char>) -> bool {
    starts_with(media, "application/json"@) || (starts_with(media, "application/"@) && ends_with(
        media,
        "+json"@,
    ) && media.len() > "application/"@.len() + "+json"@.len())
}

fn lower_char(c: char) -> (r: char)
    ensures
        r == ascii_lower_char(c),
{
    if 'A' <= c && c <= 'Z' {
        ((c as u8) + 32) as char
    } else {
        c
    }
}

fn has_prefix(s: &Vec<char>, prefix: &Vec<char>) -> (r: bool)
    ensures
        r == starts_with(s@, prefix@),
{
    if prefix.len() > s.len() {
        return false;
    }
    let mut i: usize = 0;
    while i < prefix.len()
        invariant
            i <= prefix.len() <= s.len(),
            s@.take(i as int) == prefix@.take(i as int),
        decreases prefix.len() - i,
    {
        if s[i] != prefix[i] {
            proof {
                if s@.take(prefix.len() as int) == prefix@ {
                    assert(s@.take(prefix.len() as int)[i as int] == prefix@[i as int]);
                }
            }
            return false;
        }
        i = i + 1;
        assert(s@.take(i as int) =~= s@.take(i - 1).push(s@[i - 1]));
        assert(prefix@.take(i as int) =~= prefix@.take(i - 1).push(prefix@[i - 1]));
    }
    assert(prefix@.take(prefix.len() as int) =~= prefix@);
    true
}

fn has_suffix(s: &Vec<char>, suffix: &Vec<char>) -> (r: bool)
    ensures
        r == ends_with(s@, suffix@),
{
    if suffix.len() > s.len() {
        return false;
    }
    let shift: usize = s.len() - suffix.len();
    let mut i: usize = 0;
    while i < suffix.len()
        invariant
            i <= suffix.len() <= s.len(),
            shift == s.len() - suffix.len(),
            forall|k: int| 0 <= k < i ==> s@[shift + k] == suffix@[k],
        decreases suffix.len() - i,
    {
        if s[shift + i] != suffix[i] {
            proof {
                if s@.skip(shift as int) == suffix@ {
                    assert(s@.skip(shift as int)[i as int] == suffix@[i as int]);
                }
            }
            return false;
        }
        i = i + 1;
    }
    assert(s@.skip(shift as int) =~= suffix@);
    true
}

/// The media type that a `Content-Type` header names, without its
/// parameters and in small letters.
pub fn media_type(header: &str) -> (media: String)
    ensures
        media@ == media_type_of(header@),
{
    let s = chars_of(header);
    let mut end: usize = 0;
    while end < s.len() && s[end] != ';'
        invariant
            end <= s.len(),
            index_of(s@, ';', 0) == index_of(s@, ';', end as int),
        decreases s.len() - end,
    {
        end = end + 1;
    }
    let ghost head = s@.take(end as int);
    let mut start: usize = 0;
    while start < end && (s[start] == ' ' || s[start] == '\t')
        invariant
            start <= end <= s.len(),
            head == s@.take(end as int),
            blanks_end(head, 0) == blanks_end(head, start as int),
        decreases end - start,
    {
        start = start + 1;
    }
    let mut stop: usize = end;
    while stop > start && (s[stop - 1] == ' ' || s[stop - 1] == '\t')
        invariant
            start <= stop <= end <= s.len(),
            head == s@.take(end as int),
            blanks_start(head, start as int, head.len() as int) == blanks_start(
                head,
                start as int,
                stop as int,
            ),
        decreases stop - start,
    {
        stop = stop - 1;
    }
    let mut out: Vec<char> = Vec::new();
    let mut i: usize = start;
    while i < stop
        invariant
            start <= i <= stop <= end <= s.len(),
            head == s@.take(end as int),
            out@ == ascii_lower(head.subrange(start as int, i as int)),
        decreases stop - i,
    {
        out.push(lower_char(s[i]));
        i = i + 1;
        assert(ascii_lower(head.subrange(start as int, i as int)) =~= ascii_lower(
            head.subrange(start as int, i - 1),
        ).push(ascii_lower_char(head[i - 1])));
    }
    string_of(&out)
}

/// Whether a media type is that of a JSON resource: `application/json`
/// itself, or `application/` and a name that ends in `+json`.
pub fn is_json_resource(media: &str) -> (r: bool)
    ensures
        r == is_json_resource_media(media@),
{
    let m = chars_of(media);
    let family = chars_of("application/");
    let tail = chars_of("+json");
    if media.eq("application/json") {
        true
    } else {
        has_prefix(&m, &family) && has_suffix(&m, &tail) && m.len() - family.len() > tail.len()
    }
}

/// Whether the body of a message of a media type is held to be JSON.
pub fn is_json(media: &str) -> (r: bool)
    ensures
        r == is_json_media(media@),
{
    let m = chars_of(media);
    let plain = chars_of("application/json");
    let family = chars_of("application/");
    let tail = chars_of("+json");
    if has_prefix(&m, &plain) {
        true
    } else {
        has_prefix(&m, &family) && has_suffix(&m, &tail) && m.len() - family.len() > tail.len()
    }
}

/// The part of a text between two positions, without the blanks at its
/// two ends.
fn trimmed_part(s: &Vec<char>, from: usize, to: usize) -> (out: Vec<char>)
    requires
        from <= to <= s.len(),
    ensures
        out@ == trimmed(s@.subrange(from as int, to as int)),
{
    let ghost part = s@.subrange(from as int, to as int);
    let mut start: usize = from;
    while start < to && (s[start] == ' ' || s[start] == '\t')
        invariant
            from <= start <= to <= s.len(),
            part == s@.subrange(from as int, to as int),
            blanks_end(part, 0) == blanks_end(part, start - from),
        decreases to - start,
    {
        start = start + 1;
    }
    let mut stop: usize = to;
    while stop > start && (s[stop - 1] == ' ' || s[stop - 1] == '\t')
        invariant
            from <= start <= stop <= to <= s.len(),
            part == s@.subrange(from as int, to as int),
            blanks_start(part, start - from, part.len() as int) == blanks_start(
                part,
                start - from,
                stop - from,
            ),
        decreases stop - start,
    {
        stop = stop - 1;
    }
    let mut out: Vec<char> = Vec::new();
    let mut i: usize = start;
    while i < stop
        invariant
            from <= start <= i <= stop <= to <= s.len(),
            part == s@.subrange(from as int, to as int),
            out@ == part.subrange(start - from, i - from),
        decreases stop - i,
    {
        out.push(s[i]);
        i = i + 1;
        assert(part.subrange(start - from, i - from) =~= part.subrange(start - from, i - 1 - from).push(
            part[i - 1 - from],
        ));
    }
    out
}

/// A header value from position `from` on, without the blanks around its
/// commas and at its ends.
pub open spec fn normalized_from(s: Seq<char>, from: int) -> Seq<char>
    decreases s.len() - from,
{
    if from < 0 || from > s.len() {
        Seq::empty()
    } else {
        let comma = index_of(s, ',', from);
        if comma >= s.len() || comma < from {
            trimmed(s.subrange(from, s.len() as int))
        } else {
            trimmed(s.subrange(from, comma)) + seq![','] + normalized_from(s, comma + 1)
        }
    }
}

/// A header value without the blanks around its commas and at its ends.
pub open spec fn normalized(s: Seq<char>) -> Seq<char> {
    normalized_from(s, 0)
}

/// A header value without the blanks around its commas and at its ends.
pub fn normalize(value: &str) -> (out: String)
    ensures
        out@ == normalized(value@),
{
    let s = chars_of(value);
    let mut out: Vec<char> = Vec::new();
    let mut from: usize = 0;
    let mut done = false;
    while !done
        invariant
            from <= s.len(),
            s@ == value@,
            !done ==> normalized(s@) == out@ + normalized_from(s@, from as int),
            done ==> normalized(s@) == out@,
        decreases s.len() - from + if done { 0nat } else { 1nat },
    {
        let mut comma: usize = from;
        while comma < s.len() && s[comma] != ','
            invariant
                from <= comma <= s.len(),
                index_of(s@, ',', from as int) == index_of(s@, ',', comma as int),
            decreases s.len() - comma,
        {
            comma = comma + 1;
        }
        let ghost before = out@;
        let piece = trimmed_part(&s, from, comma);
        let mut k: usize = 0;
        while k < piece.len()
            invariant
                k <= piece.len(),
                out@ == before + piece@.take(k as int),
            decreases piece.len() - k,
        {
            out.push(piece[k]);
            k = k + 1;
            assert(piece@.take(k as int) =~= piece@.take(k - 1).push(piece@[k - 1]));
            assert(before + piece@.take(k as int) =~= (before + piece@.take(k - 1)).push(
                piece@[k - 1],
            ));
        }
        assert(piece@.take(piece.len() as int) =~= piece@);
        if comma >= s.len() {
            done = true;
            assert(before + piece@ =~= out@);
        } else {
            out.push(',');
            proof {
                assert(before + (piece@ + seq![','] + normalized_from(s@, comma + 1)) =~= out@
                    + normalized_from(s@, comma + 1));
            }
            from = comma + 1;
        }
    }
    string_of(&out)
}

} // verus!
