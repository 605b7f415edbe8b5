//! Query strings: `a=1&b=2&a=3` as names with their values.

use crate::content_type::index_of;
use crate::models::{find_param, option_query, query_view, Query, QueryView};
use crate::text::{
    chars_of, join, joined, key_position, key_position_bounds, string_of, strings_view,
};
use vstd::prelude::*;
use vstd::utf8::encode_utf8;

verus! {

/// The number that a hexadecimal digit stands for.
pub open spec fn hex_value(c: char) -> Option<u8> {
    if '0' <= c && c <= '9' {
        Some((c as u8 - '0' as u8) as u8)
    } else if 'a' <= c && c <= 'f' {
        Some((c as u8 - 'a' as u8 + 10) as u8)
    } else if 'A' <= c && c <= 'F' {
        Some((c as u8 - 'A' as u8 + 10) as u8)
    } else {
        None
    }
}

/// A part of a query from position `from` on, decoded: a plus sign stands
/// for a blank, and a percent sign with two hexadecimal digits for the
/// character with that code. A percent sign without them stands for
/// itself.
pub open spec fn decoded_from(s: Seq<char>, from: int) -> Seq<char>
    decreases s.len() - from,
{
    if from < 0 || from >= s.len() {
        Seq::empty()
    } else if s[from] == '+' {
        seq![' '] + decoded_from(s, from + 1)
    } else if s[from] == '%' && from + 2 < s.len() && hex_value(s[from + 1]) is Some
        && hex_value(s[from + 2]) is Some {
        seq![((hex_value(s[from + 1])->0 * 16 + hex_value(s[from + 2])->0) as u8) as char]
            + decoded_from(s, from + 3)
    } else {
        seq![s[from]] + decoded_from(s, from + 1)
    }
}

/// A part of a query, decoded.
pub open spec fn decoded(s: Seq<char>) -> Seq<char> {
    decoded_from(s, 0)
}

/// A query with one more value for a name: behind the other values of
/// the name where the query has it, else as a new name at the end.
pub open spec fn with_value(query: QueryView, name: Seq<char>, value: Seq<char>) -> QueryView {
    let at = key_position(query, name, 0);
    if 0 <= at < query.len() {
        query.update(at, (name, query[at].1.push(value)))
    } else {
        query.push((name, seq![value]))
    }
}

/// A query with what one piece between ampersands adds: nothing for an
/// empty piece, else a value for the name that stands before the first
/// equals sign, and an empty value where there is no equals sign.
pub open spec fn with_piece(query: QueryView, piece: Seq<char>) -> QueryView {
    if piece.len() == 0 {
        query
    } else {
        let eq = index_of(piece, '=', 0);
        if 0 <= eq < piece.len() {
            with_value(query, decoded(piece.take(eq)), decoded(piece.skip(eq + 1)))
        } else {
            with_value(query, decoded(piece), Seq::empty())
        }
    }
}

/// The query that the pieces of a text from position `from` on add to
/// `query`.
pub open spec fn parsed_from(s: Seq<char>, from: int, query: QueryView) -> QueryView
    decreases s.len() - from,
{
    if from < 0 || from > s.len() {
        query
    } else {
        let amp = index_of(s, '&', from);
        if amp < from || amp >= s.len() {
            with_piece(query, s.subrange(from, s.len() as int))
        } else {
            parsed_from(s, amp + 1, with_piece(query, s.subrange(from, amp)))
        }
    }
}

/// The query that a query string stands for; none for an empty string.
pub open spec fn parsed_query(s: Seq<char>) -> Option<QueryView> {
    if s.len() == 0 {
        None
    } else {
        Some(parsed_from(s, 0, Seq::empty()))
    }
}

fn hex_digit(c: char) -> (r: Option<u8>)
    ensures
        r == hex_value(c),
        r matches Some(v) ==> v < 16,
{
    if '0' <= c && c <= '9' {
        Some(c as u8 - '0' as u8)
    } else if 'a' <= c && c <= 'f' {
        Some(c as u8 - 'a' as u8 + 10)
    } else if 'A' <= c && c <= 'F' {
        Some(c as u8 - 'A' as u8 + 10)
    } else {
        None
    }
}

fn decode_part(s: &Vec<char>, from: usize, to: usize) -> (out: String)
    requires
        from <= to <= s.len(),
    ensures
        out@ == decoded(s@.subrange(from as int, to as int)),
{
    let ghost part = s@.subrange(from as int, to as int);
    let mut out: Vec<char> = Vec::new();
    let mut i: usize = from;
    while i < to
        invariant
            from <= i <= to <= s.len(),
            part == s@.subrange(from as int, to as int),
            decoded(part) == out@ + decoded_from(part, i - from),
        decreases to - i,
    {
        let ghost before = out@;
        let c = s[i];
        assert(part[i - from] == c);
        if c == '+' {
            out.push(' ');
            proof {
                assert(before + (seq![' '] + decoded_from(part, i + 1 - from)) =~= out@
                    + decoded_from(part, i + 1 - from));
            }
            i = i + 1;
        } else if c == '%' && to - i > 2 {
            assert(part[i + 1 - from] == s@[i + 1]);
            assert(part[i + 2 - from] == s@[i + 2]);
            let high = hex_digit(s[i + 1]);
            let low = hex_digit(s[i + 2]);
            match (high, low) {
                (Some(h), Some(l)) => {
                    let code: u8 = h * 16 + l;
                    out.push(code as char);
                    proof {
                        assert(before + (seq![code as char] + decoded_from(part, i + 3 - from))
                            =~= out@ + decoded_from(part, i + 3 - from));
                    }
                    i = i + 3;
                },
                _ => {
                    out.push(c);
                    proof {
                        assert(before + (seq![c] + decoded_from(part, i + 1 - from)) =~= out@
                            + decoded_from(part, i + 1 - from));
                    }
                    i = i + 1;
                },
            }
        } else {
            out.push(c);
            proof {
                assert(before + (seq![c] + decoded_from(part, i + 1 - from)) =~= out@
                    + decoded_from(part, i + 1 - from));
            }
            i = i + 1;
        }
    }
    proof {
        assert(out@ + Seq::<char>::empty() =~= out@);
    }
    string_of(&out)
}

fn add_value(query: &mut Query, name: String, value: String)
    ensures
        query_view(final(query)@) == with_value(query_view(old(query)@), name@, value@),
{
    let ghost before = query_view(query@);
    let at = find_param(query, name.as_str());
    if at < query.len() {
        let mut entry = query.remove(at);
        let ghost values = strings_view(entry.1@);
        entry.1.push(value);
        assert(strings_view(entry.1@) =~= values.push(value@));
        proof {
            key_position_bounds(before, name@, 0);
            assert(before[at as int].0 == name@);
            assert(entry.0@ == name@);
        }
        query.insert(at, entry);
        assert(query_view(query@) =~= before.update(
            at as int,
            (name@, before[at as int].1.push(value@)),
        ));
    } else {
        let mut values: Vec<String> = Vec::new();
        values.push(value);
        assert(strings_view(values@) =~= seq![value@]);
        query.push((name, values));
        assert(query_view(query@) =~= before.push((name@, seq![value@])));
    }
}

fn add_piece(query: &mut Query, s: &Vec<char>, from: usize, to: usize)
    requires
        from <= to <= s.len(),
    ensures
        query_view(final(query)@) == with_piece(
            query_view(old(query)@),
            s@.subrange(from as int, to as int),
        ),
{
    let ghost piece = s@.subrange(from as int, to as int);
    if from == to {
        return ;
    }
    let mut eq: usize = from;
    while eq < to && s[eq] != '='
        invariant
            from <= eq <= to <= s.len(),
            piece == s@.subrange(from as int, to as int),
            index_of(piece, '=', 0) == index_of(piece, '=', eq - from),
        decreases to - eq,
    {
        assert(piece[eq - from] == s@[eq as int]);
        eq = eq + 1;
    }
    proof {
        if eq < to {
            assert(piece[eq - from] == s@[eq as int]);
        }
    }
    if eq < to {
        let name = decode_part(s, from, eq);
        let value = decode_part(s, eq + 1, to);
        proof {
            assert(s@.subrange(from as int, eq as int) =~= piece.take(eq - from));
            assert(s@.subrange(eq + 1, to as int) =~= piece.skip(eq - from + 1));
        }
        add_value(query, name, value);
    } else {
        let name = decode_part(s, from, to);
        add_value(query, name, String::new());
    }
}

/// Reads a query string: the pieces between ampersands, each a name and,
/// behind an equals sign, a value, both decoded. The values of a name
/// that stands several times are kept in order. An empty string gives no
/// query.
pub fn parse_query_string(query: &str) -> (parsed: Option<Query>)
    ensures
        option_query(parsed) == parsed_query(query@),
{
    let s = chars_of(query);
    if s.len() == 0 {
        return None;
    }
    let mut out: Query = Vec::new();
    assert(query_view(out@) =~= QueryView::empty());
    let mut from: usize = 0;
    let mut done = false;
    while !done
        invariant
            from <= s.len(),
            s@ == query@,
            !done ==> parsed_from(s@, 0, Seq::empty()) == parsed_from(
                s@,
                from as int,
                query_view(out@),
            ),
            done ==> parsed_from(s@, 0, Seq::empty()) == query_view(out@),
        decreases s.len() - from + if done { 0nat } else { 1nat },
    {
        let mut amp: usize = from;
        while amp < s.len() && s[amp] != '&'
            invariant
                from <= amp <= s.len(),
                index_of(s@, '&', from as int) == index_of(s@, '&', amp as int),
            decreases s.len() - amp,
        {
            amp = amp + 1;
        }
        add_piece(&mut out, &s, from, amp);
        if amp >= s.len() {
            done = true;
        } else {
            from = amp + 1;
        }
    }
    Some(out)
}

/// Whether a byte stands for itself in a query string: an ASCII letter,
/// a digit, or one of `-`, `_`, `.` and `~`.
pub open spec fn is_unreserved(b: u8) -> bool {
    (0x41 <= b && b <= 0x5a) || (0x61 <= b && b <= 0x7a) || (0x30 <= b && b <= 0x39) || b == 0x2d
        || b == 0x5f || b == 0x2e || b == 0x7e
}

/// The hexadecimal digit, in capitals, for a number below 16.
pub open spec fn hex_char(n: u8) -> char {
    if n < 10 {
        (0x30 + n) as char
    } else {
        (0x37 + n) as char
    }
}

/// A byte as it is written in a query string: as itself where it is
/// unreserved, and else as a percent sign and its two hexadecimal digits.
pub open spec fn encoded_byte(b: u8) -> Seq<char> {
    if is_unreserved(b) {
        seq![b as char]
    } else {
        seq!['%', hex_char(b / 16), hex_char(b % 16)]
    }
}

/// The bytes from position `i` on as they are written in a query string.
pub open spec fn encoded_from(bytes: Seq<u8>, i: int) -> Seq<char>
    decreases bytes.len() - i,
{
    if i < 0 || i >= bytes.len() {
        Seq::empty()
    } else {
        encoded_byte(bytes[i]) + encoded_from(bytes, i + 1)
    }
}

/// A text as it is written in a query string: the bytes of its UTF-8
/// form, each as itself or percent-encoded.
pub open spec fn encoded(text: Seq<char>) -> Seq<char> {
    encoded_from(encode_utf8(text), 0)
}

/// One piece of a query string for each value from position `j` on of a
/// parameter: the name, an equals sign and the value.
pub open spec fn value_pieces(name: Seq<char>, values: Seq<Seq<char>>, j: int) -> Seq<Seq<char>>
    decreases values.len() - j,
{
    if j < 0 || j >= values.len() {
        Seq::empty()
    } else {
        seq![encoded(name) + seq!['='] + encoded(values[j])] + value_pieces(name, values, j + 1)
    }
}

/// The pieces of a query string for the parameters from position `i` on.
pub open spec fn query_pieces(query: QueryView, i: int) -> Seq<Seq<char>>
    decreases query.len() - i,
{
    if i < 0 || i >= query.len() {
        Seq::empty()
    } else {
        value_pieces(query[i].0, query[i].1, 0) + query_pieces(query, i + 1)
    }
}

/// A query as a query string: its pieces with ampersands between them.
pub open spec fn query_text(query: QueryView) -> Seq<char> {
    joined(query_pieces(query, 0), seq!['&'])
}

fn hex_digit_char(n: u8) -> (c: char)
    requires
        n < 16,
    ensures
        c == hex_char(n),
{
    if n < 10 {
        (0x30 + n) as char
    } else {
        (0x37 + n) as char
    }
}

/// Writes a text as it stands in a query string.
pub fn encode_query_part(text: &str) -> (out: String)
    ensures
        out@ == encoded(text@),
{
    let bytes = text.as_bytes_vec();
    let mut out: Vec<char> = Vec::new();
    let mut i: usize = 0;
    while i < bytes.len()
        invariant
            i <= bytes.len(),
            bytes@ == encode_utf8(text@),
            out@ + encoded_from(bytes@, i as int) == encoded_from(bytes@, 0),
        decreases bytes.len() - i,
    {
        let ghost before = out@;
        let ghost rest = encoded_from(bytes@, i + 1);
        let b = bytes[i];
        if (0x41 <= b && b <= 0x5a) || (0x61 <= b && b <= 0x7a) || (0x30 <= b && b <= 0x39) || b
            == 0x2d || b == 0x5f || b == 0x2e || b == 0x7e {
            out.push(b as char);
            proof {
                assert(before + (seq![b as char] + rest) =~= out@ + rest);
            }
        } else {
            out.push('%');
            out.push(hex_digit_char(b / 16));
            out.push(hex_digit_char(b % 16));
            proof {
                assert(before + (seq!['%', hex_char(b / 16), hex_char(b % 16)] + rest) =~= out@
                    + rest);
            }
        }
        i = i + 1;
    }
    proof {
        assert(out@ + Seq::<char>::empty() =~= out@);
    }
    string_of(&out)
}

/// Writes a query as a query string.
pub fn build_query_string(query: &Query) -> (text: String)
    ensures
        text@ == query_text(query_view(query@)),
{
    let ghost all = query_view(query@);
    let mut pieces: Vec<String> = Vec::new();
    assert(strings_view(pieces@) =~= Seq::<Seq<char>>::empty());
    let mut i: usize = 0;
    proof {
        assert(strings_view(pieces@) + query_pieces(all, 0) =~= query_pieces(all, 0));
    }
    while i < query.len()
        invariant
            i <= query.len(),
            all == query_view(query@),
            strings_view(pieces@) + query_pieces(all, i as int) == query_pieces(all, 0),
        decreases query.len() - i,
    {
        let ghost start = strings_view(pieces@);
        let ghost name = query@[i as int].0@;
        let ghost values = strings_view(query@[i as int].1@);
        let ghost later = query_pieces(all, i + 1);
        let key = encode_query_part(query[i].0.as_str());
        let mut j: usize = 0;
        proof {
            assert(all[i as int] == (name, values));
            assert(start + (value_pieces(name, values, 0) + later) =~= strings_view(pieces@)
                + value_pieces(name, values, 0) + later);
        }
        while j < query[i].1.len()
            invariant
                i < query.len(),
                j <= query[i as int].1.len(),
                key@ == encoded(name),
                name == query@[i as int].0@,
                values == strings_view(query@[i as int].1@),
                strings_view(pieces@) + value_pieces(name, values, j as int) + later == start + (
                value_pieces(name, values, 0) + later),
            decreases query[i as int].1.len() - j,
        {
            let ghost before = strings_view(pieces@);
            let ghost rest = value_pieces(name, values, j + 1);
            let mut piece = key.clone();
            piece.push('=');
            piece.append(encode_query_part(query[i].1[j].as_str()).as_str());
            proof {
                assert(piece@ =~= encoded(name) + seq!['='] + encoded(values[j as int]));
            }
            pieces.push(piece);
            proof {
                assert(strings_view(pieces@) =~= before.push(piece@));
                assert(before + (seq![piece@] + rest) + later =~= strings_view(pieces@) + rest
                    + later);
            }
            j = j + 1;
        }
        proof {
            assert(strings_view(pieces@) + Seq::<Seq<char>>::empty() + later =~= strings_view(
                pieces@,
            ) + later);
        }
        i = i + 1;
    }
    proof {
        assert(strings_view(pieces@) + Seq::<Seq<char>>::empty() =~= strings_view(pieces@));
        reveal_strlit("&");
        assert("&"@ =~= seq!['&']);
    }
    join(&pieces, "&")
}

} // verus!
