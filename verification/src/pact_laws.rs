//! What holds of writing a pact as JSON and reading it back.

use crate::json::JsonValue;
use crate::models::{BodyView, InteractionView, MatchersView, QueryView, RequestView, ResponseView};
use crate::pact::{
    detected_revision, flaws, interactions_json_as, interactions_of_json, is_own_section,
    kept_sections, library_version, metadata_entry, metadata_json, metadata_of_json, ordered_upto,
    pact_json_as, pact_of_json, party_json, place_of, place_of_bounds, revision_of_json,
    revision_text, revision_to_write, sections_to_write, written_metadata, MetadataView,
    PactView,
};
use crate::pact_json::{
    body_json, body_of_json, canonical_path, declares_json, interaction_json_as,
    interaction_of_json, option_pairs_json, option_query_json, option_rules_json, pairs_json,
    pairs_of_members, query_json, query_member_json, query_of_json, request_json_as,
    request_of_json, response_json, response_of_json, rule_of_json, rules_json, rules_of_json,
    strings_json, table_of_json, values_of_json, with_member, with_shared_members,
    writes_query_as_text, PactSpecification,
};
use crate::text::{
    decimal, digit_char, digit_value, is_digit, is_numeral, key_position, key_position_bounds,
    numeral_value, uppercase,
};
use vstd::prelude::*;
use vstd::utf8::{decode_utf8, decode_utf8_encode_utf8, encode_utf8, valid_utf8};

verus! {

/// The member that a name selects in an object with one more member at
/// its end: the one that it selected before where there was one, else the
/// new member where it has the name.
pub proof fn member_after_push(
    members: Seq<(Seq<char>, JsonValue)>,
    name: Seq<char>,
    value: JsonValue,
    key: Seq<char>,
)
    ensures
        JsonValue::Object(members.push((name, value))).member(key) == (if JsonValue::Object(
            members,
        ).member(key) is Some {
            JsonValue::Object(members).member(key)
        } else if name == key {
            Some(value)
        } else {
            None
        }),
{
    position_after_push(members, name, value, key, 0);
}

/// The position of a name in a list of members with one more member at
/// its end.
pub proof fn position_after_push(
    members: Seq<(Seq<char>, JsonValue)>,
    name: Seq<char>,
    value: JsonValue,
    key: Seq<char>,
    from: int,
)
    requires
        0 <= from <= members.len(),
    ensures
        JsonValue::position_from(members.push((name, value)), key, from) == (
        if JsonValue::position_from(members, key, from) < members.len() {
            JsonValue::position_from(members, key, from)
        } else if name == key {
            members.len() as int
        } else {
            members.len() as int + 1
        }),
        from <= JsonValue::position_from(members, key, from) <= members.len(),
        JsonValue::position_from(members, key, from) < members.len() ==> members.push(
            (name, value),
        )[JsonValue::position_from(members, key, from)] == members[JsonValue::position_from(
            members,
            key,
            from,
        )],
    decreases members.len() - from,
{
    let longer = members.push((name, value));
    if from < members.len() {
        assert(longer[from] == members[from]);
        if members[from].0 != key {
            position_after_push(members, name, value, key, from + 1);
        }
    } else {
        assert(longer[from] == (name, value));
        if name != key {
            assert(JsonValue::position_from(longer, key, from + 1) == longer.len());
        }
    }
}

/// The position of a key in a table with one more entry at its end.
pub proof fn key_position_after_push<V>(
    entries: Seq<(Seq<char>, V)>,
    name: Seq<char>,
    value: V,
    key: Seq<char>,
    from: int,
)
    requires
        0 <= from <= entries.len(),
    ensures
        key_position(entries.push((name, value)), key, from) == (if key_position(
            entries,
            key,
            from,
        ) < entries.len() {
            key_position(entries, key, from)
        } else if name == key {
            entries.len() as int
        } else {
            entries.len() as int + 1
        }),
        from <= key_position(entries, key, from) <= entries.len(),
    decreases entries.len() - from,
{
    let longer = entries.push((name, value));
    if from < entries.len() {
        assert(longer[from] == entries[from]);
        if entries[from].0 != key {
            key_position_after_push(entries, name, value, key, from + 1);
        }
    } else {
        assert(longer[from] == (name, value));
        if name != key {
            assert(key_position(longer, key, from + 1) == longer.len());
        }
    }
}

/// The member that a name selects in an object to which a member was
/// added where there was one to add.
pub proof fn member_after_with(
    members: Seq<(Seq<char>, JsonValue)>,
    name: Seq<char>,
    value: Option<JsonValue>,
    key: Seq<char>,
)
    ensures
        JsonValue::Object(with_member(members, name, value)).member(key) == (if JsonValue::Object(
            members,
        ).member(key) is Some {
            JsonValue::Object(members).member(key)
        } else if name == key {
            value
        } else {
            None
        }),
{
    match value {
        Some(v) => {
            member_after_push(members, name, v, key);
        },
        None => {},
    }
}

/// The names of the members of a request and of a response differ from
/// each other.
pub proof fn message_names_differ()
    ensures
        "method"@ != "path"@,
        "method"@ != "query"@,
        "method"@ != "headers"@,
        "method"@ != "body"@,
        "method"@ != "matchingRules"@,
        "path"@ != "query"@,
        "path"@ != "headers"@,
        "path"@ != "body"@,
        "path"@ != "matchingRules"@,
        "query"@ != "headers"@,
        "query"@ != "body"@,
        "query"@ != "matchingRules"@,
        "headers"@ != "body"@,
        "headers"@ != "matchingRules"@,
        "body"@ != "matchingRules"@,
        "status"@ != "headers"@,
        "status"@ != "body"@,
        "status"@ != "matchingRules"@,
        "generators"@ != "method"@,
        "generators"@ != "path"@,
        "generators"@ != "query"@,
        "generators"@ != "headers"@,
        "generators"@ != "body"@,
        "generators"@ != "matchingRules"@,
        "generators"@ != "status"@,
{
    reveal_strlit("method");
    reveal_strlit("path");
    reveal_strlit("query");
    reveal_strlit("headers");
    reveal_strlit("body");
    reveal_strlit("matchingRules");
    reveal_strlit("status");
    reveal_strlit("generators");
    assert("generators"@.len() == 10);
    assert("method"@.len() == 6);
    assert("path"@.len() == 4);
    assert("query"@.len() == 5);
    assert("headers"@.len() == 7);
    assert("body"@.len() == 4);
    assert("matchingRules"@.len() == 13);
    assert("status"@.len() == 6);
    assert("path"@[0] != "body"@[0]);
    assert("method"@[0] != "status"@[0]);
}

/// The names of the members of an interaction and of a pact differ from
/// each other.
pub proof fn document_names_differ()
    ensures
        "description"@ != "providerState"@,
        "description"@ != "request"@,
        "description"@ != "response"@,
        "providerState"@ != "request"@,
        "providerState"@ != "response"@,
        "request"@ != "response"@,
        "consumer"@ != "provider"@,
        "consumer"@ != "interactions"@,
        "consumer"@ != "metadata"@,
        "provider"@ != "interactions"@,
        "provider"@ != "metadata"@,
        "interactions"@ != "metadata"@,
        "pact-rust"@ != "pact-specification"@,
        "pact-rust"@ != "pactSpecification"@,
        "2.0.0"@ != "1.0.0"@,
        "2.0.0"@ != "1.1.0"@,
        "1.1.0"@ != "1.0.0"@,
        "3.0.0"@ != "1.0.0"@,
        "3.0.0"@ != "1.1.0"@,
        "3.0.0"@ != "2.0.0"@,
{
    reveal_strlit("description");
    reveal_strlit("providerState");
    reveal_strlit("request");
    reveal_strlit("response");
    reveal_strlit("consumer");
    reveal_strlit("provider");
    reveal_strlit("interactions");
    reveal_strlit("metadata");
    reveal_strlit("pact-rust");
    reveal_strlit("pact-specification");
    reveal_strlit("pactSpecification");
    reveal_strlit("2.0.0");
    reveal_strlit("1.0.0");
    reveal_strlit("1.1.0");
    assert("description"@.len() == 11);
    assert("providerState"@.len() == 13);
    assert("request"@.len() == 7);
    assert("response"@.len() == 8);
    assert("consumer"@.len() == 8);
    assert("provider"@.len() == 8);
    assert("interactions"@.len() == 12);
    assert("metadata"@.len() == 8);
    assert("pact-rust"@.len() == 9);
    assert("pact-specification"@.len() == 18);
    assert("pactSpecification"@.len() == 17);
    assert("consumer"@[0] != "provider"@[0]);
    assert("consumer"@[0] != "metadata"@[0]);
    assert("provider"@[0] != "metadata"@[0]);
    reveal_strlit("3.0.0");
    assert("2.0.0"@[0] != "1.0.0"@[0]);
    assert("2.0.0"@[0] != "1.1.0"@[0]);
    assert("1.1.0"@[2] != "1.0.0"@[2]);
    assert("3.0.0"@[0] != "1.0.0"@[0]);
    assert("3.0.0"@[0] != "1.1.0"@[0]);
    assert("3.0.0"@[0] != "2.0.0"@[0]);
}

/// The decimal numeral of a number is made of digits and stands for the
/// number.
pub proof fn decimal_reads_back(n: nat)
    ensures
        is_numeral(decimal(n)),
        numeral_value(decimal(n)) == n,
    decreases n,
{
    if n < 10 {
        assert(decimal(n) =~= seq![digit_char(n)]);
        assert(decimal(n).drop_last() =~= Seq::<char>::empty());
        assert(numeral_value(Seq::<char>::empty()) == 0);
        assert(digit_value(digit_char(n)) == n);
        assert(is_digit(digit_char(n)));
    } else {
        decimal_reads_back(n / 10);
        let shorter = decimal(n / 10);
        let d = digit_char(n % 10);
        assert(decimal(n) == shorter.push(d));
        assert(shorter.push(d).drop_last() =~= shorter);
        assert(digit_value(d) == n % 10);
        assert(is_digit(d));
        assert forall|i: int| 0 <= i < decimal(n).len() implies is_digit(#[trigger] decimal(n)[i]) by {
            if i < shorter.len() {
                assert(decimal(n)[i] == shorter[i]);
            }
        }
    }
}

/// Whether a body is written in a way that reads back as the same body:
/// it has bytes that are UTF-8 where it has any, and its headers do not
/// declare it JSON.
pub open spec fn body_reads_back(headers: Option<Seq<(Seq<char>, Seq<char>)>>, body: BodyView) -> bool {
    match body {
        BodyView::Present(bytes) => bytes.len() > 0 && valid_utf8(bytes) && !declares_json(headers),
        _ => true,
    }
}

/// Whether headers are none or some.
pub open spec fn table_reads_back(table: Option<Seq<(Seq<char>, Seq<char>)>>) -> bool {
    match table {
        Some(entries) => entries.len() > 0,
        None => true,
    }
}

/// Whether a query is none or has a parameter.
pub open spec fn query_reads_back(query: Option<QueryView>) -> bool {
    match query {
        Some(entries) => entries.len() > 0,
        None => true,
    }
}

/// Whether every path expression of a set of rules starts with `$`.
pub open spec fn rules_read_back(rules: MatchersView) -> bool {
    forall|i: int| 0 <= i < rules.len() ==> canonical_path(#[trigger] rules[i].0) == rules[i].0
}

/// Whether a request is in the form in which it reads back: the method
/// in capitals, and query, headers, body and rules as they read back.
pub open spec fn request_reads_back(request: RequestView) -> bool {
    &&& uppercase(request.method) == request.method
    &&& query_reads_back(request.query)
    &&& table_reads_back(request.headers)
    &&& body_reads_back(request.headers, request.body)
    &&& rules_read_back(request.matching_rules)
    &&& rules_read_back(request.generators)
}

/// Whether a response is in the form in which it reads back.
pub open spec fn response_reads_back(response: ResponseView) -> bool {
    &&& table_reads_back(response.headers)
    &&& body_reads_back(response.headers, response.body)
    &&& rules_read_back(response.matching_rules)
    &&& rules_read_back(response.generators)
}

/// Whether every interaction of a pact is in the form in which it reads
/// back.
pub open spec fn pact_reads_back(pact: PactView) -> bool {
    forall|i: int|
        0 <= i < pact.interactions.len() ==> request_reads_back(
            (#[trigger] pact.interactions[i]).request,
        ) && response_reads_back(pact.interactions[i].response)
}

/// A table that is written reads back.
pub proof fn table_read_back(table: Option<Seq<(Seq<char>, Seq<char>)>>)
    requires
        table_reads_back(table),
    ensures
        table_of_json(option_pairs_json(table)) == table,
{
    match table {
        Some(entries) => {
            assert(pairs_of_members(pairs_json(entries)->Object_0) =~= entries);
        },
        None => {},
    }
}

/// A query that is written reads back.
pub proof fn query_read_back(query: Option<QueryView>)
    requires
        query_reads_back(query),
    ensures
        query_of_json(option_query_json(query)) == query,
{
    match query {
        Some(entries) => {
            let members = query_json(entries)->Object_0;
            assert forall|i: int| 0 <= i < entries.len() implies values_of_json(members[i].1)
                == entries[i].1 by {
                assert(values_of_json(strings_json(entries[i].1)) =~= entries[i].1);
            }
            assert(query_of_json(Some(query_json(entries)))->0 =~= entries);
        },
        None => {},
    }
}

/// Rules that are written read back.
pub proof fn rules_read_back_lemma(rules: MatchersView)
    requires
        rules_read_back(rules),
    ensures
        rules_of_json(option_rules_json(rules)) == rules,
{
    if rules.len() > 0 {
        let members = rules_json(rules)->Object_0;
        assert forall|i: int| 0 <= i < rules.len() implies rule_of_json(members[i].1)
            == rules[i].1 by {
            assert(pairs_of_members(pairs_json(rules[i].1)->Object_0) =~= rules[i].1);
        }
        assert(rules_of_json(Some(rules_json(rules))) =~= rules);
    } else {
        assert(rules =~= Seq::empty());
    }
}

/// A body that is written reads back.
pub proof fn body_read_back(headers: Option<Seq<(Seq<char>, Seq<char>)>>, body: BodyView)
    requires
        body_reads_back(headers, body),
    ensures
        body_of_json(body_json(headers, body)) == body,
{
    match body {
        BodyView::Present(bytes) => {
            decode_utf8_encode_utf8(bytes);
            let text = decode_utf8(bytes);
            if text.len() == 0 {
                assert(encode_utf8(text) =~= Seq::<u8>::empty());
            }
        },
        _ => {},
    }
}

/// The shared members of a message read back from the object that
/// holds them.
pub proof fn shared_members_read_back(
    members: Seq<(Seq<char>, JsonValue)>,
    headers: Option<Seq<(Seq<char>, Seq<char>)>>,
    body: BodyView,
    rules: MatchersView,
    generators: MatchersView,
)
    requires
        JsonValue::Object(members).member("headers"@) is None,
        JsonValue::Object(members).member("body"@) is None,
        JsonValue::Object(members).member("matchingRules"@) is None,
        JsonValue::Object(members).member("generators"@) is None,
    ensures
        JsonValue::Object(with_shared_members(members, headers, body, rules, generators)).member(
            "headers"@,
        ) == option_pairs_json(headers),
        JsonValue::Object(with_shared_members(members, headers, body, rules, generators)).member(
            "body"@,
        ) == body_json(headers, body),
        JsonValue::Object(with_shared_members(members, headers, body, rules, generators)).member(
            "matchingRules"@,
        ) == option_rules_json(rules),
        JsonValue::Object(with_shared_members(members, headers, body, rules, generators)).member(
            "generators"@,
        ) == option_rules_json(generators),
        forall|key: Seq<char>|
            key != "headers"@ && key != "body"@ && key != "matchingRules"@ && key
                != "generators"@ ==> JsonValue::Object(
                with_shared_members(members, headers, body, rules, generators),
            ).member(key) == #[trigger] JsonValue::Object(members).member(key),
{
    message_names_differ();
    let one = with_member(members, "headers"@, option_pairs_json(headers));
    let two = with_member(one, "body"@, body_json(headers, body));
    let three = with_member(two, "matchingRules"@, option_rules_json(rules));
    assert forall|key: Seq<char>|
        JsonValue::Object(with_shared_members(members, headers, body, rules, generators)).member(
            key,
        ) == (if JsonValue::Object(members).member(key) is Some {
            JsonValue::Object(members).member(key)
        } else if key == "headers"@ {
            option_pairs_json(headers)
        } else if key == "body"@ {
            body_json(headers, body)
        } else if key == "matchingRules"@ {
            option_rules_json(rules)
        } else if key == "generators"@ {
            option_rules_json(generators)
        } else {
            None
        }) by {
        member_after_with(members, "headers"@, option_pairs_json(headers), key);
        member_after_with(one, "body"@, body_json(headers, body), key);
        member_after_with(two, "matchingRules"@, option_rules_json(rules), key);
        member_after_with(three, "generators"@, option_rules_json(generators), key);
    }
}

/// A request that is written under one revision in the form in which it
/// reads back reads back under any revision. Under a revision that
/// writes a query as a query string this is said of requests without a
/// query.
pub proof fn request_read_back(
    request: RequestView,
    written: PactSpecification,
    read: PactSpecification,
)
    requires
        request_reads_back(request),
        writes_query_as_text(written) ==> request.query is None,
    ensures
        request_of_json(request_json_as(request, written), read) == request,
{
    message_names_differ();
    let base = seq![
        ("method"@, JsonValue::Str(uppercase(request.method))),
        ("path"@, JsonValue::Str(request.path)),
    ];
    let first = seq![("method"@, JsonValue::Str(uppercase(request.method)))];
    assert(base =~= first.push(("path"@, JsonValue::Str(request.path))));
    assert(first =~= Seq::<(Seq<char>, JsonValue)>::empty().push(
        ("method"@, JsonValue::Str(uppercase(request.method))),
    ));
    let query = query_member_json(request.query, written);
    assert(query == option_query_json(request.query));
    let with_query = with_member(base, "query"@, query);
    assert forall|key: Seq<char>|
        JsonValue::Object(with_query).member(key) == (if key == "method"@ {
            Some(JsonValue::Str(uppercase(request.method)))
        } else if key == "path"@ {
            Some(JsonValue::Str(request.path))
        } else if key == "query"@ {
            query
        } else {
            None
        }) by {
        member_after_push(
            Seq::empty(),
            "method"@,
            JsonValue::Str(uppercase(request.method)),
            key,
        );
        member_after_push(first, "path"@, JsonValue::Str(request.path), key);
        member_after_with(base, "query"@, query, key);
    }
    shared_members_read_back(
        with_query,
        request.headers,
        request.body,
        request.matching_rules,
        request.generators,
    );
    query_read_back(request.query);
    table_read_back(request.headers);
    body_read_back(request.headers, request.body);
    rules_read_back_lemma(request.matching_rules);
    rules_read_back_lemma(request.generators);
    let json = request_json_as(request, written);
    assert(json.member("method"@) == JsonValue::Object(with_query).member("method"@));
    assert(json.member("path"@) == JsonValue::Object(with_query).member("path"@));
    assert(json.member("query"@) == JsonValue::Object(with_query).member("query"@));
}

/// A response that is written in the form in which it reads back reads
/// back.
pub proof fn response_read_back(response: ResponseView)
    requires
        response_reads_back(response),
    ensures
        response_of_json(response_json(response)) == response,
{
    message_names_differ();
    let status = JsonValue::Number(decimal(response.status as nat));
    let base = seq![("status"@, status)];
    assert(base =~= Seq::<(Seq<char>, JsonValue)>::empty().push(("status"@, status)));
    assert forall|key: Seq<char>|
        JsonValue::Object(base).member(key) == (if key == "status"@ {
            Some(status)
        } else {
            None
        }) by {
        member_after_push(Seq::empty(), "status"@, status, key);
    }
    shared_members_read_back(
        base,
        response.headers,
        response.body,
        response.matching_rules,
        response.generators,
    );
    table_read_back(response.headers);
    body_read_back(response.headers, response.body);
    rules_read_back_lemma(response.matching_rules);
    rules_read_back_lemma(response.generators);
    decimal_reads_back(response.status as nat);
    let json = response_json(response);
    assert(json.member("status"@) == JsonValue::Object(base).member("status"@));
}

/// An interaction that is written under one revision in the form in
/// which it reads back reads back under any revision.
pub proof fn interaction_read_back(
    interaction: InteractionView,
    written: PactSpecification,
    read: PactSpecification,
)
    requires
        request_reads_back(interaction.request),
        response_reads_back(interaction.response),
        writes_query_as_text(written) ==> interaction.request.query is None,
    ensures
        interaction_of_json(interaction_json_as(interaction, written), read) == interaction,
{
    document_names_differ();
    request_read_back(interaction.request, written, read);
    response_read_back(interaction.response);
    let description = JsonValue::Str(interaction.description);
    let state = crate::pact_json::option_text_json(interaction.provider_state);
    let base = seq![("description"@, description)];
    assert(base =~= Seq::<(Seq<char>, JsonValue)>::empty().push(("description"@, description)));
    let one = with_member(base, "providerState"@, state);
    let request = request_json_as(interaction.request, written);
    let two = one.push(("request"@, request));
    assert forall|key: Seq<char>|
        interaction_json_as(interaction, written).member(key) == (if key == "description"@ {
            Some(description)
        } else if key == "providerState"@ {
            state
        } else if key == "request"@ {
            Some(request)
        } else if key == "response"@ {
            Some(response_json(interaction.response))
        } else {
            None
        }) by {
        member_after_push(Seq::empty(), "description"@, description, key);
        member_after_with(base, "providerState"@, state, key);
        member_after_push(one, "request"@, request, key);
        member_after_push(two, "response"@, response_json(interaction.response), key);
    }
}

/// No section that the writer keeps is one that it sets itself.
pub proof fn kept_sections_are_not_own(metadata: MetadataView, i: int, key: Seq<char>, from: int)
    requires
        0 <= i,
        0 <= from,
        is_own_section(key),
    ensures
        key_position(kept_sections(metadata, i), key, from) >= kept_sections(metadata, i).len(),
    decreases metadata.len() - i, kept_sections(metadata, i).len() - from,
{
    let kept = kept_sections(metadata, i);
    if from < kept.len() {
        kept_section_is_not_own(metadata, i, from);
        kept_sections_are_not_own(metadata, i, key, from + 1);
    }
}

/// The section at a position among those that the writer keeps is none
/// that it sets itself.
pub proof fn kept_section_is_not_own(metadata: MetadataView, i: int, at: int)
    requires
        0 <= i,
        0 <= at < kept_sections(metadata, i).len(),
    ensures
        !is_own_section(kept_sections(metadata, i)[at].0),
    decreases metadata.len() - i,
{
    if i < metadata.len() {
        if is_own_section(metadata[i].0) {
            kept_section_is_not_own(metadata, i + 1, at);
        } else if at > 0 {
            kept_section_is_not_own(metadata, i + 1, at - 1);
        }
    }
}

/// The position of a key in a table into which an entry was put at a
/// position: where the key stood before that position it stands as it
/// did; else the new entry is found where it has the key, and any later
/// entry one position further on.
pub proof fn key_position_after_insert<V>(
    entries: Seq<(Seq<char>, V)>,
    at: int,
    entry: (Seq<char>, V),
    key: Seq<char>,
    from: int,
)
    requires
        0 <= at <= entries.len(),
        0 <= from <= entries.len() + 1,
    ensures
        from <= at ==> key_position(entries.insert(at, entry), key, from) == (if key_position(
            entries,
            key,
            from,
        ) < at {
            key_position(entries, key, from)
        } else if entry.0 == key {
            at
        } else {
            key_position(entries, key, at) + 1
        }),
        from > at ==> key_position(entries.insert(at, entry), key, from) == key_position(
            entries,
            key,
            from - 1,
        ) + 1,
    decreases entries.len() + 1 - from,
{
    let longer = entries.insert(at, entry);
    assert(longer.len() == entries.len() + 1);
    if from <= entries.len() {
        key_position_bounds(entries, key, from);
    }
    key_position_bounds(entries, key, at);
    if from < longer.len() {
        key_position_after_insert(entries, at, entry, key, from + 1);
        if from < at {
            assert(longer[from] == entries[from]);
        } else if from == at {
            assert(longer[from] == entry);
        } else {
            assert(longer[from] == entries[from - 1]);
        }
    }
}

/// The first `n` sections in order are `n` sections.
pub proof fn ordered_upto_len(sections: MetadataView, n: int)
    requires
        0 <= n <= sections.len(),
    ensures
        ordered_upto(sections, n).len() == n,
    decreases n,
{
    if n > 0 {
        ordered_upto_len(sections, n - 1);
        place_of_bounds(ordered_upto(sections, n - 1), sections[n - 1].0);
    }
}

/// Sections of which none has a name are, put in order, still sections
/// of which none has the name.
pub proof fn ordered_sections_lack_key(sections: MetadataView, n: int, key: Seq<char>)
    requires
        0 <= n <= sections.len(),
        forall|i: int| 0 <= i < n ==> (#[trigger] sections[i]).0 != key,
    ensures
        key_position(ordered_upto(sections, n), key, 0) >= ordered_upto(sections, n).len(),
    decreases n,
{
    ordered_upto_len(sections, n);
    if n > 0 {
        ordered_upto_len(sections, n - 1);
        ordered_sections_lack_key(sections, n - 1, key);
        let before = ordered_upto(sections, n - 1);
        let at = place_of(before, sections[n - 1].0);
        place_of_bounds(before, sections[n - 1].0);
        key_position_after_insert(before, at, sections[n - 1], key, 0);
        key_position_from_later(before, key, 0, at);
    }
}

/// A key that is not found from a position on is not found from any
/// later position on.
pub proof fn key_position_from_later<V>(
    entries: Seq<(Seq<char>, V)>,
    key: Seq<char>,
    from: int,
    later: int,
)
    requires
        0 <= from <= later <= entries.len(),
        key_position(entries, key, from) >= entries.len(),
    ensures
        key_position(entries, key, later) >= entries.len(),
    decreases later - from,
{
    if from < later {
        key_position_from_later(entries, key, from + 1, later);
    }
}

/// The metadata that are written name the revision that is written.
pub proof fn written_metadata_name_revision(metadata: MetadataView, revision: PactSpecification)
    ensures
        detected_revision(written_metadata(metadata, revision)) == revision_to_write(revision),
{
    document_names_differ();
    let kept = kept_sections(metadata, 0);
    let text = revision_text(revision_to_write(revision));
    let maker = ("pact-rust"@, seq![("version"@, library_version())]);
    let named = ("pact-specification"@, seq![("version"@, text)]);
    let sections = sections_to_write(metadata, revision);
    let key = "pact-specification"@;
    let n = kept.len() as int;
    assert(sections.len() == n + 2);
    assert(sections[n] == maker);
    assert(sections[n + 1] == named);
    assert forall|i: int| 0 <= i < n + 1 implies (#[trigger] sections[i]).0 != key by {
        if i < n {
            assert(sections[i] == kept[i]);
            kept_section_is_not_own(metadata, 0, i);
        }
    }
    ordered_sections_lack_key(sections, n + 1, key);
    ordered_upto_len(sections, n + 1);
    let before = ordered_upto(sections, n + 1);
    let at = place_of(before, key);
    place_of_bounds(before, key);
    key_position_after_insert(before, at, named, key, 0);
    let written = written_metadata(metadata, revision);
    assert(written == before.insert(at, named));
    assert(key_position(written, key, 0) == at);
    assert(written[at] == named);
    assert(named.1 =~= Seq::<(Seq<char>, Seq<char>)>::empty().push(("version"@, text)));
    key_position_after_push(
        Seq::<(Seq<char>, Seq<char>)>::empty(),
        "version"@,
        text,
        "version"@,
        0,
    );
    assert(metadata_entry(written, key, "version"@) == Some(text));
}

/// Metadata that are written read back.
pub proof fn metadata_read_back(metadata: MetadataView)
    ensures
        metadata_of_json(Some(metadata_json(metadata))) == metadata,
{
    let members = metadata_json(metadata)->Object_0;
    assert forall|i: int| 0 <= i < metadata.len() implies rule_of_json(members[i].1)
        == metadata[i].1 by {
        assert(pairs_of_members(pairs_json(metadata[i].1)->Object_0) =~= metadata[i].1);
    }
    assert(metadata_of_json(Some(metadata_json(metadata))) =~= metadata);
}

/// Whether a pact is in the form in which it reads back once it is
/// written under a revision: its interactions are, and under a revision
/// that writes a query as a query string no request has a query.
pub open spec fn pact_reads_back_under(pact: PactView, revision: PactSpecification) -> bool {
    &&& pact_reads_back(pact)
    &&& writes_query_as_text(revision_to_write(revision)) ==> forall|i: int|
        0 <= i < pact.interactions.len() ==> (#[trigger] pact.interactions[i]).request.query is None
}

/// A pact that is written as JSON under a revision and read back is the
/// pact that was written, with the metadata as they were written and
/// under the revision that was written, where the pact is in the form in
/// which it reads back.
pub proof fn pact_reads_back_as_written(pact: PactView, revision: PactSpecification)
    requires
        pact_reads_back_under(pact, revision),
    ensures
        pact_of_json(pact_json_as(pact, revision)) == (PactView {
            metadata: written_metadata(pact.metadata, revision),
            specification_version: revision_to_write(revision),
            ..pact
        }),
{
    document_names_differ();
    let json = pact_json_as(pact, revision);
    let written = revision_to_write(revision);
    let consumer = party_json(pact.consumer);
    let provider = party_json(pact.provider);
    let interactions = interactions_json_as(pact.interactions, written);
    let metadata = metadata_json(written_metadata(pact.metadata, revision));
    let none = Seq::<(Seq<char>, JsonValue)>::empty();
    let one = none.push(("consumer"@, consumer));
    let two = one.push(("provider"@, provider));
    let three = two.push(("interactions"@, interactions));
    assert(json->Object_0 =~= three.push(("metadata"@, metadata)));
    assert forall|key: Seq<char>|
        json.member(key) == (if key == "consumer"@ {
            Some(consumer)
        } else if key == "provider"@ {
            Some(provider)
        } else if key == "interactions"@ {
            Some(interactions)
        } else if key == "metadata"@ {
            Some(metadata)
        } else {
            None
        }) by {
        member_after_push(none, "consumer"@, consumer, key);
        member_after_push(one, "provider"@, provider, key);
        member_after_push(two, "interactions"@, interactions, key);
        member_after_push(three, "metadata"@, metadata, key);
    }
    assert(consumer->Object_0 =~= none.push(("name"@, JsonValue::Str(pact.consumer))));
    assert(provider->Object_0 =~= none.push(("name"@, JsonValue::Str(pact.provider))));
    member_after_push(none, "name"@, JsonValue::Str(pact.consumer), "name"@);
    member_after_push(none, "name"@, JsonValue::Str(pact.provider), "name"@);
    metadata_read_back(written_metadata(pact.metadata, revision));
    written_metadata_name_revision(pact.metadata, revision);
    assert(written != PactSpecification::Unknown);
    assert(flaws(json) =~= Seq::empty());
    assert(revision_of_json(json) == written);
    assert forall|i: int| 0 <= i < pact.interactions.len() implies interaction_of_json(
        interactions->Array_0[i],
        written,
    ) == pact.interactions[i] by {
        interaction_read_back(pact.interactions[i], written, written);
    }
    assert(interactions_of_json(Some(interactions), written) =~= pact.interactions);
}

} // verus!
