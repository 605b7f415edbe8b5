//! Requests, responses and interactions as JSON, the way a pact file
//! holds them.

use crate::content_type::{is_json, is_json_media, media_type, media_type_of};
use crate::json::{
    json_parse_result, json_text, option_json, option_ref_json, text_of, Json, JsonValue,
};
use crate::models::{
    option_query, query_view, BodyView, Interaction, InteractionView, Matchers, MatchersView,
    OptionalBody, Query, QueryView, Request, RequestView, Response, ResponseView, Rule, RuleView,
};
use crate::query::{build_query_string, parse_query_string, parsed_query, query_text};
use crate::text::{
    chars_of, decimal, decimal_number, decimal_text, find_pair_ignoring_case,
    key_position_ignoring_case, lossy_string, option_pairs, pairs_view, parse_decimal,
    strings_view, text_of_bytes, uppercase, views,
};
use vstd::prelude::*;
use vstd::utf8::encode_utf8;

verus! {

/// The revisions of the pact file format.
#[derive(Debug, Clone, Copy, PartialEq, Eq, Structural)]
pub enum PactSpecification {
    /// A file that names no revision, or none that is known.
    Unknown,
    /// Revision 1.0.0.
    V1,
    /// Revision 1.1.0.
    V1_1,
    /// Revision 2.0.0.
    V2,
    /// Revision 3.0.0.
    V3,
}

/// A table as a JSON object of strings.
pub open spec fn pairs_json(pairs: Seq<(Seq<char>, Seq<char>)>) -> JsonValue {
    JsonValue::Object(Seq::new(pairs.len(), |i: int| (pairs[i].0, JsonValue::Str(pairs[i].1))))
}

/// A list of strings as a JSON array.
pub open spec fn strings_json(items: Seq<Seq<char>>) -> JsonValue {
    JsonValue::Array(Seq::new(items.len(), |i: int| JsonValue::Str(items[i])))
}

/// A query as a JSON object of arrays of strings.
pub open spec fn query_json(query: QueryView) -> JsonValue {
    JsonValue::Object(Seq::new(query.len(), |i: int| (query[i].0, strings_json(query[i].1))))
}

/// Matching rules as a JSON object of objects of strings.
pub open spec fn rules_json(rules: MatchersView) -> JsonValue {
    JsonValue::Object(Seq::new(rules.len(), |i: int| (rules[i].0, pairs_json(rules[i].1))))
}

/// Whether the headers name a JSON media type as the content type.
pub open spec fn declares_json(headers: Option<Seq<(Seq<char>, Seq<char>)>>) -> bool {
    match headers {
        Some(entries) => {
            let at = key_position_ignoring_case(entries, "Content-Type"@, 0);
            0 <= at < entries.len() && is_json_media(media_type_of(entries[at].1))
        },
        None => false,
    }
}

/// A body as JSON: nothing for a missing body, null for a null one, an
/// empty string for an empty one. A body with bytes is the document that
/// they hold where the headers declare JSON and the bytes can be read as
/// such, and else a string of their text.
pub open spec fn body_json(headers: Option<Seq<(Seq<char>, Seq<char>)>>, body: BodyView) -> Option<
    JsonValue,
> {
    match body {
        BodyView::Missing => None,
        BodyView::Null => Some(JsonValue::Null),
        BodyView::Empty => Some(JsonValue::Str(Seq::empty())),
        BodyView::Present(bytes) => if declares_json(headers) {
            match json_parse_result(bytes) {
                Ok(document) => Some(document),
                Err(_) => Some(JsonValue::Str(text_of_bytes(bytes))),
            }
        } else {
            Some(JsonValue::Str(text_of_bytes(bytes)))
        },
    }
}

/// Members with one more at the end, where there is one to add.
pub open spec fn with_member(
    members: Seq<(Seq<char>, JsonValue)>,
    name: Seq<char>,
    value: Option<JsonValue>,
) -> Seq<(Seq<char>, JsonValue)> {
    match value {
        Some(v) => members.push((name, v)),
        None => members,
    }
}

/// A table as JSON, where it holds anything.
pub open spec fn option_pairs_json(pairs: Option<Seq<(Seq<char>, Seq<char>)>>) -> Option<
    JsonValue,
> {
    match pairs {
        Some(entries) => if entries.len() > 0 {
            Some(pairs_json(entries))
        } else {
            None
        },
        None => None,
    }
}

/// A query as JSON, where it holds anything.
pub open spec fn option_query_json(query: Option<QueryView>) -> Option<JsonValue> {
    match query {
        Some(entries) => if entries.len() > 0 {
            Some(query_json(entries))
        } else {
            None
        },
        None => None,
    }
}

/// Matching rules as JSON, where there are any.
pub open spec fn option_rules_json(rules: MatchersView) -> Option<JsonValue> {
    if rules.len() > 0 {
        Some(rules_json(rules))
    } else {
        None
    }
}

/// The members that requests and responses share: headers, body,
/// matching rules and generators, each where there is one.
pub open spec fn with_shared_members(
    members: Seq<(Seq<char>, JsonValue)>,
    headers: Option<Seq<(Seq<char>, Seq<char>)>>,
    body: BodyView,
    rules: MatchersView,
    generators: MatchersView,
) -> Seq<(Seq<char>, JsonValue)> {
    with_member(
        with_member(
            with_member(
                with_member(members, "headers"@, option_pairs_json(headers)),
                "body"@,
                body_json(headers, body),
            ),
            "matchingRules"@,
            option_rules_json(rules),
        ),
        "generators"@,
        option_rules_json(generators),
    )
}

/// Whether a revision of the file format writes a query as a query
/// string: the revisions before 2.0.0 do.
pub open spec fn writes_query_as_text(revision: PactSpecification) -> bool {
    revision == PactSpecification::V1 || revision == PactSpecification::V1_1
}

/// A query as JSON under a revision, where it holds anything: a query
/// string under the revisions before 2.0.0, and else an object of arrays
/// of strings.
pub open spec fn query_member_json(query: Option<QueryView>, revision: PactSpecification) -> Option<
    JsonValue,
> {
    if writes_query_as_text(revision) {
        match query {
            Some(entries) => if entries.len() > 0 {
                Some(JsonValue::Str(query_text(entries)))
            } else {
                None
            },
            None => None,
        }
    } else {
        option_query_json(query)
    }
}

/// A request as JSON under a revision: the method in capitals, the path,
/// and where there is one the query, the headers, the body and the
/// matching rules.
pub open spec fn request_json_as(request: RequestView, revision: PactSpecification) -> JsonValue {
    JsonValue::Object(
        with_shared_members(
            with_member(
                seq![
                    ("method"@, JsonValue::Str(uppercase(request.method))),
                    ("path"@, JsonValue::Str(request.path)),
                ],
                "query"@,
                query_member_json(request.query, revision),
            ),
            request.headers,
            request.body,
            request.matching_rules,
            request.generators,
        ),
    )
}

/// A request as JSON under revision 2.0.0.
pub open spec fn request_json(request: RequestView) -> JsonValue {
    request_json_as(request, PactSpecification::V2)
}

/// A response as JSON: the status, and where there is one the headers,
/// the body and the matching rules.
pub open spec fn response_json(response: ResponseView) -> JsonValue {
    JsonValue::Object(
        with_shared_members(
            seq![("status"@, JsonValue::Number(decimal(response.status as nat)))],
            response.headers,
            response.body,
            response.matching_rules,
            response.generators,
        ),
    )
}

/// An optional text as a JSON string.
pub open spec fn option_text_json(text: Option<Seq<char>>) -> Option<JsonValue> {
    match text {
        Some(t) => Some(JsonValue::Str(t)),
        None => None,
    }
}

/// An interaction as JSON under a revision: the description, the
/// provider state where there is one, the request and the response.
pub open spec fn interaction_json_as(
    interaction: InteractionView,
    revision: PactSpecification,
) -> JsonValue {
    JsonValue::Object(
        with_member(
            seq![("description"@, JsonValue::Str(interaction.description))],
            "providerState"@,
            option_text_json(interaction.provider_state),
        ).push(("request"@, request_json_as(interaction.request, revision))).push(
            ("response"@, response_json(interaction.response)),
        ),
    )
}

/// An interaction as JSON under revision 2.0.0.
pub open spec fn interaction_json(interaction: InteractionView) -> JsonValue {
    interaction_json_as(interaction, PactSpecification::V2)
}

/// The view of the members of an object.
pub open spec fn members_view(members: Seq<(String, Json)>) -> Seq<(Seq<char>, JsonValue)> {
    Seq::new(members.len(), |i: int| (members[i].0@, members[i].1@))
}

/// An object of the given members.
pub fn object(members: Vec<(String, Json)>) -> (j: Json)
    ensures
        j@ == JsonValue::Object(members_view(members@)),
{
    let j = Json::Object(members);
    assert(j@->Object_0 =~= members_view(members@));
    j
}

/// An array of the given items.
pub fn array(items: Vec<Json>) -> (j: Json)
    ensures
        j@ == JsonValue::Array(views(items@)),
{
    let j = Json::Array(items);
    assert(j@->Array_0 =~= views(items@));
    j
}

fn add_member(members: &mut Vec<(String, Json)>, name: &str, value: Option<Json>)
    ensures
        members_view(final(members)@) == with_member(
            members_view(old(members)@),
            name@,
            option_json(value),
        ),
{
    match value {
        Some(v) => {
            members.push((String::from_str(name), v));
            assert(members_view(members@) =~= members_view(old(members)@).push((name@, v@)));
        },
        None => {},
    }
}

/// A table as a JSON object of strings.
pub fn pairs_to_json(pairs: &Vec<(String, String)>) -> (j: Json)
    ensures
        j@ == pairs_json(pairs_view(pairs@)),
{
    let mut members: Vec<(String, Json)> = Vec::new();
    let mut i: usize = 0;
    while i < pairs.len()
        invariant
            i <= pairs.len(),
            members@.len() == i,
            forall|k: int|
                0 <= k < i ==> (#[trigger] members@[k]).0@ == pairs@[k].0@ && members@[k].1@
                    == JsonValue::Str(pairs@[k].1@),
        decreases pairs.len() - i,
    {
        members.push((pairs[i].0.clone(), Json::Str(pairs[i].1.clone())));
        i = i + 1;
    }
    let j = object(members);
    assert(j@->Object_0 =~= pairs_json(pairs_view(pairs@))->Object_0);
    j
}

fn strings_to_json(items: &Vec<String>) -> (j: Json)
    ensures
        j@ == strings_json(strings_view(items@)),
{
    let mut out: Vec<Json> = Vec::new();
    let mut i: usize = 0;
    while i < items.len()
        invariant
            i <= items.len(),
            out@.len() == i,
            forall|k: int| 0 <= k < i ==> (#[trigger] out@[k])@ == JsonValue::Str(items@[k]@),
        decreases items.len() - i,
    {
        out.push(Json::Str(items[i].clone()));
        i = i + 1;
    }
    let j = array(out);
    assert(j@->Array_0 =~= strings_json(strings_view(items@))->Array_0);
    j
}

fn query_to_json(query: &Query) -> (j: Json)
    ensures
        j@ == query_json(query_view(query@)),
{
    let mut members: Vec<(String, Json)> = Vec::new();
    let mut i: usize = 0;
    while i < query.len()
        invariant
            i <= query.len(),
            members@.len() == i,
            forall|k: int|
                0 <= k < i ==> (#[trigger] members@[k]).0@ == query@[k].0@ && members@[k].1@
                    == strings_json(strings_view(query@[k].1@)),
        decreases query.len() - i,
    {
        members.push((query[i].0.clone(), strings_to_json(&query[i].1)));
        i = i + 1;
    }
    let j = object(members);
    assert(j@->Object_0 =~= query_json(query_view(query@))->Object_0);
    j
}

fn rules_to_json(rules: &Matchers) -> (j: Json)
    ensures
        j@ == rules_json(rules@),
{
    let mut members: Vec<(String, Json)> = Vec::new();
    let mut i: usize = 0;
    while i < rules.entries.len()
        invariant
            i <= rules.entries.len(),
            members@.len() == i,
            forall|k: int|
                0 <= k < i ==> (#[trigger] members@[k]).0@ == rules.entries@[k].0@
                    && members@[k].1@ == pairs_json(pairs_view(rules.entries@[k].1@)),
        decreases rules.entries.len() - i,
    {
        members.push((rules.entries[i].0.clone(), pairs_to_json(&rules.entries[i].1)));
        i = i + 1;
    }
    let j = object(members);
    assert(j@->Object_0 =~= rules_json(rules@)->Object_0);
    j
}

fn headers_declare_json(headers: &Option<Vec<(String, String)>>) -> (r: bool)
    ensures
        r == declares_json(option_pairs(*headers)),
{
    match headers {
        Some(entries) => {
            let at = find_pair_ignoring_case(entries, "Content-Type");
            if at < entries.len() {
                is_json(media_type(entries[at].1.as_str()).as_str())
            } else {
                false
            }
        },
        None => false,
    }
}

fn body_to_json(headers: &Option<Vec<(String, String)>>, body: &OptionalBody) -> (j: Option<Json>)
    ensures
        option_json(j) == body_json(option_pairs(*headers), body@),
{
    match body {
        OptionalBody::Missing => None,
        OptionalBody::Null => Some(Json::Null),
        OptionalBody::Empty => Some(Json::Str(String::new())),
        OptionalBody::Present(bytes) => {
            if headers_declare_json(headers) {
                match Json::parse(bytes.as_slice()) {
                    Ok(document) => Some(document),
                    Err(_) => Some(Json::Str(lossy_string(bytes.as_slice()))),
                }
            } else {
                Some(Json::Str(lossy_string(bytes.as_slice())))
            }
        },
    }
}

fn add_shared_members(
    members: &mut Vec<(String, Json)>,
    headers: &Option<Vec<(String, String)>>,
    body: &OptionalBody,
    rules: &Matchers,
    generators: &Matchers,
)
    ensures
        members_view(final(members)@) == with_shared_members(
            members_view(old(members)@),
            option_pairs(*headers),
            body@,
            rules@,
            generators@,
        ),
{
    let headers_json = match headers {
        Some(entries) => if entries.len() > 0 {
            Some(pairs_to_json(entries))
        } else {
            None
        },
        None => None,
    };
    add_member(members, "headers", headers_json);
    add_member(members, "body", body_to_json(headers, body));
    let rules_json = if rules.len() > 0 {
        Some(rules_to_json(rules))
    } else {
        None
    };
    add_member(members, "matchingRules", rules_json);
    let generators_json = if generators.len() > 0 {
        Some(rules_to_json(generators))
    } else {
        None
    };
    add_member(members, "generators", generators_json);
}

impl Request {
    /// This request as the JSON of a pact file of revision 2.0.0.
    pub fn to_json(&self) -> (j: Json)
        ensures
            j@ == request_json(self@),
    {
        self.to_json_as(PactSpecification::V2)
    }

    /// This request as the JSON of a pact file of the given revision.
    pub fn to_json_as(&self, revision: PactSpecification) -> (j: Json)
        ensures
            j@ == request_json_as(self@, revision),
    {
        let mut members: Vec<(String, Json)> = Vec::new();
        members.push((String::from_str("method"), Json::Str(self.method.as_str().to_uppercase())));
        members.push((String::from_str("path"), Json::Str(self.path.clone())));
        assert(members_view(members@) =~= seq![
            ("method"@, JsonValue::Str(uppercase(self.method@))),
            ("path"@, JsonValue::Str(self.path@)),
        ]);
        let as_text = revision == PactSpecification::V1 || revision == PactSpecification::V1_1;
        let query_json = match &self.query {
            Some(entries) => if entries.len() > 0 {
                if as_text {
                    Some(Json::Str(build_query_string(entries)))
                } else {
                    Some(query_to_json(entries))
                }
            } else {
                None
            },
            None => None,
        };
        add_member(&mut members, "query", query_json);
        add_shared_members(
            &mut members,
            &self.headers,
            &self.body,
            &self.matching_rules,
            &self.generators,
        );
        object(members)
    }
}

impl Response {
    /// This response as the JSON of a pact file.
    pub fn to_json(&self) -> (j: Json)
        ensures
            j@ == response_json(self@),
    {
        let mut members: Vec<(String, Json)> = Vec::new();
        members.push((String::from_str("status"), Json::Number(decimal_text(self.status as usize))));
        assert(members_view(members@) =~= seq![
            ("status"@, JsonValue::Number(decimal(self.status as nat))),
        ]);
        add_shared_members(
            &mut members,
            &self.headers,
            &self.body,
            &self.matching_rules,
            &self.generators,
        );
        object(members)
    }
}

impl Interaction {
    /// This interaction as the JSON of a pact file of revision 2.0.0.
    pub fn to_json(&self) -> (j: Json)
        ensures
            j@ == interaction_json(self@),
    {
        self.to_json_as(PactSpecification::V2)
    }

    /// This interaction as the JSON of a pact file of the given revision.
    pub fn to_json_as(&self, revision: PactSpecification) -> (j: Json)
        ensures
            j@ == interaction_json_as(self@, revision),
    {
        let mut members: Vec<(String, Json)> = Vec::new();
        members.push((String::from_str("description"), Json::Str(self.description.clone())));
        assert(members_view(members@) =~= seq![
            ("description"@, JsonValue::Str(self.description@)),
        ]);
        let state = match &self.provider_state {
            Some(text) => Some(Json::Str(text.clone())),
            None => None,
        };
        add_member(&mut members, "providerState", state);
        let ghost before = members_view(members@);
        let request = self.request.to_json_as(revision);
        let response = self.response.to_json();
        members.push((String::from_str("request"), request));
        members.push((String::from_str("response"), response));
        assert(members_view(members@) =~= before.push(("request"@, request@)).push(
            ("response"@, response@),
        ));
        object(members)
    }
}

/// The text of a member of an object, or a default where the object has
/// no such member.
pub open spec fn member_text(json: JsonValue, name: Seq<char>, default: Seq<char>) -> Seq<char> {
    match json.member(name) {
        Some(v) => text_of(v),
        None => default,
    }
}

/// The values of a query parameter: the texts of the items of an array,
/// or the text of anything else as the one value.
pub open spec fn values_of_json(json: JsonValue) -> Seq<Seq<char>> {
    match json {
        JsonValue::Array(items) => Seq::new(items.len(), |i: int| text_of(items[i])),
        _ => seq![text_of(json)],
    }
}

/// The query that a JSON value stands for: a string is read as a query
/// string, an object name by name; anything else is no query.
pub open spec fn query_of_json(json: Option<JsonValue>) -> Option<QueryView> {
    match json {
        Some(JsonValue::Str(text)) => parsed_query(text),
        Some(JsonValue::Object(members)) => Some(
            Seq::new(members.len(), |i: int| (members[i].0, values_of_json(members[i].1))),
        ),
        _ => None,
    }
}

/// The table that a JSON object stands for, each value read as a text.
pub open spec fn pairs_of_members(members: Seq<(Seq<char>, JsonValue)>) -> Seq<
    (Seq<char>, Seq<char>),
> {
    Seq::new(members.len(), |i: int| (members[i].0, text_of(members[i].1)))
}

/// The table that a JSON value stands for; only an object is one.
pub open spec fn table_of_json(json: Option<JsonValue>) -> Option<Seq<(Seq<char>, Seq<char>)>> {
    match json {
        Some(JsonValue::Object(members)) => Some(pairs_of_members(members)),
        _ => None,
    }
}

/// The body that a JSON value stands for: none for no value, null for
/// null, an empty one for an empty string, the bytes of a string, and
/// the bytes of the JSON text of anything else.
pub open spec fn body_of_json(json: Option<JsonValue>) -> BodyView {
    match json {
        None => BodyView::Missing,
        Some(JsonValue::Null) => BodyView::Null,
        Some(JsonValue::Str(text)) => if text.len() == 0 {
            BodyView::Empty
        } else {
            BodyView::Present(encode_utf8(text))
        },
        Some(other) => BodyView::Present(encode_utf8(json_text(other))),
    }
}

/// A path expression in its usual form: as it is where it starts with
/// `$`, and behind `$.` where it does not.
pub open spec fn canonical_path(path: Seq<char>) -> Seq<char> {
    if path.len() > 0 && path[0] == '$' {
        path
    } else {
        "$."@ + path
    }
}

/// The rule that a JSON value stands for; only an object is one.
pub open spec fn rule_of_json(json: JsonValue) -> RuleView {
    match json {
        JsonValue::Object(members) => pairs_of_members(members),
        _ => Seq::empty(),
    }
}

/// The matching rules that a JSON value stands for.
pub open spec fn rules_of_json(json: Option<JsonValue>) -> MatchersView {
    match json {
        Some(JsonValue::Object(members)) => Seq::new(
            members.len(),
            |i: int| (canonical_path(members[i].0), rule_of_json(members[i].1)),
        ),
        _ => Seq::empty(),
    }
}

/// The method as a request keeps it: as it is written under revision 3,
/// in capitals under any other.
pub open spec fn kept_method(method: Seq<char>, revision: PactSpecification) -> Seq<char> {
    if revision == PactSpecification::V3 {
        method
    } else {
        uppercase(method)
    }
}

/// The request that a JSON value stands for. What it does not say is as
/// in the default request.
pub open spec fn request_of_json(json: JsonValue, revision: PactSpecification) -> RequestView {
    RequestView {
        method: kept_method(member_text(json, "method"@, "GET"@), revision),
        path: member_text(json, "path"@, "/"@),
        query: query_of_json(json.member("query"@)),
        headers: table_of_json(json.member("headers"@)),
        body: body_of_json(json.member("body"@)),
        matching_rules: rules_of_json(json.member("matchingRules"@)),
        generators: rules_of_json(json.member("generators"@)),
    }
}

/// The status that a JSON value stands for: the number that it writes in
/// decimal where it fits in 16 bits, and 200 for anything else.
pub open spec fn status_of_json(json: Option<JsonValue>) -> u16 {
    match json {
        Some(JsonValue::Number(text)) => match decimal_number(text) {
            Some(n) => if n <= u16::MAX {
                n as u16
            } else {
                200
            },
            None => 200,
        },
        _ => 200,
    }
}

/// The response that a JSON value stands for.
pub open spec fn response_of_json(json: JsonValue) -> ResponseView {
    ResponseView {
        status: status_of_json(json.member("status"@)),
        headers: table_of_json(json.member("headers"@)),
        body: body_of_json(json.member("body"@)),
        matching_rules: rules_of_json(json.member("matchingRules"@)),
        generators: rules_of_json(json.member("generators"@)),
    }
}

/// The provider state that a JSON value stands for; only a string is
/// one.
pub open spec fn state_of_json(json: Option<JsonValue>) -> Option<Seq<char>> {
    match json {
        Some(JsonValue::Str(text)) => Some(text),
        _ => None,
    }
}

/// The interaction that a JSON value stands for. A request or response
/// that it does not hold is the default one.
pub open spec fn interaction_of_json(json: JsonValue, revision: PactSpecification) -> InteractionView {
    InteractionView {
        description: member_text(json, "description"@, ""@),
        provider_state: state_of_json(json.member("providerState"@)),
        request: match json.member("request"@) {
            Some(r) => request_of_json(r, revision),
            None => Request::default_view(),
        },
        response: match json.member("response"@) {
            Some(r) => response_of_json(r),
            None => Response::default_view(),
        },
    }
}

fn text_member(json: &Json, name: &str, default: &str) -> (text: String)
    ensures
        text@ == member_text(json@, name@, default@),
{
    match json.get(name) {
        Some(v) => v.as_text(),
        None => String::from_str(default),
    }
}

fn values_from_json(json: &Json) -> (values: Vec<String>)
    ensures
        strings_view(values@) == values_of_json(json@),
{
    let mut values: Vec<String> = Vec::new();
    match json {
        Json::Array(items) => {
            let mut i: usize = 0;
            while i < items.len()
                invariant
                    *json == Json::Array(*items),
                    i <= items.len(),
                    values@.len() == i,
                    forall|k: int| 0 <= k < i ==> (#[trigger] values@[k])@ == text_of(items@[k]@),
                decreases items.len() - i,
            {
                values.push(items[i].as_text());
                i = i + 1;
            }
            assert(strings_view(values@) =~= values_of_json(json@));
        },
        _ => {
            values.push(json.as_text());
            assert(strings_view(values@) =~= values_of_json(json@));
        },
    }
    values
}

fn query_from_json(json: Option<&Json>) -> (query: Option<Query>)
    ensures
        option_query(query) == query_of_json(option_ref_json(json)),
{
    match json {
        Some(value) => match value {
            Json::Str(text) => parse_query_string(text.as_str()),
            Json::Object(members) => {
                let mut out: Query = Vec::new();
                let mut i: usize = 0;
                while i < members.len()
                    invariant
                        *value == Json::Object(*members),
                        i <= members.len(),
                        out@.len() == i,
                        forall|k: int|
                            0 <= k < i ==> (#[trigger] out@[k]).0@ == members@[k].0@
                                && strings_view(out@[k].1@) == values_of_json(members@[k].1@),
                    decreases members.len() - i,
                {
                    out.push((members[i].0.clone(), values_from_json(&members[i].1)));
                    i = i + 1;
                }
                assert(query_view(out@) =~= query_of_json(Some(value@))->0);
                Some(out)
            },
            _ => None,
        },
        None => None,
    }
}

fn pairs_from_members(members: &Vec<(String, Json)>) -> (pairs: Vec<(String, String)>)
    ensures
        pairs_view(pairs@) == pairs_of_members(Json::Object(*members)@->Object_0),
{
    let mut pairs: Vec<(String, String)> = Vec::new();
    let mut i: usize = 0;
    while i < members.len()
        invariant
            i <= members.len(),
            pairs@.len() == i,
            forall|k: int|
                0 <= k < i ==> (#[trigger] pairs@[k]).0@ == members@[k].0@ && pairs@[k].1@
                    == text_of(members@[k].1@),
        decreases members.len() - i,
    {
        pairs.push((members[i].0.clone(), members[i].1.as_text()));
        i = i + 1;
    }
    assert(pairs_view(pairs@) =~= pairs_of_members(Json::Object(*members)@->Object_0));
    pairs
}

fn table_from_json(json: Option<&Json>) -> (table: Option<Vec<(String, String)>>)
    ensures
        option_pairs(table) == table_of_json(option_ref_json(json)),
{
    match json {
        Some(value) => match value {
            Json::Object(members) => Some(pairs_from_members(members)),
            _ => None,
        },
        None => None,
    }
}

fn body_from_json(json: Option<&Json>) -> (body: OptionalBody)
    ensures
        body@ == body_of_json(option_ref_json(json)),
{
    match json {
        None => OptionalBody::Missing,
        Some(value) => match value {
            Json::Null => OptionalBody::Null,
            Json::Str(text) => {
                if text.as_str().unicode_len() == 0 {
                    OptionalBody::Empty
                } else {
                    OptionalBody::Present(text.as_str().as_bytes_vec())
                }
            },
            _ => OptionalBody::Present(value.to_text().as_str().as_bytes_vec()),
        },
    }
}

fn canonical(path: &str) -> (out: String)
    ensures
        out@ == canonical_path(path@),
{
    let s = chars_of(path);
    if s.len() > 0 && s[0] == '$' {
        String::from_str(path)
    } else {
        let mut out = String::from_str("$.");
        out.append(path);
        out
    }
}

fn rule_from_json(json: &Json) -> (rule: Rule)
    ensures
        pairs_view(rule@) == rule_of_json(json@),
{
    match json {
        Json::Object(members) => pairs_from_members(members),
        _ => {
            let rule: Rule = Vec::new();
            assert(pairs_view(rule@) =~= rule_of_json(json@));
            rule
        },
    }
}

fn rules_from_json(json: Option<&Json>) -> (rules: Matchers)
    ensures
        rules@ == rules_of_json(option_ref_json(json)),
{
    let mut rules = Matchers::new();
    match json {
        Some(value) => match value {
            Json::Object(members) => {
                let mut i: usize = 0;
                while i < members.len()
                    invariant
                        *value == Json::Object(*members),
                        i <= members.len(),
                        rules@.len() == i,
                        forall|k: int|
                            0 <= k < i ==> (#[trigger] rules@[k]).0 == canonical_path(
                                members@[k].0@,
                            ) && rules@[k].1 == rule_of_json(members@[k].1@),
                    decreases members.len() - i,
                {
                    rules.insert(canonical(members[i].0.as_str()), rule_from_json(&members[i].1));
                    i = i + 1;
                }
                assert(rules@ =~= rules_of_json(Some(value@)));
            },
            _ => {},
        },
        None => {},
    }
    rules
}

fn status_from_json(json: Option<&Json>) -> (status: u16)
    ensures
        status == status_of_json(option_ref_json(json)),
{
    match json {
        Some(value) => match value {
            Json::Number(text) => {
                let digits = chars_of(text.as_str());
                match parse_decimal(&digits) {
                    Some(n) => if n <= 65535 {
                        n as u16
                    } else {
                        200
                    },
                    None => 200,
                }
            },
            _ => 200,
        },
        None => 200,
    }
}

impl Request {
    /// Reads a request from the JSON of a pact file of the given
    /// revision.
    pub fn from_json(json: &Json, revision: PactSpecification) -> (request: Request)
        ensures
            request@ == request_of_json(json@, revision),
    {
        let written = text_member(json, "method", "GET");
        let method = if revision == PactSpecification::V3 {
            written
        } else {
            written.as_str().to_uppercase()
        };
        Request {
            method,
            path: text_member(json, "path", "/"),
            query: query_from_json(json.get("query")),
            headers: table_from_json(json.get("headers")),
            body: body_from_json(json.get("body")),
            matching_rules: rules_from_json(json.get("matchingRules")),
            generators: rules_from_json(json.get("generators")),
        }
    }
}

/// Whether reading a request changes the method that is written: under
/// a revision other than 3, where the method is not in capitals.
pub open spec fn method_is_normalized(json: JsonValue, revision: PactSpecification) -> bool {
    kept_method(member_text(json, "method"@, "GET"@), revision) != member_text(
        json,
        "method"@,
        "GET"@,
    )
}

/// Whether reading a request from the JSON of a pact file of the given
/// revision puts its method in capitals.
pub fn normalizes_method(json: &Json, revision: PactSpecification) -> (r: bool)
    ensures
        r == method_is_normalized(json@, revision),
{
    let written = text_member(json, "method", "GET");
    if revision == PactSpecification::V3 {
        false
    } else {
        written.as_str().to_uppercase() != written
    }
}

impl Response {
    /// Reads a response from the JSON of a pact file.
    pub fn from_json(json: &Json) -> (response: Response)
        ensures
            response@ == response_of_json(json@),
    {
        Response {
            status: status_from_json(json.get("status")),
            headers: table_from_json(json.get("headers")),
            body: body_from_json(json.get("body")),
            matching_rules: rules_from_json(json.get("matchingRules")),
            generators: rules_from_json(json.get("generators")),
        }
    }
}

impl Interaction {
    /// Reads an interaction from the JSON of a pact file of the given
    /// revision.
    pub fn from_json(json: &Json, revision: PactSpecification) -> (interaction: Interaction)
        ensures
            interaction@ == interaction_of_json(json@, revision),
    {
        let provider_state = match json.get("providerState") {
            Some(value) => match value {
                Json::Str(text) => Some(text.clone()),
                _ => None,
            },
            None => None,
        };
        let request = match json.get("request") {
            Some(r) => Request::from_json(r, revision),
            None => Request::default(),
        };
        let response = match json.get("response") {
            Some(r) => Response::from_json(r),
            None => Response::default(),
        };
        Interaction {
            description: text_member(json, "description", ""),
            provider_state,
            request,
            response,
        }
    }
}

} // verus!
