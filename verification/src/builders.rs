//! Builders for the requests and responses of a pact.

use crate::json::json_text;
use crate::matching::table_entries;
use crate::models::{
    entries_view, option_query, BodyView, Interaction, MatchersView, OptionalBody, QueryView,
    Request, RequestView, Response, ResponseView,
};
use crate::pact::{Consumer, Pact, PactView, Provider};
use crate::pact_json::PactSpecification;
use crate::path_exp::{key_text, obj_key_for_path};
use crate::patterns::{JsonPattern, Pattern, StringPattern};
use crate::text::{find_pair, key_position, option_pairs, option_text, pairs_view, views};
use vstd::prelude::*;
use vstd::utf8::encode_utf8;

verus! {

/// What a request and a response have in common for a builder: headers,
/// a body and matching rules.
pub struct PartView {
    pub headers: Option<Seq<(Seq<char>, Seq<char>)>>,
    pub body: BodyView,
    pub rules: MatchersView,
}

/// What a builder of a request or of a response holds beside headers,
/// body and matching rules. With those it is the whole message.
pub enum RestView {
    /// Of a request: the method, the path, the query and the generators.
    Request {
        method: Seq<char>,
        path: Seq<char>,
        query: Option<QueryView>,
        generators: MatchersView,
    },
    /// Of a response: the status and the generators.
    Response { status: u16, generators: MatchersView },
}

/// A table with a value for a name: in place of the value that the name
/// had, or at the end where it had none.
pub open spec fn with_entry(
    table: Seq<(Seq<char>, Seq<char>)>,
    name: Seq<char>,
    value: Seq<char>,
) -> Seq<(Seq<char>, Seq<char>)> {
    let at = key_position(table, name, 0);
    if 0 <= at < table.len() {
        table.update(at, (name, value))
    } else {
        table.push((name, value))
    }
}

/// The path of a header in the rules of a message.
pub open spec fn header_path(name: Seq<char>) -> Seq<char> {
    "$.headers"@ + key_text(name)
}

/// Various methods shared between `RequestBuilder` and `ResponseBuilder`.
pub trait HttpPartBuilder: Sized {
    /// The headers, body and rules that have been built so far.
    spec fn part(&self) -> PartView;

    /// The rest of what has been built so far, which the methods of this
    /// trait leave as it is.
    spec fn rest(&self) -> RestView;

    /// Sets a header to a value.
    fn put_header(&mut self, name: String, value: String)
        ensures
            final(self).part() == (PartView {
                headers: Some(with_entry(table_entries(old(self).part().headers), name@, value@)),
                ..old(self).part()
            }),
            final(self).rest() == old(self).rest(),
    ;

    /// Sets the body.
    fn put_body(&mut self, body: OptionalBody)
        ensures
            final(self).part() == (PartView { body: body@, ..old(self).part() }),
            final(self).rest() == old(self).rest(),
    ;

    /// Adds the rules that a pattern asks for at a path.
    fn put_rules<P: Pattern>(&mut self, pattern: &P, path: &str)
        ensures
            final(self).part() == (PartView {
                rules: old(self).part().rules + pattern.rules(path@),
                ..old(self).part()
            }),
            final(self).rest() == old(self).rest(),
    ;

    /// Specify a header pattern.
    fn header(&mut self, name: &str, value: StringPattern) -> (this: &mut Self)
        ensures
            this.part() == (PartView {
                headers: Some(
                    with_entry(table_entries(old(self).part().headers), name@, value.example()),
                ),
                rules: old(self).part().rules + value.rules(header_path(name@)),
                ..old(self).part()
            }),
            this.rest() == old(self).rest(),
            *final(self) == *final(this),
    {
        self.put_header(String::from_str(name), value.to_example());
        let mut path = String::from_str("$.headers");
        path.append(obj_key_for_path(name).as_str());
        self.put_rules(&value, path.as_str());
        self
    }

    /// Set the `Content-Type` header.
    fn content_type(&mut self, content_type: StringPattern) -> (this: &mut Self)
        ensures
            this.part() == (PartView {
                headers: Some(
                    with_entry(
                        table_entries(old(self).part().headers),
                        "Content-Type"@,
                        content_type.example(),
                    ),
                ),
                rules: old(self).part().rules + content_type.rules(header_path("Content-Type"@)),
                ..old(self).part()
            }),
            this.rest() == old(self).rest(),
            *final(self) == *final(this),
    {
        self.header("Content-Type", content_type)
    }

    /// Set the `Content-Type` header to `text/html`.
    fn html(&mut self) -> (this: &mut Self)
        ensures
            this.part() == (PartView {
                headers: Some(
                    with_entry(
                        table_entries(old(self).part().headers),
                        "Content-Type"@,
                        "text/html"@,
                    ),
                ),
                ..old(self).part()
            }),
            this.rest() == old(self).rest(),
            *final(self) == *final(this),
    {
        proof {
            assert(old(self).part().rules + Seq::empty() =~= old(self).part().rules);
        }
        self.content_type(StringPattern::Literal(String::from_str("text/html")))
    }

    /// Set the `Content-Type` header to `application/json`.
    fn json(&mut self) -> (this: &mut Self)
        ensures
            this.part() == (PartView {
                headers: Some(
                    with_entry(
                        table_entries(old(self).part().headers),
                        "Content-Type"@,
                        "application/json"@,
                    ),
                ),
                ..old(self).part()
            }),
            this.rest() == old(self).rest(),
            *final(self) == *final(this),
    {
        proof {
            assert(old(self).part().rules + Seq::empty() =~= old(self).part().rules);
        }
        self.content_type(StringPattern::Literal(String::from_str("application/json")))
    }

    /// Specify a body literal. This does not allow using patterns.
    fn body(&mut self, body: &str) -> (this: &mut Self)
        ensures
            this.part() == (PartView {
                body: BodyView::Present(encode_utf8(body@)),
                ..old(self).part()
            }),
            this.rest() == old(self).rest(),
            *final(self) == *final(this),
    {
        self.put_body(OptionalBody::Present(body.as_bytes_vec()));
        self
    }

    /// Specify the body as `JsonPattern`, possibly including special
    /// matching rules.
    fn json_body(&mut self, body: JsonPattern) -> (this: &mut Self)
        ensures
            this.part() == (PartView {
                body: BodyView::Present(encode_utf8(json_text(body.example()))),
                rules: old(self).part().rules + body.rules("$.body"@),
                ..old(self).part()
            }),
            this.rest() == old(self).rest(),
            *final(self) == *final(this),
    {
        let text = body.to_example().to_text();
        self.put_body(OptionalBody::Present(text.as_str().as_bytes_vec()));
        self.put_rules(&body, "$.body");
        self
    }
}

fn put_entry(table: &mut Option<Vec<(String, String)>>, name: String, value: String)
    ensures
        option_pairs(*final(table)) == Some(
            with_entry(table_entries(option_pairs(*old(table))), name@, value@),
        ),
{
    let mut entries: Vec<(String, String)> = match table.take() {
        Some(e) => e,
        None => Vec::new(),
    };
    let ghost before = pairs_view(entries@);
    assert(before =~= table_entries(option_pairs(*old(table))));
    let at = find_pair(&entries, name.as_str());
    if at < entries.len() {
        entries.set(at, (name, value));
        assert(pairs_view(entries@) =~= before.update(at as int, (name@, value@)));
    } else {
        entries.push((name, value));
        assert(pairs_view(entries@) =~= before.push((name@, value@)));
    }
    *table = Some(entries);
}

/// Builds a request.
#[derive(Debug)]
pub struct RequestBuilder {
    pub request: Request,
}

impl HttpPartBuilder for RequestBuilder {
    open spec fn part(&self) -> PartView {
        PartView {
            headers: option_pairs(self.request.headers),
            body: self.request.body@,
            rules: self.request.matching_rules@,
        }
    }

    open spec fn rest(&self) -> RestView {
        RestView::Request {
            method: self.request.method@,
            path: self.request.path@,
            query: option_query(self.request.query),
            generators: self.request.generators@,
        }
    }

    fn put_header(&mut self, name: String, value: String) {
        put_entry(&mut self.request.headers, name, value);
    }

    fn put_body(&mut self, body: OptionalBody) {
        self.request.body = body;
    }

    fn put_rules<P: Pattern>(&mut self, pattern: &P, path: &str) {
        pattern.extract_matching_rules(path, &mut self.request.matching_rules);
    }
}

impl RequestBuilder {
    /// A builder that starts from a `GET` of `/`.
    pub fn default() -> (builder: RequestBuilder)
        ensures
            builder.request@ == Request::default_view(),
    {
        RequestBuilder { request: Request::default() }
    }

    /// Sets the method.
    pub fn method(&mut self, method: &str) -> (this: &mut Self)
        ensures
            this.request@ == (RequestView { method: method@, ..old(self).request@ }),
            *final(self) == *final(this),
    {
        self.request.method = String::from_str(method);
        self
    }

    /// Sets the path, and adds the rules that its pattern asks for at
    /// `$.path`.
    pub fn path(&mut self, path: StringPattern) -> (this: &mut Self)
        ensures
            this.request@ == (RequestView {
                path: path.example(),
                matching_rules: old(self).request@.matching_rules + path.rules("$.path"@),
                ..old(self).request@
            }),
            *final(self) == *final(this),
    {
        self.request.path = path.to_example();
        path.extract_matching_rules("$.path", &mut self.request.matching_rules);
        self
    }

    /// The request that has been built.
    pub fn build(&self) -> (request: Request)
        ensures
            request@ == self.request@,
    {
        self.request.clone()
    }
}

/// Builds a response.
#[derive(Debug)]
pub struct ResponseBuilder {
    pub response: Response,
}

impl HttpPartBuilder for ResponseBuilder {
    open spec fn part(&self) -> PartView {
        PartView {
            headers: option_pairs(self.response.headers),
            body: self.response.body@,
            rules: self.response.matching_rules@,
        }
    }

    open spec fn rest(&self) -> RestView {
        RestView::Response { status: self.response.status, generators: self.response.generators@ }
    }

    fn put_header(&mut self, name: String, value: String) {
        put_entry(&mut self.response.headers, name, value);
    }

    fn put_body(&mut self, body: OptionalBody) {
        self.response.body = body;
    }

    fn put_rules<P: Pattern>(&mut self, pattern: &P, path: &str) {
        pattern.extract_matching_rules(path, &mut self.response.matching_rules);
    }
}

impl ResponseBuilder {
    /// A builder that starts from status 200.
    pub fn default() -> (builder: ResponseBuilder)
        ensures
            builder.response@ == Response::default_view(),
    {
        ResponseBuilder { response: Response::default() }
    }

    /// Sets the status code.
    pub fn status(&mut self, status: u16) -> (this: &mut Self)
        ensures
            this.response@ == (ResponseView { status, ..old(self).response@ }),
            *final(self) == *final(this),
    {
        self.response.status = status;
        self
    }

    /// The response that has been built.
    pub fn build(&self) -> (response: Response)
        ensures
            response@ == self.response@,
    {
        self.response.clone()
    }
}

/// Builds an interaction.
#[derive(Debug)]
pub struct InteractionBuilder {
    pub description: String,
    pub provider_state: Option<String>,
    pub request: RequestBuilder,
    pub response: ResponseBuilder,
}

impl InteractionBuilder {
    /// A builder for the interaction that `description` describes, with
    /// the default request and response.
    pub fn new(description: &str) -> (builder: InteractionBuilder)
        ensures
            builder.description@ == description@,
            builder.provider_state is None,
            builder.request.request@ == Request::default_view(),
            builder.response.response@ == Response::default_view(),
    {
        InteractionBuilder {
            description: String::from_str(description),
            provider_state: None,
            request: RequestBuilder::default(),
            response: ResponseBuilder::default(),
        }
    }

    /// Names the state that the provider must be in.
    pub fn given(&mut self, provider_state: &str)
        ensures
            final(self).provider_state matches Some(state) && state@ == provider_state@,
            final(self).description == old(self).description,
            final(self).request == old(self).request,
            final(self).response == old(self).response,
    {
        self.provider_state = Some(String::from_str(provider_state));
    }

    /// The interaction that has been built.
    pub fn build(&self) -> (interaction: Interaction)
        ensures
            interaction@.description == self.description@,
            interaction@.provider_state == option_text(self.provider_state),
            interaction@.request == self.request.request@,
            interaction@.response == self.response.response@,
    {
        Interaction {
            description: self.description.clone(),
            provider_state: match &self.provider_state {
                Some(state) => Some(state.clone()),
                None => None,
            },
            request: self.request.build(),
            response: self.response.build(),
        }
    }
}

/// Builds a pact.
#[derive(Debug)]
pub struct PactBuilder {
    pub pact: Pact,
}

impl PactBuilder {
    /// A builder for the pact between a consumer and a provider, without
    /// interactions so far.
    pub fn new(consumer: &str, provider: &str) -> (builder: PactBuilder)
        ensures
            builder.pact@ == (PactView {
                consumer: consumer@,
                provider: provider@,
                interactions: Seq::empty(),
                metadata: Seq::empty(),
                specification_version: PactSpecification::V2,
            }),
    {
        let pact = Pact {
            consumer: Consumer { name: String::from_str(consumer) },
            provider: Provider { name: String::from_str(provider) },
            interactions: Vec::new(),
            metadata: Vec::new(),
            specification_version: PactSpecification::V2,
        };
        assert(views(pact.interactions@) =~= Seq::empty());
        assert(entries_view(pact.metadata@) =~= Seq::empty());
        PactBuilder { pact }
    }

    /// Adds an interaction at the end of the pact.
    pub fn interaction(&mut self, interaction: Interaction) -> (this: &mut Self)
        ensures
            this.pact@ == (PactView {
                interactions: old(self).pact@.interactions.push(interaction@),
                ..old(self).pact@
            }),
            *final(self) == *final(this),
    {
        self.pact.interactions.push(interaction);
        assert(views(self.pact.interactions@) =~= views(old(self).pact.interactions@).push(
            interaction@,
        ));
        self
    }

    /// The pact that has been built.
    pub fn build(&self) -> (pact: Pact)
        ensures
            pact@ == self.pact@,
    {
        self.pact.clone()
    }
}

} // verus!
