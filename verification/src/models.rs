//! The data of a pact: bodies, requests, responses, interactions and the
//! document that holds them.

use crate::text::{
    chars_of, clone_option_pairs, clone_pairs, clone_strings, key_position, option_pairs,
    option_text, pairs_view, strings_view, views,
};
use vstd::prelude::*;

verus! {

/// The body of an HTTP message as a pact records it.
#[derive(Debug, PartialEq, Eq)]
pub enum OptionalBody {
    /// The field is absent.
    Missing,
    /// The field is present and holds nothing.
    Empty,
    /// The field is an explicit JSON null.
    Null,
    /// The field holds these bytes.
    Present(Vec<u8>),
}

/// The mathematical value of an `OptionalBody`.
pub enum BodyView {
    Missing,
    Empty,
    Null,
    Present(Seq<u8>),
}

impl View for OptionalBody {
    type V = BodyView;

    open spec fn view(&self) -> BodyView {
        match self {
            OptionalBody::Missing => BodyView::Missing,
            OptionalBody::Empty => BodyView::Empty,
            OptionalBody::Null => BodyView::Null,
            OptionalBody::Present(bytes) => BodyView::Present(bytes@),
        }
    }
}

impl Clone for OptionalBody {
    fn clone(&self) -> (copy: OptionalBody)
        ensures
            copy@ == self@,
    {
        match self {
            OptionalBody::Missing => OptionalBody::Missing,
            OptionalBody::Empty => OptionalBody::Empty,
            OptionalBody::Null => OptionalBody::Null,
            OptionalBody::Present(bytes) => OptionalBody::Present(bytes.clone()),
        }
    }
}

/// The attributes of a matching rule: names such as `match`, `regex`,
/// `min` and `max`, each with its value.
pub type Rule = Vec<(String, String)>;

/// The mathematical value of a rule.
pub type RuleView = Seq<(Seq<char>, Seq<char>)>;

/// The matching rules of a request or response: path expressions, each
/// with its rule, in the order in which they were added. Where a path
/// stands twice, the later entry counts.
#[derive(Debug)]
pub struct Matchers {
    pub entries: Vec<(String, Rule)>,
}

/// The mathematical value of a set of matching rules.
pub type MatchersView = Seq<(Seq<char>, RuleView)>;

/// Generators: path expressions, each with the attributes of the
/// generator for the place that it names.
pub type Generators = Matchers;

/// The views of the entries of a set of matching rules.
pub open spec fn entries_view(entries: Seq<(String, Rule)>) -> MatchersView {
    Seq::new(entries.len(), |i: int| (entries[i].0@, pairs_view(entries[i].1@)))
}

impl View for Matchers {
    type V = MatchersView;

    open spec fn view(&self) -> MatchersView {
        entries_view(self.entries@)
    }
}

/// The last position before `to` whose entry has the path `path`, or -1.
pub open spec fn last_entry(rules: MatchersView, path: Seq<char>, to: int) -> int
    decreases to,
{
    if to <= 0 || to > rules.len() {
        -1
    } else if rules[to - 1].0 == path {
        to - 1
    } else {
        last_entry(rules, path, to - 1)
    }
}

/// The rule that a path expression has: that of its latest entry.
pub open spec fn rule_for(rules: MatchersView, path: Seq<char>) -> Option<RuleView> {
    let at = last_entry(rules, path, rules.len() as int);
    if 0 <= at < rules.len() {
        Some(rules[at].1)
    } else {
        None
    }
}

/// The last position before `to` whose attribute is named `name`, or -1.
pub open spec fn last_attribute(rule: RuleView, name: Seq<char>, to: int) -> int
    decreases to,
{
    if to <= 0 || to > rule.len() {
        -1
    } else if rule[to - 1].0 == name {
        to - 1
    } else {
        last_attribute(rule, name, to - 1)
    }
}

/// The value that a rule gives an attribute: that of its latest mention.
pub open spec fn attribute(rule: RuleView, name: Seq<char>) -> Option<Seq<char>> {
    let at = last_attribute(rule, name, rule.len() as int);
    if 0 <= at < rule.len() {
        Some(rule[at].1)
    } else {
        None
    }
}

/// The value that a rule gives an attribute, if it names it.
pub fn rule_attribute<'a>(rule: &'a Rule, name: &str) -> (value: Option<&'a String>)
    ensures
        option_ref_text(value) == attribute(pairs_view(rule@), name@),
{
    let mut i: usize = rule.len();
    while i > 0
        invariant
            i <= rule.len(),
            last_attribute(pairs_view(rule@), name@, rule.len() as int) == last_attribute(
                pairs_view(rule@),
                name@,
                i as int,
            ),
        decreases i,
    {
        i = i - 1;
        if rule[i].0.as_str().eq(name) {
            return Some(&rule[i].1);
        }
    }
    None
}

/// The characters of a borrowed string that may be absent.
pub open spec fn option_ref_text(o: Option<&String>) -> Option<Seq<char>> {
    match o {
        Some(s) => Some(s@),
        None => None,
    }
}

impl Clone for Matchers {
    fn clone(&self) -> (copy: Matchers)
        ensures
            copy@ == self@,
    {
        let mut entries: Vec<(String, Rule)> = Vec::new();
        let mut i: usize = 0;
        while i < self.entries.len()
            invariant
                i <= self.entries.len(),
                entries@.len() == i,
                forall|k: int|
                    0 <= k < i ==> (#[trigger] entries@[k]).0@ == self.entries@[k].0@
                        && pairs_view(entries@[k].1@) == pairs_view(self.entries@[k].1@),
            decreases self.entries.len() - i,
        {
            entries.push((self.entries[i].0.clone(), clone_pairs(&self.entries[i].1)));
            i = i + 1;
        }
        let copy = Matchers { entries };
        assert(copy@ =~= self@);
        copy
    }
}

impl Matchers {
    /// No rules.
    pub fn new() -> (rules: Matchers)
        ensures
            rules@ == MatchersView::empty(),
    {
        let rules = Matchers { entries: Vec::new() };
        assert(rules@ =~= MatchersView::empty());
        rules
    }

    /// Adds a rule for a path expression. It counts from now on for that
    /// path, whatever was there before.
    pub fn insert(&mut self, path: String, rule: Rule)
        ensures
            final(self)@ == old(self)@.push((path@, pairs_view(rule@))),
    {
        self.entries.push((path, rule));
        assert(self@ =~= old(self)@.push((path@, pairs_view(rule@))));
    }

    /// The rule that counts for a path expression, if there is one.
    pub fn get(&self, path: &str) -> (rule: Option<&Rule>)
        ensures
            rule matches Some(r) ==> rule_for(self@, path@) == Some(pairs_view(r@)),
            rule is None ==> rule_for(self@, path@) is None,
    {
        let mut i: usize = self.entries.len();
        while i > 0
            invariant
                i <= self.entries.len(),
                last_entry(self@, path@, self.entries.len() as int) == last_entry(
                    self@,
                    path@,
                    i as int,
                ),
            decreases i,
        {
            i = i - 1;
            if self.entries[i].0.as_str().eq(path) {
                return Some(&self.entries[i].1);
            }
        }
        None
    }

    /// The number of entries.
    pub fn len(&self) -> (n: usize)
        ensures
            n == self@.len(),
    {
        self.entries.len()
    }

    /// Whether there is no entry.
    pub fn is_empty(&self) -> (r: bool)
        ensures
            r == (self@.len() == 0),
    {
        self.entries.len() == 0
    }
}

/// The query of a request: names, each with its values in order.
pub type Query = Vec<(String, Vec<String>)>;

/// The mathematical value of a query.
pub type QueryView = Seq<(Seq<char>, Seq<Seq<char>>)>;

/// The views of the entries of a query.
pub open spec fn query_view(query: Seq<(String, Vec<String>)>) -> QueryView {
    Seq::new(query.len(), |i: int| (query[i].0@, strings_view(query[i].1@)))
}

/// The view of a query that may be absent.
pub open spec fn option_query(o: Option<Query>) -> Option<QueryView> {
    match o {
        Some(q) => Some(query_view(q@)),
        None => None,
    }
}

/// The position of the first parameter of a query whose name is `key`,
/// or the number of parameters.
pub fn find_param(query: &Query, key: &str) -> (at: usize)
    ensures
        at == key_position(query_view(query@), key@, 0),
        at <= query.len(),
{
    let mut i: usize = 0;
    while i < query.len()
        invariant
            i <= query.len(),
            key_position(query_view(query@), key@, 0) == key_position(
                query_view(query@),
                key@,
                i as int,
            ),
        decreases query.len() - i,
    {
        if query[i].0.as_str().eq(key) {
            return i;
        }
        i = i + 1;
    }
    i
}

/// A copy of a query.
pub fn clone_query(query: &Query) -> (copy: Query)
    ensures
        query_view(copy@) == query_view(query@),
{
    let mut copy: Query = Vec::new();
    let mut i: usize = 0;
    while i < query.len()
        invariant
            i <= query.len(),
            copy@.len() == i,
            forall|k: int|
                0 <= k < i ==> (#[trigger] copy@[k]).0@ == query@[k].0@ && strings_view(
                    copy@[k].1@,
                ) == strings_view(query@[k].1@),
        decreases query.len() - i,
    {
        copy.push((query[i].0.clone(), clone_strings(&query[i].1)));
        i = i + 1;
    }
    assert(query_view(copy@) =~= query_view(query@));
    copy
}

/// A copy of a query that may be absent.
pub fn clone_option_query(query: &Option<Query>) -> (copy: Option<Query>)
    ensures
        option_query(copy) == option_query(*query),
{
    match query {
        Some(q) => Some(clone_query(q)),
        None => None,
    }
}

/// An HTTP request as a pact records it.
#[derive(Debug)]
pub struct Request {
    /// The method, in capitals.
    pub method: String,
    /// The path, which starts with a slash and holds no query.
    pub path: String,
    /// The query, if there is one.
    pub query: Option<Query>,
    /// The headers, if there are any.
    pub headers: Option<Vec<(String, String)>>,
    /// The body.
    pub body: OptionalBody,
    /// The rules by which an actual request is held against this one.
    pub matching_rules: Matchers,
    /// The generators, which say how parts of the request are made anew
    /// when the pact is played back. They are kept as they are.
    pub generators: Generators,
}

/// The mathematical value of a `Request`.
pub struct RequestView {
    pub method: Seq<char>,
    pub path: Seq<char>,
    pub query: Option<QueryView>,
    pub headers: Option<Seq<(Seq<char>, Seq<char>)>>,
    pub body: BodyView,
    pub matching_rules: MatchersView,
    pub generators: MatchersView,
}

impl View for Request {
    type V = RequestView;

    open spec fn view(&self) -> RequestView {
        RequestView {
            method: self.method@,
            path: self.path@,
            query: option_query(self.query),
            headers: option_pairs(self.headers),
            body: self.body@,
            matching_rules: self.matching_rules@,
            generators: self.generators@,
        }
    }
}

impl Clone for Request {
    fn clone(&self) -> (copy: Request)
        ensures
            copy@ == self@,
    {
        Request {
            method: self.method.clone(),
            path: self.path.clone(),
            query: clone_option_query(&self.query),
            headers: clone_option_pairs(&self.headers),
            body: self.body.clone(),
            matching_rules: self.matching_rules.clone(),
            generators: self.generators.clone(),
        }
    }
}

impl Request {
    /// A `GET` of `/` with no query, headers, body or rules.
    pub fn default() -> (request: Request)
        ensures
            request@ == Request::default_view(),
    {
        Request {
            method: String::from_str("GET"),
            path: String::from_str("/"),
            query: None,
            headers: None,
            body: OptionalBody::Missing,
            matching_rules: Matchers::new(),
            generators: Matchers::new(),
        }
    }
}

/// An HTTP response as a pact records it.
#[derive(Debug)]
pub struct Response {
    /// The status code.
    pub status: u16,
    /// The headers, if there are any.
    pub headers: Option<Vec<(String, String)>>,
    /// The body.
    pub body: OptionalBody,
    /// The rules by which an actual response is held against this one.
    pub matching_rules: Matchers,
    /// The generators, which say how parts of the response are made anew
    /// when the pact is played back. They are kept as they are.
    pub generators: Generators,
}

/// The mathematical value of a `Response`.
pub struct ResponseView {
    pub status: u16,
    pub headers: Option<Seq<(Seq<char>, Seq<char>)>>,
    pub body: BodyView,
    pub matching_rules: MatchersView,
    pub generators: MatchersView,
}

impl View for Response {
    type V = ResponseView;

    open spec fn view(&self) -> ResponseView {
        ResponseView {
            status: self.status,
            headers: option_pairs(self.headers),
            body: self.body@,
            matching_rules: self.matching_rules@,
            generators: self.generators@,
        }
    }
}

impl Clone for Response {
    fn clone(&self) -> (copy: Response)
        ensures
            copy@ == self@,
    {
        Response {
            status: self.status,
            headers: clone_option_pairs(&self.headers),
            body: self.body.clone(),
            matching_rules: self.matching_rules.clone(),
            generators: self.generators.clone(),
        }
    }
}

impl Response {
    /// A response with status 200 and no headers, body or rules.
    pub fn default() -> (response: Response)
        ensures
            response@ == Response::default_view(),
    {
        Response {
            status: 200,
            headers: None,
            body: OptionalBody::Missing,
            matching_rules: Matchers::new(),
            generators: Matchers::new(),
        }
    }
}

/// One expected exchange: a request and the response that answers it.
#[derive(Debug)]
pub struct Interaction {
    /// What the exchange is about.
    pub description: String,
    /// The state that the provider must be in, if any.
    pub provider_state: Option<String>,
    /// The request.
    pub request: Request,
    /// The response.
    pub response: Response,
}

/// The mathematical value of an `Interaction`.
pub struct InteractionView {
    pub description: Seq<char>,
    pub provider_state: Option<Seq<char>>,
    pub request: RequestView,
    pub response: ResponseView,
}

impl View for Interaction {
    type V = InteractionView;

    open spec fn view(&self) -> InteractionView {
        InteractionView {
            description: self.description@,
            provider_state: option_text(self.provider_state),
            request: self.request@,
            response: self.response@,
        }
    }
}

impl Clone for Interaction {
    fn clone(&self) -> (copy: Interaction)
        ensures
            copy@ == self@,
    {
        Interaction {
            description: self.description.clone(),
            provider_state: match &self.provider_state {
                Some(s) => Some(s.clone()),
                None => None,
            },
            request: self.request.clone(),
            response: self.response.clone(),
        }
    }
}

impl Interaction {
    /// An interaction without description or provider state, with the
    /// default request and response.
    pub fn default() -> (interaction: Interaction)
        ensures
            interaction.description@ == Seq::<char>::empty(),
            interaction.provider_state is None,
            interaction.request@ == Request::default_view(),
            interaction.response@ == Response::default_view(),
    {
        Interaction {
            description: String::new(),
            provider_state: None,
            request: Request::default(),
            response: Response::default(),
        }
    }
}

impl Request {
    /// The value of `Request::default()`.
    pub open spec fn default_view() -> RequestView {
        RequestView {
            method: "GET"@,
            path: "/"@,
            query: None,
            headers: None,
            body: BodyView::Missing,
            matching_rules: MatchersView::empty(),
            generators: MatchersView::empty(),
        }
    }
}

impl Response {
    /// The value of `Response::default()`.
    pub open spec fn default_view() -> ResponseView {
        ResponseView {
            status: 200,
            headers: None,
            body: BodyView::Missing,
            matching_rules: MatchersView::empty(),
            generators: MatchersView::empty(),
        }
    }
}

/// A copy of a list of interactions.
pub fn clone_interactions(items: &Vec<Interaction>) -> (copy: Vec<Interaction>)
    ensures
        views(copy@) == views(items@),
{
    let mut copy: Vec<Interaction> = Vec::new();
    let mut i: usize = 0;
    while i < items.len()
        invariant
            i <= items.len(),
            copy@.len() == i,
            forall|k: int| 0 <= k < i ==> (#[trigger] copy@[k])@ == items@[k]@,
        decreases items.len() - i,
    {
        copy.push(items[i].clone());
        i = i + 1;
    }
    assert(views(copy@) =~= views(items@));
    copy
}

/// Whether two tables hold the same entries in the same order.
pub fn same_pairs(a: &Vec<(String, String)>, b: &Vec<(String, String)>) -> (r: bool)
    ensures
        r == (pairs_view(a@) == pairs_view(b@)),
{
    if a.len() != b.len() {
        proof {
            if pairs_view(a@) == pairs_view(b@) {
                assert(pairs_view(a@).len() == pairs_view(b@).len());
            }
        }
        return false;
    }
    let mut i: usize = 0;
    while i < a.len()
        invariant
            i <= a.len(),
            a.len() == b.len(),
            forall|k: int| 0 <= k < i ==> a@[k].0@ == b@[k].0@ && a@[k].1@ == b@[k].1@,
        decreases a.len() - i,
    {
        if a[i].0 != b[i].0 || a[i].1 != b[i].1 {
            proof {
                if pairs_view(a@) == pairs_view(b@) {
                    assert(pairs_view(a@)[i as int] == pairs_view(b@)[i as int]);
                }
            }
            return false;
        }
        i = i + 1;
    }
    assert(pairs_view(a@) =~= pairs_view(b@));
    true
}

/// Whether two tables that may be absent are the same.
pub fn same_option_pairs(a: &Option<Vec<(String, String)>>, b: &Option<Vec<(String, String)>>) -> (r:
    bool)
    ensures
        r == (option_pairs(*a) == option_pairs(*b)),
{
    match a {
        Some(x) => match b {
            Some(y) => same_pairs(x, y),
            None => false,
        },
        None => match b {
            Some(_) => false,
            None => true,
        },
    }
}

/// Whether two lists of strings are the same.
pub fn same_strings(a: &Vec<String>, b: &Vec<String>) -> (r: bool)
    ensures
        r == (strings_view(a@) == strings_view(b@)),
{
    if a.len() != b.len() {
        proof {
            if strings_view(a@) == strings_view(b@) {
                assert(strings_view(a@).len() == strings_view(b@).len());
            }
        }
        return false;
    }
    let mut i: usize = 0;
    while i < a.len()
        invariant
            i <= a.len(),
            a.len() == b.len(),
            forall|k: int| 0 <= k < i ==> a@[k]@ == b@[k]@,
        decreases a.len() - i,
    {
        if a[i] != b[i] {
            proof {
                if strings_view(a@) == strings_view(b@) {
                    assert(strings_view(a@)[i as int] == strings_view(b@)[i as int]);
                }
            }
            return false;
        }
        i = i + 1;
    }
    assert(strings_view(a@) =~= strings_view(b@));
    true
}

/// Whether two queries hold the same parameters in the same order.
pub fn same_params(x: &Query, y: &Query) -> (r: bool)
    ensures
        r == (query_view(x@) == query_view(y@)),
{
    if x.len() != y.len() {
        proof {
            if query_view(x@) == query_view(y@) {
                assert(query_view(x@).len() == query_view(y@).len());
            }
        }
        return false;
    }
    let mut i: usize = 0;
    while i < x.len()
        invariant
            i <= x.len(),
            x.len() == y.len(),
            forall|k: int|
                0 <= k < i ==> x@[k].0@ == y@[k].0@ && strings_view(x@[k].1@) == strings_view(
                    y@[k].1@,
                ),
        decreases x.len() - i,
    {
        if x[i].0 != y[i].0 || !same_strings(&x[i].1, &y[i].1) {
            proof {
                if query_view(x@) == query_view(y@) {
                    assert(query_view(x@)[i as int] == query_view(y@)[i as int]);
                }
            }
            return false;
        }
        i = i + 1;
    }
    assert(query_view(x@) =~= query_view(y@));
    true
}

/// Whether two queries that may be absent are the same.
pub fn same_query(a: &Option<Query>, b: &Option<Query>) -> (r: bool)
    ensures
        r == (option_query(*a) == option_query(*b)),
{
    match a {
        Some(x) => match b {
            Some(y) => same_params(x, y),
            None => false,
        },
        None => match b {
            Some(_) => false,
            None => true,
        },
    }
}

/// Whether two lists of bytes are the same.
pub fn same_bytes(x: &Vec<u8>, y: &Vec<u8>) -> (r: bool)
    ensures
        r == (x@ == y@),
{
    if x.len() != y.len() {
        return false;
    }
    let mut i: usize = 0;
    while i < x.len()
        invariant
            i <= x.len(),
            x.len() == y.len(),
            forall|k: int| 0 <= k < i ==> x@[k] == y@[k],
        decreases x.len() - i,
    {
        if x[i] != y[i] {
            return false;
        }
        i = i + 1;
    }
    assert(x@ =~= y@);
    true
}

/// Whether two bodies are the same.
pub fn same_body(a: &OptionalBody, b: &OptionalBody) -> (r: bool)
    ensures
        r == (a@ == b@),
{
    match a {
        OptionalBody::Missing => match b {
            OptionalBody::Missing => true,
            _ => false,
        },
        OptionalBody::Empty => match b {
            OptionalBody::Empty => true,
            _ => false,
        },
        OptionalBody::Null => match b {
            OptionalBody::Null => true,
            _ => false,
        },
        OptionalBody::Present(x) => match b {
            OptionalBody::Present(y) => same_bytes(x, y),
            _ => false,
        },
    }
}

/// Whether two sets of matching rules hold the same entries in the same
/// order.
pub fn same_rules(a: &Matchers, b: &Matchers) -> (r: bool)
    ensures
        r == (a@ == b@),
{
    if a.entries.len() != b.entries.len() {
        proof {
            if a@ == b@ {
                assert(a@.len() == b@.len());
            }
        }
        return false;
    }
    let mut i: usize = 0;
    while i < a.entries.len()
        invariant
            i <= a.entries.len(),
            a.entries.len() == b.entries.len(),
            forall|k: int|
                0 <= k < i ==> a.entries@[k].0@ == b.entries@[k].0@ && pairs_view(
                    a.entries@[k].1@,
                ) == pairs_view(b.entries@[k].1@),
        decreases a.entries.len() - i,
    {
        if a.entries[i].0 != b.entries[i].0 || !same_pairs(&a.entries[i].1, &b.entries[i].1) {
            proof {
                if a@ == b@ {
                    assert(a@[i as int] == b@[i as int]);
                }
            }
            return false;
        }
        i = i + 1;
    }
    assert(a@ =~= b@);
    true
}

fn same_option_text(a: &Option<String>, b: &Option<String>) -> (r: bool)
    ensures
        r == (option_text(*a) == option_text(*b)),
{
    match a {
        Some(x) => match b {
            Some(y) => *x == *y,
            None => false,
        },
        None => match b {
            Some(_) => false,
            None => true,
        },
    }
}

impl Request {
    /// Whether this request is the same as another.
    pub fn same(&self, other: &Request) -> (r: bool)
        ensures
            r == (self@ == other@),
    {
        self.method == other.method && self.path == other.path && same_query(
            &self.query,
            &other.query,
        ) && same_option_pairs(&self.headers, &other.headers) && same_body(&self.body, &other.body)
            && same_rules(&self.matching_rules, &other.matching_rules) && same_rules(
            &self.generators,
            &other.generators,
        )
    }
}

impl Response {
    /// Whether this response is the same as another.
    pub fn same(&self, other: &Response) -> (r: bool)
        ensures
            r == (self@ == other@),
    {
        self.status == other.status && same_option_pairs(&self.headers, &other.headers)
            && same_body(&self.body, &other.body) && same_rules(
            &self.matching_rules,
            &other.matching_rules,
        ) && same_rules(&self.generators, &other.generators)
    }
}

impl Interaction {
    /// Whether this interaction is the same as another.
    pub fn same(&self, other: &Interaction) -> (r: bool)
        ensures
            r == (self@ == other@),
    {
        self.description == other.description && same_option_text(
            &self.provider_state,
            &other.provider_state,
        ) && self.request.same(&other.request) && self.response.same(&other.response)
    }
}

/// Whether a request is as a pact keeps requests: the path starts with a
/// slash and holds no question mark.
pub open spec fn well_formed_request(request: RequestView) -> bool {
    &&& request.path.len() > 0
    &&& request.path[0] == '/'
    &&& forall|i: int| 0 <= i < request.path.len() ==> #[trigger] request.path[i] != '?'
}

/// Whether a response is as a pact keeps responses: the status lies
/// between 100 and 599.
pub open spec fn well_formed_response(response: ResponseView) -> bool {
    100 <= response.status <= 599
}

/// Whether the request and the response of an interaction are well
/// formed.
pub open spec fn well_formed_interaction(interaction: InteractionView) -> bool {
    well_formed_request(interaction.request) && well_formed_response(interaction.response)
}

impl Request {
    /// Whether the path of this request starts with a slash and holds no
    /// query.
    pub fn is_well_formed(&self) -> (r: bool)
        ensures
            r == well_formed_request(self@),
    {
        let path = chars_of(self.path.as_str());
        if path.len() == 0 || path[0] != '/' {
            return false;
        }
        let mut i: usize = 0;
        while i < path.len()
            invariant
                i <= path.len(),
                path@ == self.path@,
                forall|k: int| 0 <= k < i ==> #[trigger] path@[k] != '?',
            decreases path.len() - i,
        {
            if path[i] == '?' {
                return false;
            }
            i = i + 1;
        }
        true
    }
}

impl Response {
    /// Whether the status of this response lies between 100 and 599.
    pub fn is_well_formed(&self) -> (r: bool)
        ensures
            r == well_formed_response(self@),
    {
        100 <= self.status && self.status <= 599
    }
}

impl Interaction {
    /// Whether the request and the response of this interaction are well
    /// formed.
    pub fn is_well_formed(&self) -> (r: bool)
        ensures
            r == well_formed_interaction(self@),
    {
        self.request.is_well_formed() && self.response.is_well_formed()
    }
}

} // verus!
