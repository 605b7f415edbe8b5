//! The client side of a pact broker: reading the links of a HAL document,
//! working out what to fetch next, and judging what came back.

use crate::content_type::{is_json_resource, is_json_resource_media, media_type, media_type_of};
use crate::json::{json_parse_result, json_text, option_json, text_of, Json, JsonValue};
use crate::models::OptionalBody;
use crate::template::{expand_template, expanded};
use crate::text::{
    chars_of, concat5, concat7, concat9, debug_quoted, debug_text, join, joined, lowercase,
    option_text, pairs_view, result_view, string_of, strings_view, views,
};
use vstd::prelude::*;
use vstd::std_specs::cmp::PartialEqSpecImpl;

verus! {

/// What can go wrong while talking to a pact broker. Each variant carries
/// the message for the user.
#[derive(Debug)]
pub enum PactBrokerError {
    /// A link is missing, malformed or cannot be followed.
    LinkError(String),
    /// The broker answered with something that is no HAL document.
    ContentError(String),
    /// The request failed.
    IoError(String),
    /// The broker has no such resource.
    NotFound(String),
    /// A URL could not be read.
    UrlError(String),
}

/// The mathematical value of a `PactBrokerError`.
pub enum BrokerErrorView {
    LinkError(Seq<char>),
    ContentError(Seq<char>),
    IoError(Seq<char>),
    NotFound(Seq<char>),
    UrlError(Seq<char>),
}

impl BrokerErrorView {
    /// The message that the error carries.
    pub open spec fn message(self) -> Seq<char> {
        match self {
            BrokerErrorView::LinkError(m) => m,
            BrokerErrorView::ContentError(m) => m,
            BrokerErrorView::IoError(m) => m,
            BrokerErrorView::NotFound(m) => m,
            BrokerErrorView::UrlError(m) => m,
        }
    }
}

impl View for PactBrokerError {
    type V = BrokerErrorView;

    open spec fn view(&self) -> BrokerErrorView {
        match self {
            PactBrokerError::LinkError(m) => BrokerErrorView::LinkError(m@),
            PactBrokerError::ContentError(m) => BrokerErrorView::ContentError(m@),
            PactBrokerError::IoError(m) => BrokerErrorView::IoError(m@),
            PactBrokerError::NotFound(m) => BrokerErrorView::NotFound(m@),
            PactBrokerError::UrlError(m) => BrokerErrorView::UrlError(m@),
        }
    }
}

impl Clone for PactBrokerError {
    fn clone(&self) -> (copy: PactBrokerError)
        ensures
            copy@ == self@,
    {
        match self {
            PactBrokerError::LinkError(m) => PactBrokerError::LinkError(m.clone()),
            PactBrokerError::ContentError(m) => PactBrokerError::ContentError(m.clone()),
            PactBrokerError::IoError(m) => PactBrokerError::IoError(m.clone()),
            PactBrokerError::NotFound(m) => PactBrokerError::NotFound(m.clone()),
            PactBrokerError::UrlError(m) => PactBrokerError::UrlError(m.clone()),
        }
    }
}

impl PactBrokerError {
    /// The message that the error carries.
    pub fn message(&self) -> (m: &String)
        ensures
            m@ == self@.message(),
    {
        match self {
            PactBrokerError::LinkError(m) => m,
            PactBrokerError::ContentError(m) => m,
            PactBrokerError::IoError(m) => m,
            PactBrokerError::NotFound(m) => m,
            PactBrokerError::UrlError(m) => m,
        }
    }
}

impl PartialEq<String> for PactBrokerError {
    fn eq(&self, other: &String) -> (r: bool) {
        self.message().as_str().eq(other.as_str())
    }
}

impl PartialEqSpecImpl<String> for PactBrokerError {
    open spec fn obeys_eq_spec() -> bool {
        true
    }

    open spec fn eq_spec(&self, other: &String) -> bool {
        self@.message() == other@
    }
}

impl<'a> PartialEq<&'a str> for PactBrokerError {
    fn eq(&self, other: &&'a str) -> (r: bool) {
        self.message().as_str().eq(*other)
    }
}

impl<'a> PartialEqSpecImpl<&'a str> for PactBrokerError {
    open spec fn obeys_eq_spec() -> bool {
        true
    }

    open spec fn eq_spec(&self, other: &&'a str) -> bool {
        self@.message() == other@
    }
}

/// A link of a HAL document.
#[derive(Debug)]
pub struct Link {
    /// The name under which the document lists the link.
    pub name: String,
    /// Where it points, if the document says so.
    pub href: Option<String>,
    /// Whether `href` is a URI template.
    pub templated: bool,
}

/// The mathematical value of a `Link`.
pub struct LinkView {
    pub name: Seq<char>,
    pub href: Option<Seq<char>>,
    pub templated: bool,
}

impl View for Link {
    type V = LinkView;

    open spec fn view(&self) -> LinkView {
        LinkView { name: self.name@, href: option_text(self.href), templated: self.templated }
    }
}

impl Clone for Link {
    fn clone(&self) -> (copy: Link)
        ensures
            copy@ == self@,
    {
        Link {
            name: self.name.clone(),
            href: match &self.href {
                Some(h) => Some(h.clone()),
                None => None,
            },
            templated: self.templated,
        }
    }
}

/// The first position at or after `from` whose member's name equals `key`
/// once both are put in lower case, or the number of members.
pub open spec fn position_ignoring_case(
    members: Seq<(Seq<char>, JsonValue)>,
    key: Seq<char>,
    from: int,
) -> int
    decreases members.len() - from,
{
    if from < 0 || from >= members.len() {
        members.len() as int
    } else if lowercase(members[from].0) == lowercase(key) {
        from
    } else {
        position_ignoring_case(members, key, from + 1)
    }
}

/// Whether the member `field` of an object is the JSON value `true`.
pub open spec fn member_is_true(members: Seq<(Seq<char>, JsonValue)>, field: Seq<char>) -> bool {
    match JsonValue::Object(members).member(field) {
        Some(JsonValue::Bool(b)) => b,
        _ => false,
    }
}

/// The link that a HAL document describes by the members of an object:
/// `href` is looked up without regard to case, `templated` exactly.
pub open spec fn link_of(name: Seq<char>, members: Seq<(Seq<char>, JsonValue)>) -> LinkView {
    let at = position_ignoring_case(members, "href"@, 0);
    LinkView {
        name,
        href: if 0 <= at < members.len() {
            Some(text_of(members[at].1))
        } else {
            None
        },
        templated: member_is_true(members, "templated"@),
    }
}

/// The link that an entry of a list of links describes: an object by its
/// members, a string by itself, anything else by its JSON text.
pub open spec fn link_of_entry(name: Seq<char>, entry: JsonValue) -> LinkView {
    match entry {
        JsonValue::Object(members) => link_of(name, members),
        _ => LinkView { name, href: Some(text_of(entry)), templated: false },
    }
}

/// The names of the members of an object, in order; nothing else has any.
pub open spec fn member_names(value: JsonValue) -> Seq<Seq<char>> {
    match value {
        JsonValue::Object(members) => Seq::new(members.len(), |i: int| members[i].0),
        _ => Seq::empty(),
    }
}

/// The message for a link asked of a client that has fetched nothing yet.
pub open spec fn no_resource_message(url: Seq<char>, link: Seq<char>) -> Seq<char> {
    "No previous resource has been fetched from the pact broker. URL: '"@ + url + "', LINK: '"@
        + link + "'"@
}

/// The message for a document without `_links`.
pub open spec fn no_links_message(url: Seq<char>, link: Seq<char>) -> Seq<char> {
    "Expected a HAL+JSON response from the pact broker, but got a response with no '_links'. URL: '"@
        + url + "', LINK: '"@ + link + "'"@
}

/// The message for a link that the document does not list; it names the
/// links that are there.
pub open spec fn link_not_found_message(url: Seq<char>, link: Seq<char>, links: JsonValue) -> Seq<
    char,
> {
    "Link '"@ + link
        + "' was not found in the response, only the following links where found: "@
        + debug_quoted(joined(member_names(links), ", "@)) + ". URL: '"@ + url + "', LINK: '"@
        + link + "'"@
}

/// The message for a link whose description has the wrong shape.
pub open spec fn malformed_link_message(url: Seq<char>, link: Seq<char>, data: JsonValue) -> Seq<
    char,
> {
    "Link is malformed, expcted an object but got "@ + json_text(data) + ". URL: '"@ + url
        + "', LINK: '"@ + link + "'"@
}

/// The message for a link without `href` that is to be followed as it is.
pub open spec fn no_href_message(url: Seq<char>, link: Seq<char>) -> Seq<char> {
    "Link is malformed, there is no href. URL: '"@ + url + "', LINK: '"@ + link + "'"@
}

/// The message for a link without `href` whose template is to be filled.
pub open spec fn no_template_message(url: Seq<char>, link: Seq<char>) -> Seq<char> {
    "Expected a HAL+JSON response from the pact broker, but got a link with no HREF. URL: '"@
        + url + "', LINK: '"@ + link + "'"@
}

/// What the last document fetched says of the link `link`: its
/// description, or why there is none.
pub open spec fn link_data_of(url: Seq<char>, path_info: Option<JsonValue>, link: Seq<char>) -> Result<
    JsonValue,
    BrokerErrorView,
> {
    match path_info {
        None => Err(BrokerErrorView::LinkError(no_resource_message(url, link))),
        Some(document) => match document.member("_links"@) {
            None => Err(BrokerErrorView::LinkError(no_links_message(url, link))),
            Some(links) => match links.member(link) {
                None => Err(BrokerErrorView::LinkError(link_not_found_message(url, link, links))),
                Some(data) => Ok(data),
            },
        },
    }
}

/// The link named `link` of the last document fetched.
pub open spec fn found_link(url: Seq<char>, path_info: Option<JsonValue>, link: Seq<char>) -> Result<
    LinkView,
    BrokerErrorView,
> {
    match link_data_of(url, path_info, link) {
        Err(e) => Err(e),
        Ok(JsonValue::Object(members)) => Ok(link_of(link, members)),
        Ok(data) => Err(BrokerErrorView::LinkError(malformed_link_message(url, link, data))),
    }
}

/// The links that the last document fetched lists under `link`.
pub open spec fn listed_links(url: Seq<char>, path_info: Option<JsonValue>, link: Seq<char>) -> Result<
    Seq<LinkView>,
    BrokerErrorView,
> {
    match link_data_of(url, path_info, link) {
        Err(e) => Err(e),
        Ok(JsonValue::Array(entries)) => Ok(
            Seq::new(entries.len(), |i: int| link_of_entry(link, entries[i])),
        ),
        Ok(data) => Err(BrokerErrorView::LinkError(malformed_link_message(url, link, data))),
    }
}

/// A list of links taken by their views, or the error taken by its view.
pub open spec fn links_result_view(r: Result<Vec<Link>, PactBrokerError>) -> Result<
    Seq<LinkView>,
    BrokerErrorView,
> {
    match r {
        Ok(links) => Ok(views(links@)),
        Err(e) => Err(e@),
    }
}

fn is_true(members: &Vec<(String, Json)>, field: &str) -> (r: bool)
    ensures
        r == member_is_true(Json::Object(*members)@->Object_0, field@),
{
    let mut i: usize = 0;
    let ghost all = Json::Object(*members)@->Object_0;
    while i < members.len()
        invariant
            i <= members.len(),
            all == Json::Object(*members)@->Object_0,
            JsonValue::position(all, field@) == JsonValue::position_from(all, field@, i as int),
        decreases members.len() - i,
    {
        if members[i].0.as_str().eq(field) {
            let value = &members[i].1;
            proof {
                assert(all[i as int].1 == value@);
                assert(JsonValue::position(all, field@) == i);
            }
            return match value {
                Json::Bool(b) => *b,
                _ => false,
            };
        }
        i = i + 1;
    }
    false
}

fn find_entry(members: &Vec<(String, Json)>, key: &str) -> (found: Option<usize>)
    ensures
        found matches Some(at) ==> at < members.len() && at == position_ignoring_case(
            Json::Object(*members)@->Object_0,
            key@,
            0,
        ),
        found is None ==> position_ignoring_case(Json::Object(*members)@->Object_0, key@, 0)
            == members.len(),
{
    let wanted = key.to_lowercase();
    let mut i: usize = 0;
    let ghost all = Json::Object(*members)@->Object_0;
    while i < members.len()
        invariant
            i <= members.len(),
            wanted@ == lowercase(key@),
            all == Json::Object(*members)@->Object_0,
            position_ignoring_case(all, key@, 0) == position_ignoring_case(all, key@, i as int),
        decreases members.len() - i,
    {
        let name = members[i].0.as_str().to_lowercase();
        if name == wanted {
            return Some(i);
        }
        i = i + 1;
    }
    None
}

impl Link {
    /// Reads a link from the members of the object that describes it.
    pub fn from_json(link: &String, link_data: &Vec<(String, Json)>) -> (r: Link)
        ensures
            r@ == link_of(link@, Json::Object(*link_data)@->Object_0),
    {
        let href = match find_entry(link_data, "href") {
            Some(at) => Some(link_data[at].1.as_text()),
            None => None,
        };
        Link { name: link.clone(), href, templated: is_true(link_data, "templated") }
    }
}

/// A client that walks the HAL documents of a pact broker.
#[derive(Debug)]
pub struct HALClient {
    /// The broker's base URL.
    pub url: String,
    /// The document fetched last, whose links are followed next.
    pub path_info: Option<Json>,
}

fn names_of(value: &Json) -> (names: Vec<String>)
    ensures
        strings_view(names@) == member_names(value@),
{
    let mut names: Vec<String> = Vec::new();
    match value {
        Json::Object(members) => {
            let mut i: usize = 0;
            while i < members.len()
                invariant
                    *value == Json::Object(*members),
                    i <= members.len(),
                    names@.len() == i,
                    forall|k: int| 0 <= k < i ==> (#[trigger] names@[k])@ == members@[k].0@,
                decreases members.len() - i,
            {
                names.push(members[i].0.clone());
                i = i + 1;
            }
            assert(strings_view(names@) =~= member_names(value@));
        },
        _ => {
            assert(strings_view(names@) =~= member_names(value@));
        },
    }
    names
}

impl HALClient {
    /// A client with no base URL that has fetched nothing.
    pub fn default() -> (client: HALClient)
        ensures
            client.url@ == Seq::<char>::empty(),
            client.path_info is None,
    {
        HALClient { url: String::new(), path_info: None }
    }

    /// A client for the broker at `url` that has fetched nothing.
    pub fn new(url: &str) -> (client: HALClient)
        ensures
            client.url@ == url@,
            client.path_info is None,
    {
        HALClient { url: String::from_str(url), path_info: None }
    }

    fn link_data(&self, link: &str) -> (r: Result<&Json, PactBrokerError>)
        ensures
            result_view(r) == link_data_of(self.url@, option_json(self.path_info), link@),
    {
        match &self.path_info {
            None => Err(
                PactBrokerError::LinkError(
                    concat5(
                        "No previous resource has been fetched from the pact broker. URL: '",
                        self.url.as_str(),
                        "', LINK: '",
                        link,
                        "'",
                    ),
                ),
            ),
            Some(document) => match document.get("_links") {
                None => Err(
                    PactBrokerError::LinkError(
                        concat5(
                            "Expected a HAL+JSON response from the pact broker, but got a response with no '_links'. URL: '",
                            self.url.as_str(),
                            "', LINK: '",
                            link,
                            "'",
                        ),
                    ),
                ),
                Some(links) => match links.get(link) {
                    None => {
                        let names = names_of(links);
                        let listed = debug_text(join(&names, ", ").as_str());
                        Err(
                            PactBrokerError::LinkError(
                                concat9(
                                    "Link '",
                                    link,
                                    "' was not found in the response, only the following links where found: ",
                                    listed.as_str(),
                                    ". URL: '",
                                    self.url.as_str(),
                                    "', LINK: '",
                                    link,
                                    "'",
                                ),
                            ),
                        )
                    },
                    Some(data) => Ok(data),
                },
            },
        }
    }

    fn malformed(&self, link: &str, data: &Json) -> (e: PactBrokerError)
        ensures
            e@ == BrokerErrorView::LinkError(malformed_link_message(self.url@, link@, data@)),
    {
        PactBrokerError::LinkError(
            concat7(
                "Link is malformed, expcted an object but got ",
                data.to_text().as_str(),
                ". URL: '",
                self.url.as_str(),
                "', LINK: '",
                link,
                "'",
            ),
        )
    }

    /// The link that the document fetched last lists under the name
    /// `link`, or the reason why it has none.
    pub fn find_link(&self, link: &str) -> (r: Result<Link, PactBrokerError>)
        ensures
            result_view(r) == found_link(self.url@, option_json(self.path_info), link@),
    {
        match self.link_data(link) {
            Err(e) => Err(e),
            Ok(data) => match data {
                Json::Object(members) => {
                    let name = String::from_str(link);
                    Ok(Link::from_json(&name, members))
                },
                _ => Err(self.malformed(link, data)),
            },
        }
    }

    /// The links that the document fetched last lists as an array under
    /// the name `link`, or the reason why it has none.
    pub fn iter_links(&self, link: String) -> (r: Result<Vec<Link>, PactBrokerError>)
        ensures
            links_result_view(r) == listed_links(
                self.url@,
                option_json(self.path_info),
                link@,
            ),
    {
        match self.link_data(link.as_str()) {
            Err(e) => Err(e),
            Ok(data) => match data {
                Json::Array(entries) => {
                    let mut links: Vec<Link> = Vec::new();
                    let mut i: usize = 0;
                    while i < entries.len()
                        invariant
                            *data == Json::Array(*entries),
                            i <= entries.len(),
                            links@.len() == i,
                            forall|k: int|
                                0 <= k < i ==> (#[trigger] links@[k])@ == link_of_entry(
                                    link@,
                                    entries@[k]@,
                                ),
                        decreases entries.len() - i,
                    {
                        let entry = &entries[i];
                        let item = match entry {
                            Json::Object(members) => Link::from_json(&link, members),
                            _ => Link {
                                name: link.clone(),
                                href: Some(entry.as_text()),
                                templated: false,
                            },
                        };
                        links.push(item);
                        i = i + 1;
                    }
                    proof {
                        let expected = Seq::new(
                            data@->Array_0.len(),
                            |i: int| link_of_entry(link@, data@->Array_0[i]),
                        );
                        assert(views(links@) =~= expected);
                    }
                    Ok(links)
                },
                _ => Err(self.malformed(link.as_str(), data)),
            },
        }
    }
}

/// What the `url` crate makes of a link read against a base URL: the path
/// of the URL that the two give together, or the message of the error that
/// reading either gave.
pub uninterp spec fn resolved_path(base: Seq<char>, link: Seq<char>) -> Result<
    Seq<char>,
    Seq<char>,
>;

/// A text or a message, each taken by its characters.
pub open spec fn text_result_view(r: Result<String, String>) -> Result<Seq<char>, Seq<char>> {
    match r {
        Ok(t) => Ok(t@),
        Err(e) => Err(e@),
    }
}

/// `Url::parse` on the base, `Url::join` with the link, and `Url::path` of
/// what comes out: the result is the one that the two texts determine.
#[verifier::external_body]
fn resolve_path(base: &str, link: &str) -> (r: Result<String, String>)
    ensures
        text_result_view(r) == resolved_path(base@, link@),
{
    match url::Url::parse(base).and_then(|b| b.join(link)) {
        Ok(u) => Ok(u.path().to_string()),
        Err(e) => Err(e.to_string()),
    }
}

/// The URL that a link's template gives once its tokens are replaced.
pub open spec fn template_url(url: Seq<char>, link: LinkView, values: Seq<(Seq<char>, Seq<char>)>) -> Result<
    Seq<char>,
    BrokerErrorView,
> {
    match link.href {
        Some(href) => Ok(expanded(href, values)),
        None => Err(BrokerErrorView::LinkError(no_template_message(url, link.name))),
    }
}

/// The URL that a link leads to: its template filled where it is
/// templated, its `href` as it stands where it is not.
pub open spec fn link_url(url: Seq<char>, link: LinkView, values: Seq<(Seq<char>, Seq<char>)>) -> Result<
    Seq<char>,
    BrokerErrorView,
> {
    if link.templated {
        template_url(url, link, values)
    } else {
        match link.href {
            Some(href) => Ok(href),
            None => Err(BrokerErrorView::LinkError(no_href_message(url, link.name))),
        }
    }
}

/// The path to ask the broker for in order to follow a link.
pub open spec fn link_path(url: Seq<char>, link: LinkView, values: Seq<(Seq<char>, Seq<char>)>) -> Result<
    Seq<char>,
    BrokerErrorView,
> {
    match link_url(url, link, values) {
        Err(e) => Err(e),
        Ok(target) => match resolved_path(url, target) {
            Ok(path) => Ok(path),
            Err(message) => Err(BrokerErrorView::UrlError(message)),
        },
    }
}

/// The path to ask the broker for in order to follow the link named
/// `link` of the document fetched last.
pub open spec fn named_link_path(
    url: Seq<char>,
    path_info: Option<JsonValue>,
    link: Seq<char>,
    values: Seq<(Seq<char>, Seq<char>)>,
) -> Result<Seq<char>, BrokerErrorView> {
    match found_link(url, path_info, link) {
        Err(e) => Err(e),
        Ok(found) => link_path(url, found, values),
    }
}

/// The position after the last character of a text that is no slash.
pub open spec fn slashes_start(s: Seq<char>, to: int) -> int
    decreases to,
{
    if to <= 0 || to > s.len() || s[to - 1] != '/' {
        to
    } else {
        slashes_start(s, to - 1)
    }
}

/// The first position from `from` on that holds no slash.
pub open spec fn slashes_end(s: Seq<char>, from: int) -> int
    decreases s.len() - from,
{
    if from < 0 || from >= s.len() || s[from] != '/' {
        from
    } else {
        slashes_end(s, from + 1)
    }
}

/// A base and a path put together with exactly one slash between them.
pub open spec fn joined_paths(base: Seq<char>, path: Seq<char>) -> Seq<char> {
    let stop = slashes_start(base, base.len() as int);
    let start = slashes_end(path, 0);
    if 0 <= stop <= base.len() && 0 <= start <= path.len() {
        base.take(stop) + seq!['/'] + path.skip(start)
    } else {
        seq!['/']
    }
}

/// Puts a base URL and a path together with exactly one slash between
/// them, whatever slashes end the one and start the other.
pub fn join_paths(base: &str, path: &str) -> (full: String)
    ensures
        full@ == joined_paths(base@, path@),
{
    let b = chars_of(base);
    let p = chars_of(path);
    let mut stop: usize = b.len();
    while stop > 0 && b[stop - 1] == '/'
        invariant
            stop <= b.len(),
            slashes_start(b@, b.len() as int) == slashes_start(b@, stop as int),
        decreases stop,
    {
        stop = stop - 1;
    }
    let mut start: usize = 0;
    while start < p.len() && p[start] == '/'
        invariant
            start <= p.len(),
            slashes_end(p@, 0) == slashes_end(p@, start as int),
        decreases p.len() - start,
    {
        start = start + 1;
    }
    let mut out: Vec<char> = Vec::new();
    let mut i: usize = 0;
    while i < stop
        invariant
            i <= stop <= b.len(),
            out@ == b@.take(i as int),
        decreases stop - i,
    {
        out.push(b[i]);
        i = i + 1;
        assert(b@.take(i as int) =~= b@.take(i - 1).push(b@[i - 1]));
    }
    out.push('/');
    let mut k: usize = start;
    while k < p.len()
        invariant
            start <= k <= p.len(),
            out@ == b@.take(stop as int) + seq!['/'] + p@.subrange(start as int, k as int),
        decreases p.len() - k,
    {
        out.push(p[k]);
        k = k + 1;
        assert(p@.subrange(start as int, k as int) =~= p@.subrange(start as int, k - 1).push(
            p@[k - 1],
        ));
        assert(b@.take(stop as int) + seq!['/'] + p@.subrange(start as int, k as int) =~= (b@.take(
            stop as int,
        ) + seq!['/'] + p@.subrange(start as int, k - 1)).push(p@[k - 1]));
    }
    assert(p@.subrange(start as int, p.len() as int) =~= p@.skip(start as int));
    string_of(&out)
}

/// What the broker sent back.
#[derive(Debug)]
pub struct BrokerResponse {
    /// The status code.
    pub status: u16,
    /// The status as it is shown to the user, such as `404 Not Found`.
    pub status_text: String,
    /// The value of the `Content-Type` header, if there is one.
    pub content_type: Option<String>,
    /// The body.
    pub body: OptionalBody,
}

/// How a request to the broker ended.
#[derive(Debug)]
pub enum FetchOutcome {
    /// No answer came; the text says why.
    Failed(String),
    /// The broker answered.
    Answered(BrokerResponse),
}

/// The content type that is shown to the user: that of the header, or
/// `text/plain` where the response has none.
pub open spec fn shown_content_type(content_type: Option<String>) -> Seq<char> {
    match content_type {
        Some(value) => value@,
        None => "text/plain"@,
    }
}

/// Whether a response declares a JSON body.
pub open spec fn has_json_content_type(content_type: Option<String>) -> bool {
    match content_type {
        Some(value) => is_json_resource_media(media_type_of(value@)),
        None => false,
    }
}

/// Whether a status code stands for success.
pub open spec fn is_success(status: u16) -> bool {
    200 <= status < 300
}

/// The message for a request that got no answer.
pub open spec fn no_answer_message(url: Seq<char>, path: Seq<char>, reason: Seq<char>) -> Seq<
    char,
> {
    "Failed to access pact broker path '"@ + path + "' - "@ + debug_quoted(reason) + ". URL: '"@
        + url + "'"@
}

/// The message for an answer whose status is no success.
pub open spec fn bad_status_message(url: Seq<char>, path: Seq<char>, status: Seq<char>) -> Seq<
    char,
> {
    "Request to pact broker path '"@ + path + "' failed: "@ + status + ". URL: '"@ + url + "'"@
}

/// The message for an answer that is no JSON by its content type.
pub open spec fn not_hal_message(url: Seq<char>, path: Seq<char>, content_type: Seq<char>) -> Seq<
    char,
> {
    "Did not get a HAL response from pact broker path '"@ + path + "', content type is '"@
        + content_type + "'. URL: '"@ + url + "'"@
}

/// The message for an answer whose body cannot be read as JSON.
pub open spec fn bad_body_message(url: Seq<char>, path: Seq<char>, error: Seq<char>) -> Seq<
    char,
> {
    "Did not get a valid HAL response body from pact broker path '"@ + path + "' - JSON error: "@
        + error + ". URL: '"@ + url + "'"@
}

/// The message for an answer without a body.
pub open spec fn no_body_message(url: Seq<char>, path: Seq<char>) -> Seq<char> {
    "Did not get a valid HAL response body from pact broker path '"@ + path + "'. URL: '"@ + url
        + "'"@
}

/// What a request for `path` has brought: the document in the answer, or
/// the error that stands for what went wrong.
pub open spec fn fetched(url: Seq<char>, path: Seq<char>, outcome: FetchOutcome) -> Result<
    JsonValue,
    BrokerErrorView,
> {
    match outcome {
        FetchOutcome::Failed(reason) => Err(
            BrokerErrorView::IoError(no_answer_message(url, path, reason@)),
        ),
        FetchOutcome::Answered(response) => if !is_success(response.status) {
            if response.status == 404 {
                Err(
                    BrokerErrorView::NotFound(
                        bad_status_message(url, path, response.status_text@),
                    ),
                )
            } else {
                Err(
                    BrokerErrorView::IoError(bad_status_message(url, path, response.status_text@)),
                )
            }
        } else if !has_json_content_type(response.content_type) {
            Err(
                BrokerErrorView::ContentError(
                    not_hal_message(url, path, shown_content_type(response.content_type)),
                ),
            )
        } else {
            match response.body {
                OptionalBody::Present(bytes) => match json_parse_result(bytes@) {
                    Ok(document) => Ok(document),
                    Err(error) => Err(
                        BrokerErrorView::ContentError(bad_body_message(url, path, error)),
                    ),
                },
                _ => Err(BrokerErrorView::ContentError(no_body_message(url, path))),
            }
        },
    }
}

/// The content type of a response as it is shown to the user.
pub fn content_type(response: &BrokerResponse) -> (shown: String)
    ensures
        shown@ == shown_content_type(response.content_type),
{
    match &response.content_type {
        Some(value) => value.clone(),
        None => String::from_str("text/plain"),
    }
}

/// Whether a response declares a JSON body: `application/json`, or
/// `application/` and a name that ends in `+json`, such as `hal+json`.
pub fn json_content_type(response: &BrokerResponse) -> (r: bool)
    ensures
        r == has_json_content_type(response.content_type),
{
    match &response.content_type {
        Some(value) => {
            let media = media_type(value.as_str());
            is_json_resource(media.as_str())
        },
        None => false,
    }
}

impl HALClient {
    /// Fills the template of a link with the given values. A token without
    /// a value stays as it is; a link without `href` is an error.
    pub fn parse_link_url(&self, link: &Link, values: &Vec<(String, String)>) -> (r: Result<
        String,
        PactBrokerError,
    >)
        ensures
            result_view(r) == template_url(self.url@, link@, pairs_view(values@)),
    {
        match &link.href {
            Some(href) => Ok(expand_template(href.as_str(), values)),
            None => Err(
                PactBrokerError::LinkError(
                    concat5(
                        "Expected a HAL+JSON response from the pact broker, but got a link with no HREF. URL: '",
                        self.url.as_str(),
                        "', LINK: '",
                        link.name.as_str(),
                        "'",
                    ),
                ),
            ),
        }
    }

    /// The path to ask the broker for in order to follow a link: the
    /// link's URL, read against the broker's base URL.
    pub fn fetch_url(&self, link: &Link, values: &Vec<(String, String)>) -> (r: Result<
        String,
        PactBrokerError,
    >)
        ensures
            result_view(r) == link_path(self.url@, link@, pairs_view(values@)),
    {
        let target = if link.templated {
            self.parse_link_url(link, values)
        } else {
            match &link.href {
                Some(href) => Ok(href.clone()),
                None => Err(
                    PactBrokerError::LinkError(
                        concat5(
                            "Link is malformed, there is no href. URL: '",
                            self.url.as_str(),
                            "', LINK: '",
                            link.name.as_str(),
                            "'",
                        ),
                    ),
                ),
            }
        };
        match target {
            Err(e) => Err(e),
            Ok(target) => match resolve_path(self.url.as_str(), target.as_str()) {
                Ok(path) => Ok(path),
                Err(message) => Err(PactBrokerError::UrlError(message)),
            },
        }
    }

    /// The path to ask the broker for in order to follow the link that the
    /// document fetched last lists under the name `link`.
    pub fn fetch_link(&self, link: &str, values: &Vec<(String, String)>) -> (r: Result<
        String,
        PactBrokerError,
    >)
        ensures
            result_view(r) == named_link_path(
                self.url@,
                option_json(self.path_info),
                link@,
                pairs_view(values@),
            ),
    {
        match self.find_link(link) {
            Err(e) => Err(e),
            Ok(found) => self.fetch_url(&found, values),
        }
    }

    /// The URL to send a request for `path` to.
    pub fn request_url(&self, path: &str) -> (full: String)
        ensures
            full@ == joined_paths(self.url@, path@),
    {
        join_paths(self.url.as_str(), path)
    }

    /// Judges what a request for `path` has brought: the HAL document of a
    /// successful JSON answer, or the error that says what went wrong.
    pub fn fetch(&self, path: &str, outcome: &FetchOutcome) -> (r: Result<Json, PactBrokerError>)
        ensures
            result_view(r) == fetched(self.url@, path@, *outcome),
    {
        match outcome {
            FetchOutcome::Failed(reason) => Err(
                PactBrokerError::IoError(
                    concat7(
                        "Failed to access pact broker path '",
                        path,
                        "' - ",
                        debug_text(reason.as_str()).as_str(),
                        ". URL: '",
                        self.url.as_str(),
                        "'",
                    ),
                ),
            ),
            FetchOutcome::Answered(response) => {
                if !(200 <= response.status && response.status < 300) {
                    let message = concat7(
                        "Request to pact broker path '",
                        path,
                        "' failed: ",
                        response.status_text.as_str(),
                        ". URL: '",
                        self.url.as_str(),
                        "'",
                    );
                    if response.status == 404 {
                        Err(PactBrokerError::NotFound(message))
                    } else {
                        Err(PactBrokerError::IoError(message))
                    }
                } else if !json_content_type(response) {
                    Err(
                        PactBrokerError::ContentError(
                            concat7(
                                "Did not get a HAL response from pact broker path '",
                                path,
                                "', content type is '",
                                content_type(response).as_str(),
                                "'. URL: '",
                                self.url.as_str(),
                                "'",
                            ),
                        ),
                    )
                } else {
                    match &response.body {
                        OptionalBody::Present(bytes) => match Json::parse(bytes.as_slice()) {
                            Ok(document) => Ok(document),
                            Err(error) => Err(
                                PactBrokerError::ContentError(
                                    concat7(
                                        "Did not get a valid HAL response body from pact broker path '",
                                        path,
                                        "' - JSON error: ",
                                        error.as_str(),
                                        ". URL: '",
                                        self.url.as_str(),
                                        "'",
                                    ),
                                ),
                            ),
                        },
                        _ => Err(
                            PactBrokerError::ContentError(
                                concat5(
                                    "Did not get a valid HAL response body from pact broker path '",
                                    path,
                                    "'. URL: '",
                                    self.url.as_str(),
                                    "'",
                                ),
                            ),
                        ),
                    }
                }
            },
        }
    }
}

} // verus!
