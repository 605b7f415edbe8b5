//! The mock server's part that decides: what request has arrived, which
//! expected interaction it belongs to, and what answer goes back.

use crate::json::{json_text, Json, JsonValue};
use crate::matching::request_mismatches;
use crate::mismatch::{clone_mismatches, kind_name, Mismatch, MismatchKind, MismatchView};
use crate::models::{
    option_query, BodyView, Interaction, InteractionView, Matchers, MatchersView, OptionalBody,
    Query, QueryView, Request, RequestView,
};
use crate::query::{parse_query_string, parsed_query};
use crate::report::{EntryView, ReportEntry};
use crate::text::{
    decimal, decimal_text, find_pair, key_position, option_pairs, option_text, pairs_view,
    views,
};
use itertools::Itertools;
use vstd::prelude::*;
use vstd::seq_lib::{to_multiset_contains, to_multiset_len};
use vstd::utf8::encode_utf8;

verus! {

/// Why a request could not be answered as expected.
#[derive(Debug, Clone, Copy, PartialEq, Eq, Structural)]
pub enum MockRequestError {
    /// A header of the request is no text.
    InvalidHeaderEncoding,
    /// The body of the request could not be read.
    RequestBodyError,
    /// A header of the response is not well formed.
    ResponseHeaderEncodingError,
    /// The body of the response could not be set.
    ResponseBodyError,
}

/// The path and the query of a request's target.
#[derive(Debug)]
pub struct UriParts {
    /// The path.
    pub path: String,
    /// What stands behind the question mark, if there is one.
    pub query: Option<String>,
}

/// A header of a request as it arrived: its name and the first of its
/// values, which is absent where its bytes are no text.
#[derive(Debug)]
pub struct RawHeader {
    pub name: String,
    pub value: Option<String>,
}

/// The most bytes that the body of a request may have.
pub const MAX_BODY_BYTES: usize = 8388608;

/// The path of a request's target; `/` where the target has none.
pub open spec fn path_of(uri: Option<UriParts>) -> Seq<char> {
    match uri {
        Some(parts) => parts.path@,
        None => "/"@,
    }
}

/// The query of a request's target.
pub open spec fn query_of(uri: Option<UriParts>) -> Option<QueryView> {
    match uri {
        Some(parts) => match parts.query {
            Some(text) => parsed_query(text@),
            None => None,
        },
        None => None,
    }
}

/// The path of a request's target; `/` where the target has none.
pub fn extract_path(uri: &Option<UriParts>) -> (path: String)
    ensures
        path@ == path_of(*uri),
{
    match uri {
        Some(parts) => parts.path.clone(),
        None => String::from_str("/"),
    }
}

/// The query of a request's target, read name by name.
pub fn extract_query_string(uri: &Option<UriParts>) -> (query: Option<Query>)
    ensures
        option_query(query) == query_of(*uri),
{
    match uri {
        Some(parts) => match &parts.query {
            Some(text) => parse_query_string(text.as_str()),
            None => None,
        },
        None => None,
    }
}

/// Whether the first value of some header is no text.
pub open spec fn has_unreadable_header(headers: Seq<RawHeader>) -> bool {
    exists|i: int| 0 <= i < headers.len() && (#[trigger] headers[i]).value is None
}

/// The names of the headers, each with its first value.
pub open spec fn first_values(headers: Seq<RawHeader>) -> Seq<(Seq<char>, Seq<char>)> {
    Seq::new(headers.len(), |i: int| (headers[i].name@, headers[i].value->0@))
}

/// The headers of a request as a pact keeps them: of each header the
/// first value.
pub open spec fn extracted_headers(headers: Seq<RawHeader>) -> Result<
    Option<Seq<(Seq<char>, Seq<char>)>>,
    MockRequestError,
> {
    if headers.len() == 0 {
        Ok(None)
    } else if has_unreadable_header(headers) {
        Err(MockRequestError::InvalidHeaderEncoding)
    } else {
        Ok(Some(first_values(headers)))
    }
}

/// Headers that may be absent, or an error, with the texts taken by
/// their characters.
pub open spec fn headers_result_view(
    r: Result<Option<Vec<(String, String)>>, MockRequestError>,
) -> Result<Option<Seq<(Seq<char>, Seq<char>)>>, MockRequestError> {
    match r {
        Ok(h) => Ok(option_pairs(h)),
        Err(e) => Err(e),
    }
}

/// The headers of a request as a pact keeps them: of each header the
/// first value, and none at all where the request has no header. A first
/// value that is no text is an error.
pub fn extract_headers(headers: &Vec<RawHeader>) -> (r: Result<
    Option<Vec<(String, String)>>,
    MockRequestError,
>)
    ensures
        headers_result_view(r) == extracted_headers(headers@),
{
    if headers.len() == 0 {
        return Ok(None);
    }
    let mut out: Vec<(String, String)> = Vec::new();
    let mut i: usize = 0;
    while i < headers.len()
        invariant
            i <= headers.len(),
            out@.len() == i,
            forall|k: int| 0 <= k < i ==> (#[trigger] headers@[k]).value is Some,
            forall|k: int|
                0 <= k < i ==> (#[trigger] out@[k]).0@ == headers@[k].name@ && out@[k].1@
                    == headers@[k].value->0@,
        decreases headers.len() - i,
    {
        match &headers[i].value {
            Some(value) => {
                out.push((headers[i].name.clone(), value.clone()));
            },
            None => {
                assert(headers@[i as int].value is None);
                return Err(MockRequestError::InvalidHeaderEncoding);
            },
        }
        i = i + 1;
    }
    assert(!has_unreadable_header(headers@));
    assert(pairs_view(out@) =~= first_values(headers@));
    Ok(Some(out))
}

/// The body that bytes stand for: none of them an empty body, else a
/// body that holds them.
pub open spec fn extracted_body(bytes: Seq<u8>) -> BodyView {
    if bytes.len() > 0 {
        BodyView::Present(bytes)
    } else {
        BodyView::Empty
    }
}

/// Classifies the bytes that came with a message: no bytes make an empty
/// body, anything else is kept as it is.
pub fn extract_body(bytes: Vec<u8>) -> (body: OptionalBody)
    ensures
        body@ == extracted_body(bytes@),
{
    if bytes.len() > 0 {
        OptionalBody::Present(bytes)
    } else {
        OptionalBody::Empty
    }
}

/// The bytes of a body that may not have been read.
pub open spec fn option_bytes(o: Option<Vec<u8>>) -> Option<Seq<u8>> {
    match o {
        Some(b) => Some(b@),
        None => None,
    }
}

/// The request that has arrived, as a pact keeps requests. Headers that
/// cannot be read come before a body that cannot be read; a body of more
/// than `MAX_BODY_BYTES` bytes counts as one that cannot be read.
pub open spec fn pact_request_of(
    method: Seq<char>,
    uri: Option<UriParts>,
    headers: Seq<RawHeader>,
    body: Option<Seq<u8>>,
) -> Result<RequestView, MockRequestError> {
    match extracted_headers(headers) {
        Err(e) => Err(e),
        Ok(h) => match body {
            None => Err(MockRequestError::RequestBodyError),
            Some(bytes) => if bytes.len() > MAX_BODY_BYTES {
                Err(MockRequestError::RequestBodyError)
            } else {
                Ok(
                    RequestView {
                        method,
                        path: path_of(uri),
                        query: query_of(uri),
                        headers: h,
                        body: extracted_body(bytes),
                        matching_rules: MatchersView::empty(),
                        generators: MatchersView::empty(),
                    },
                )
            },
        },
    }
}

/// A request or an error, the request taken by its view.
pub open spec fn request_result_view(r: Result<Request, MockRequestError>) -> Result<
    RequestView,
    MockRequestError,
> {
    match r {
        Ok(request) => Ok(request@),
        Err(e) => Err(e),
    }
}

/// Makes the request of a pact out of what has arrived: the method, the
/// target, the headers, and the body, which is absent where it could not
/// be read.
pub fn to_pact_request(
    method: &str,
    uri: &Option<UriParts>,
    headers: &Vec<RawHeader>,
    body: Option<Vec<u8>>,
) -> (r: Result<Request, MockRequestError>)
    ensures
        request_result_view(r) == pact_request_of(method@, *uri, headers@, option_bytes(body)),
{
    let path = extract_path(uri);
    let query = extract_query_string(uri);
    match extract_headers(headers) {
        Err(e) => Err(e),
        Ok(h) => match body {
            None => Err(MockRequestError::RequestBodyError),
            Some(bytes) => {
                if bytes.len() > MAX_BODY_BYTES {
                    Err(MockRequestError::RequestBodyError)
                } else {
                    Ok(
                        Request {
                            method: String::from_str(method),
                            path,
                            query,
                            headers: h,
                            body: extract_body(bytes),
                            matching_rules: Matchers::new(),
                            generators: Matchers::new(),
                        },
                    )
                }
            },
        },
    }
}

/// Whether a mismatch is one of method or of path.
pub open spec fn is_method_or_path(mismatch: MismatchView) -> bool {
    mismatch.kind() == MismatchKind::Method || mismatch.kind() == MismatchKind::Path
}

/// Whether a list holds a mismatch of method or of path.
pub open spec fn has_method_or_path(mismatches: Seq<MismatchView>) -> bool {
    exists|i: int| 0 <= i < mismatches.len() && is_method_or_path(#[trigger] mismatches[i])
}

/// Whether a list holds a mismatch of method or of path.
pub fn method_or_path_mismatch(mismatches: &Vec<Mismatch>) -> (r: bool)
    ensures
        r == has_method_or_path(views(mismatches@)),
{
    let mut i: usize = 0;
    while i < mismatches.len()
        invariant
            i <= mismatches.len(),
            forall|k: int| 0 <= k < i ==> !is_method_or_path(#[trigger] views(mismatches@)[k]),
        decreases mismatches.len() - i,
    {
        let kind = mismatches[i].kind();
        if kind == MismatchKind::Method || kind == MismatchKind::Path {
            assert(is_method_or_path(views(mismatches@)[i as int]));
            return true;
        }
        i = i + 1;
    }
    false
}

/// The outcome of holding a request against the interactions of a pact.
#[derive(Debug)]
pub enum MatchResult {
    /// The request matches this interaction.
    RequestMatch(Interaction),
    /// The request comes closest to this interaction and differs in these
    /// respects.
    RequestMismatch(Interaction, Vec<Mismatch>),
    /// The request belongs to no interaction.
    RequestNotFound(Request),
}

/// The mathematical value of a `MatchResult`.
pub enum MatchResultView {
    RequestMatch(InteractionView),
    RequestMismatch(InteractionView, Seq<MismatchView>),
    RequestNotFound(RequestView),
}

impl View for MatchResult {
    type V = MatchResultView;

    open spec fn view(&self) -> MatchResultView {
        match self {
            MatchResult::RequestMatch(i) => MatchResultView::RequestMatch(i@),
            MatchResult::RequestMismatch(i, m) => MatchResultView::RequestMismatch(i@, views(m@)),
            MatchResult::RequestNotFound(r) => MatchResultView::RequestNotFound(r@),
        }
    }
}

impl Clone for MatchResult {
    fn clone(&self) -> (copy: MatchResult)
        ensures
            copy@ == self@,
    {
        match self {
            MatchResult::RequestMatch(i) => MatchResult::RequestMatch(i.clone()),
            MatchResult::RequestMismatch(i, m) => MatchResult::RequestMismatch(
                i.clone(),
                clone_mismatches(m),
            ),
            MatchResult::RequestNotFound(r) => MatchResult::RequestNotFound(r.clone()),
        }
    }
}

/// A number for each kind of mismatch.
pub open spec fn kind_code(kind: MismatchKind) -> u8 {
    match kind {
        MismatchKind::Method => 0,
        MismatchKind::Path => 1,
        MismatchKind::Status => 2,
        MismatchKind::Query => 3,
        MismatchKind::Header => 4,
        MismatchKind::BodyType => 5,
        MismatchKind::Body => 6,
    }
}

/// The numbers of the kinds of the mismatches of a list, in order.
pub open spec fn kind_codes(mismatches: Seq<MismatchView>) -> Seq<u8> {
    Seq::new(mismatches.len(), |i: int| kind_code(mismatches[i].kind()))
}

/// The rank of a list of mismatches: the number of different kinds in
/// it.
pub open spec fn rank(mismatches: Seq<MismatchView>) -> nat {
    kind_codes(mismatches).to_set().len()
}

/// The ranks of the interactions for a request, in order.
pub open spec fn ranks(request: RequestView, interactions: Seq<InteractionView>) -> Seq<nat> {
    Seq::new(
        interactions.len(),
        |i: int| rank(request_mismatches(interactions[i].request, request)),
    )
}

/// The position of the first of the least among the first `n` numbers,
/// or -1 where `n` is 0.
pub open spec fn first_least(numbers: Seq<nat>, n: int) -> int
    decreases n,
{
    if n <= 0 || n > numbers.len() {
        -1
    } else {
        let before = first_least(numbers, n - 1);
        if before < 0 || numbers[n - 1] < numbers[before] {
            n - 1
        } else {
            before
        }
    }
}

/// The outcome for a request among the interactions of a pact. The
/// interaction that counts is the one of least rank and, of several, the
/// first. Without mismatch the request matches it. With a mismatch of
/// method or path, and where there is no interaction, the request
/// belongs nowhere. Else it is a mismatch of that interaction.
pub open spec fn dispatched(request: RequestView, interactions: Seq<InteractionView>) -> MatchResultView {
    let best = first_least(ranks(request, interactions), interactions.len() as int);
    if 0 <= best < interactions.len() {
        let found = request_mismatches(interactions[best].request, request);
        if found.len() == 0 {
            MatchResultView::RequestMatch(interactions[best])
        } else if has_method_or_path(found) {
            MatchResultView::RequestNotFound(request)
        } else {
            MatchResultView::RequestMismatch(interactions[best], found)
        }
    } else {
        MatchResultView::RequestNotFound(request)
    }
}

/// `first_least` among the first `n` numbers, where there is one, is a
/// position below `n` whose number none of them is less than, and no
/// earlier position holds the same number.
pub proof fn first_least_is_first_least(numbers: Seq<nat>, n: int)
    requires
        0 < n <= numbers.len(),
    ensures
        0 <= first_least(numbers, n) < n,
        forall|k: int| 0 <= k < n ==> numbers[first_least(numbers, n)] <= #[trigger] numbers[k],
        forall|k: int|
            0 <= k < first_least(numbers, n) ==> numbers[first_least(numbers, n)] < #[trigger] numbers[k],
    decreases n,
{
    if n > 1 {
        first_least_is_first_least(numbers, n - 1);
    } else {
        assert(first_least(numbers, 0) == -1);
    }
}

/// `Itertools::unique` and the count of what it lets pass: the number of
/// different items.
#[verifier::external_body]
fn distinct_count(codes: &Vec<u8>) -> (n: usize)
    ensures
        n == codes@.to_set().len(),
{
    codes.iter().unique().count()
}

/// `Itertools::sorted_by` on pairs of a rank and a position, by rank.
/// What comes out holds the same pairs, with ranks that do not fall; the
/// sort is stable, so that of two pairs of one rank the one that stood
/// first still does, which the positions show.
#[verifier::external_body]
fn sort_by_rank(pairs: Vec<(usize, usize)>) -> (sorted: Vec<(usize, usize)>)
    requires
        forall|k: int| 0 <= k < pairs@.len() ==> (#[trigger] pairs@[k]).1 == k,
    ensures
        sorted@.to_multiset() == pairs@.to_multiset(),
        forall|i: int, j: int| 0 <= i < j < sorted@.len() ==> sorted@[i].0 <= sorted@[j].0,
        forall|i: int, j: int|
            0 <= i < j < sorted@.len() && sorted@[i].0 == sorted@[j].0 ==> sorted@[i].1
                < sorted@[j].1,
{
    pairs.into_iter().sorted_by(|a, b| Ord::cmp(&a.0, &b.0)).collect()
}

fn codes_of(mismatches: &Vec<Mismatch>) -> (codes: Vec<u8>)
    ensures
        codes@ == kind_codes(views(mismatches@)),
{
    let mut codes: Vec<u8> = Vec::new();
    let mut i: usize = 0;
    while i < mismatches.len()
        invariant
            i <= mismatches.len(),
            codes@.len() == i,
            forall|k: int| 0 <= k < i ==> codes@[k] == kind_code(mismatches@[k]@.kind()),
        decreases mismatches.len() - i,
    {
        let code: u8 = match mismatches[i].kind() {
            MismatchKind::Method => 0,
            MismatchKind::Path => 1,
            MismatchKind::Status => 2,
            MismatchKind::Query => 3,
            MismatchKind::Header => 4,
            MismatchKind::BodyType => 5,
            MismatchKind::Body => 6,
        };
        codes.push(code);
        i = i + 1;
    }
    assert(codes@ =~= kind_codes(views(mismatches@)));
    codes
}

/// The position of the first of the least ranks.
fn least_rank(ranked: &Vec<(usize, usize)>) -> (best: usize)
    requires
        ranked@.len() > 0,
        forall|k: int| 0 <= k < ranked@.len() ==> (#[trigger] ranked@[k]).1 == k,
    ensures
        best < ranked@.len(),
        best == first_least(Seq::new(ranked@.len(), |k: int| ranked@[k].0 as nat), ranked@.len() as int),
{
    let ghost numbers = Seq::new(ranked@.len(), |k: int| ranked@[k].0 as nat);
    let mut copy: Vec<(usize, usize)> = Vec::new();
    let mut i: usize = 0;
    while i < ranked.len()
        invariant
            i <= ranked.len(),
            copy@ == ranked@.take(i as int),
        decreases ranked.len() - i,
    {
        copy.push(ranked[i]);
        i = i + 1;
        assert(ranked@.take(i as int) =~= ranked@.take(i - 1).push(ranked@[i - 1]));
    }
    assert(ranked@.take(ranked@.len() as int) =~= ranked@);
    let sorted = sort_by_rank(copy);
    proof {
        to_multiset_len(sorted@);
        to_multiset_len(ranked@);
    }
    let first = sorted[0];
    proof {
        first_least_is_first_least(numbers, ranked@.len() as int);
        let wanted = first_least(numbers, ranked@.len() as int);
        // The first pair of the sorted list stands in the list that was sorted.
        assert(sorted@.contains(first));
        to_multiset_contains(sorted@, first);
        to_multiset_contains(ranked@, first);
        let q = choose|q: int| 0 <= q < ranked@.len() && ranked@[q] == first;
        assert(ranked@[q].1 == q);
        // The pair of the wanted position stands in the sorted list.
        let target = ranked@[wanted];
        assert(ranked@.contains(target));
        to_multiset_contains(ranked@, target);
        to_multiset_contains(sorted@, target);
        let p = choose|p: int| 0 <= p < sorted@.len() && sorted@[p] == target;
        assert(target.1 == wanted);
        assert(numbers[q] == first.0);
        assert(numbers[wanted] == target.0);
        if p > 0 {
            assert(sorted@[0].0 <= sorted@[p].0);
            assert(numbers[wanted] <= numbers[q]);
            assert(sorted@[0].1 < sorted@[p].1);
            assert(q < wanted);
            assert(numbers[wanted] < numbers[q]);
        }
    }
    first.1
}

/// Finds the interaction that a request belongs to. Each interaction is
/// ranked by the number of different kinds of mismatch that its request
/// has with the one that arrived; the first of the least rank counts.
pub fn match_request(req: &Request, interactions: &Vec<Interaction>) -> (result: MatchResult)
    ensures
        result@ == dispatched(req@, views(interactions@)),
{
    if interactions.len() == 0 {
        return MatchResult::RequestNotFound(req.clone());
    }
    let ghost all = ranks(req@, views(interactions@));
    let mut found: Vec<Vec<Mismatch>> = Vec::new();
    let mut ranked: Vec<(usize, usize)> = Vec::new();
    let mut i: usize = 0;
    while i < interactions.len()
        invariant
            i <= interactions.len(),
            all == ranks(req@, views(interactions@)),
            found@.len() == i,
            ranked@.len() == i,
            forall|k: int|
                0 <= k < i ==> views((#[trigger] found@[k])@) == request_mismatches(
                    interactions@[k]@.request,
                    req@,
                ),
            forall|k: int| 0 <= k < i ==> (#[trigger] ranked@[k]).1 == k && ranked@[k].0 == all[k],
        decreases interactions.len() - i,
    {
        let mismatches = crate::matching::match_request(&interactions[i].request, req);
        let codes = codes_of(&mismatches);
        let n = distinct_count(&codes);
        found.push(mismatches);
        ranked.push((n, i));
        i = i + 1;
    }
    let best = least_rank(&ranked);
    proof {
        assert(Seq::new(ranked@.len(), |k: int| ranked@[k].0 as nat) =~= all);
    }
    let mismatches = &found[best];
    if mismatches.len() == 0 {
        MatchResult::RequestMatch(interactions[best].clone())
    } else if method_or_path_mismatch(mismatches) {
        MatchResult::RequestNotFound(req.clone())
    } else {
        MatchResult::RequestMismatch(interactions[best].clone(), clone_mismatches(mismatches))
    }
}

/// Adding an interaction at the end of a pact does not change the outcome
/// for a request that matches one of the interactions that are there.
pub proof fn dispatch_is_monotonic(
    request: RequestView,
    interactions: Seq<InteractionView>,
    added: InteractionView,
)
    requires
        dispatched(request, interactions) is RequestMatch,
    ensures
        dispatched(request, interactions.push(added)) == dispatched(request, interactions),
{
    let n = interactions.len() as int;
    let before = ranks(request, interactions);
    let after = ranks(request, interactions.push(added));
    let best = first_least(before, n);
    assert(0 <= best < n);
    let found = request_mismatches(interactions[best].request, request);
    assert(found.len() == 0);
    assert(kind_codes(found) =~= Seq::<u8>::empty());
    assert(kind_codes(found).to_set() =~= Set::<u8>::empty());
    assert(before[best] == 0);
    first_least_of_prefix(after, before, n);
    assert(interactions.push(added)[best] == interactions[best]);
}

/// `first_least` among the first `n` numbers looks at no others.
pub proof fn first_least_of_prefix(a: Seq<nat>, b: Seq<nat>, n: int)
    requires
        0 <= n <= a.len(),
        n <= b.len(),
        forall|k: int| 0 <= k < n ==> a[k] == b[k],
    ensures
        first_least(a, n) == first_least(b, n),
        -1 <= first_least(a, n) < n || n == 0,
    decreases n,
{
    if n > 0 {
        first_least_of_prefix(a, b, n - 1);
    }
}

/// The answer of the mock server to one request.
#[derive(Debug)]
pub struct MockResponse {
    /// The status code.
    pub status: u16,
    /// The headers, each name once.
    pub headers: Vec<(String, String)>,
    /// The body.
    pub body: Vec<u8>,
}

/// The mathematical value of a `MockResponse`.
pub struct MockResponseView {
    pub status: u16,
    pub headers: Seq<(Seq<char>, Seq<char>)>,
    pub body: Seq<u8>,
}

impl View for MockResponse {
    type V = MockResponseView;

    open spec fn view(&self) -> MockResponseView {
        MockResponseView { status: self.status, headers: pairs_view(self.headers@), body: self.body@ }
    }
}

/// The form in which the `http` crate keeps a header name, where it
/// accepts the name.
pub uninterp spec fn canonical_header_name(name: Seq<char>) -> Option<Seq<char>>;

/// Whether the `http` crate lets a byte stand in a header value.
pub open spec fn is_value_byte(b: u8) -> bool {
    (b >= 32 && b != 127) || b == 9
}

/// Whether the `http` crate accepts a text as a header value.
pub open spec fn valid_header_value(value: Seq<char>) -> bool {
    forall|i: int| 0 <= i < encode_utf8(value).len() ==> is_value_byte(#[trigger] encode_utf8(value)[i])
}

/// Whether a number is a status code for the `http` crate.
pub open spec fn valid_status(status: u16) -> bool {
    100 <= status < 1000
}

/// `HeaderName::from_bytes`, and the text of the name that it gives: the
/// name in the form in which the crate keeps it, or nothing where the
/// crate refuses the name. Either depends on the name alone.
#[verifier::external_body]
fn header_name(name: &str) -> (r: Option<String>)
    ensures
        option_text(r) == canonical_header_name(name@),
{
    http::header::HeaderName::from_bytes(name.as_bytes()).ok().map(|n| n.as_str().to_string())
}

/// `HeaderValue::from_str`: it accepts a text whose bytes are all tabs or
/// at least 32 and not 127.
#[verifier::external_body]
fn header_value_is_valid(value: &str) -> (r: bool)
    ensures
        r == valid_header_value(value@),
{
    http::header::HeaderValue::from_str(value).is_ok()
}

/// `StatusCode::from_u16`: it accepts the numbers from 100 to 999.
#[verifier::external_body]
fn status_is_valid(status: u16) -> (r: bool)
    ensures
        r == valid_status(status),
{
    http::StatusCode::from_u16(status).is_ok()
}

/// Headers with a value for a name: in place of the value that the name
/// had, or at the end where it had none.
pub open spec fn with_header(
    headers: Seq<(Seq<char>, Seq<char>)>,
    name: Seq<char>,
    value: Seq<char>,
) -> Seq<(Seq<char>, Seq<char>)> {
    let at = key_position(headers, name, 0);
    if 0 <= at < headers.len() {
        headers.update(at, (name, value))
    } else {
        headers.push((name, value))
    }
}

/// The headers of a response once those from position `i` on of an
/// expected response are set, each under the form of its name that the
/// `http` crate keeps. A name or a value that the crate refuses is an
/// error.
pub open spec fn with_headers_from(
    base: Seq<(Seq<char>, Seq<char>)>,
    headers: Seq<(Seq<char>, Seq<char>)>,
    i: int,
) -> Result<Seq<(Seq<char>, Seq<char>)>, MockRequestError>
    decreases headers.len() - i,
{
    if i < 0 || i >= headers.len() {
        Ok(base)
    } else {
        match canonical_header_name(headers[i].0) {
            None => Err(MockRequestError::ResponseHeaderEncodingError),
            Some(name) => if valid_header_value(headers[i].1) {
                with_headers_from(with_header(base, name, headers[i].1), headers, i + 1)
            } else {
                Err(MockRequestError::ResponseHeaderEncodingError)
            },
        }
    }
}

/// The headers of a response once those of an expected response are set.
pub open spec fn with_headers(
    base: Seq<(Seq<char>, Seq<char>)>,
    headers: Option<Seq<(Seq<char>, Seq<char>)>>,
) -> Result<Seq<(Seq<char>, Seq<char>)>, MockRequestError> {
    match headers {
        Some(h) => with_headers_from(base, h, 0),
        None => Ok(base),
    }
}

/// Headers or an error, the headers taken by their characters.
pub open spec fn table_result_view(r: Result<Vec<(String, String)>, MockRequestError>) -> Result<
    Seq<(Seq<char>, Seq<char>)>,
    MockRequestError,
> {
    match r {
        Ok(h) => Ok(pairs_view(h@)),
        Err(e) => Err(e),
    }
}

/// Sets the headers of an expected response on the headers of an answer.
/// A header whose name or value is not well formed is an error.
pub fn set_headers(base: Vec<(String, String)>, headers: &Option<Vec<(String, String)>>) -> (r:
    Result<Vec<(String, String)>, MockRequestError>)
    ensures
        table_result_view(r) == with_headers(pairs_view(base@), option_pairs(*headers)),
{
    let mut out = base;
    match headers {
        None => Ok(out),
        Some(h) => {
            let ghost all = pairs_view(h@);
            let ghost start = pairs_view(out@);
            let mut i: usize = 0;
            while i < h.len()
                invariant
                    i <= h.len(),
                    all == pairs_view(h@),
                    start == pairs_view(base@),
                    option_pairs(*headers) == Some(all),
                    with_headers_from(start, all, 0) == with_headers_from(
                        pairs_view(out@),
                        all,
                        i as int,
                    ),
                decreases h.len() - i,
            {
                let ghost before = pairs_view(out@);
                match header_name(h[i].0.as_str()) {
                    None => {
                        return Err(MockRequestError::ResponseHeaderEncodingError);
                    },
                    Some(name) => {
                        if !header_value_is_valid(h[i].1.as_str()) {
                            return Err(MockRequestError::ResponseHeaderEncodingError);
                        }
                        let at = find_pair(&out, name.as_str());
                        let value = h[i].1.clone();
                        if at < out.len() {
                            out.set(at, (name, value));
                            assert(pairs_view(out@) =~= before.update(at as int, (name@, value@)));
                        } else {
                            out.push((name, value));
                            assert(pairs_view(out@) =~= before.push((name@, value@)));
                        }
                    },
                }
                i = i + 1;
            }
            Ok(out)
        },
    }
}

/// A mismatch as a JSON object: its kind under `type`, then what it
/// carries.
pub open spec fn mismatch_json(mismatch: MismatchView) -> JsonValue {
    let kind = ("type"@, JsonValue::Str(kind_name(mismatch.kind())));
    match mismatch {
        MismatchView::MethodMismatch { expected, actual } => JsonValue::Object(
            seq![
                kind,
                ("expected"@, JsonValue::Str(expected)),
                ("actual"@, JsonValue::Str(actual)),
            ],
        ),
        MismatchView::PathMismatch { expected, actual, mismatch } => JsonValue::Object(
            seq![
                kind,
                ("expected"@, JsonValue::Str(expected)),
                ("actual"@, JsonValue::Str(actual)),
                ("mismatch"@, JsonValue::Str(mismatch)),
            ],
        ),
        MismatchView::StatusMismatch { expected, actual } => JsonValue::Object(
            seq![
                kind,
                ("expected"@, JsonValue::Number(decimal(expected as nat))),
                ("actual"@, JsonValue::Number(decimal(actual as nat))),
            ],
        ),
        MismatchView::QueryMismatch { parameter, expected, actual, mismatch } => JsonValue::Object(
            seq![
                kind,
                ("parameter"@, JsonValue::Str(parameter)),
                ("expected"@, JsonValue::Str(expected)),
                ("actual"@, JsonValue::Str(actual)),
                ("mismatch"@, JsonValue::Str(mismatch)),
            ],
        ),
        MismatchView::HeaderMismatch { key, expected, actual, mismatch } => JsonValue::Object(
            seq![
                kind,
                ("key"@, JsonValue::Str(key)),
                ("expected"@, JsonValue::Str(expected)),
                ("actual"@, JsonValue::Str(actual)),
                ("mismatch"@, JsonValue::Str(mismatch)),
            ],
        ),
        MismatchView::BodyTypeMismatch { expected, actual } => JsonValue::Object(
            seq![
                kind,
                ("expected"@, JsonValue::Str(expected)),
                ("actual"@, JsonValue::Str(actual)),
            ],
        ),
        MismatchView::BodyMismatch { path, expected, actual, mismatch } => JsonValue::Object(
            seq![
                kind,
                ("path"@, JsonValue::Str(path)),
                ("expected"@, JsonValue::Str(expected)),
                ("actual"@, JsonValue::Str(actual)),
                ("mismatch"@, JsonValue::Str(mismatch)),
            ],
        ),
    }
}

/// A list of mismatches as a JSON array of objects.
pub open spec fn mismatches_json(mismatches: Seq<MismatchView>) -> JsonValue {
    JsonValue::Array(Seq::new(mismatches.len(), |i: int| mismatch_json(mismatches[i])))
}

fn member(name: &str, value: &str) -> (m: (String, Json))
    ensures
        m.0@ == name@,
        m.1@ == JsonValue::Str(value@),
{
    (String::from_str(name), Json::Str(String::from_str(value)))
}

fn number_member(name: &str, value: u16) -> (m: (String, Json))
    ensures
        m.0@ == name@,
        m.1@ == JsonValue::Number(decimal(value as nat)),
{
    (String::from_str(name), Json::Number(decimal_text(value as usize)))
}

fn object_of(members: Vec<(String, Json)>) -> (j: Json)
    ensures
        j@ == JsonValue::Object(Seq::new(members@.len(), |i: int| (members@[i].0@, members@[i].1@))),
{
    let j = Json::Object(members);
    assert(j@->Object_0 =~= Seq::new(members@.len(), |i: int| (members@[i].0@, members@[i].1@)));
    j
}

/// A mismatch as a JSON object.
pub fn mismatch_to_json(mismatch: &Mismatch) -> (j: Json)
    ensures
        j@ == mismatch_json(mismatch@),
{
    let mut members: Vec<(String, Json)> = Vec::new();
    members.push(member("type", mismatch.mismatch_type().as_str()));
    match mismatch {
        Mismatch::MethodMismatch { expected, actual } => {
            members.push(member("expected", expected.as_str()));
            members.push(member("actual", actual.as_str()));
        },
        Mismatch::PathMismatch { expected, actual, mismatch } => {
            members.push(member("expected", expected.as_str()));
            members.push(member("actual", actual.as_str()));
            members.push(member("mismatch", mismatch.as_str()));
        },
        Mismatch::StatusMismatch { expected, actual } => {
            members.push(number_member("expected", *expected));
            members.push(number_member("actual", *actual));
        },
        Mismatch::QueryMismatch { parameter, expected, actual, mismatch } => {
            members.push(member("parameter", parameter.as_str()));
            members.push(member("expected", expected.as_str()));
            members.push(member("actual", actual.as_str()));
            members.push(member("mismatch", mismatch.as_str()));
        },
        Mismatch::HeaderMismatch { key, expected, actual, mismatch } => {
            members.push(member("key", key.as_str()));
            members.push(member("expected", expected.as_str()));
            members.push(member("actual", actual.as_str()));
            members.push(member("mismatch", mismatch.as_str()));
        },
        Mismatch::BodyTypeMismatch { expected, actual } => {
            members.push(member("expected", expected.as_str()));
            members.push(member("actual", actual.as_str()));
        },
        Mismatch::BodyMismatch { path, expected, actual, mismatch } => {
            members.push(member("path", path.as_str()));
            members.push(member("expected", expected.as_str()));
            members.push(member("actual", actual.as_str()));
            members.push(member("mismatch", mismatch.as_str()));
        },
    }
    let j = object_of(members);
    assert(j@->Object_0 =~= mismatch_json(mismatch@)->Object_0);
    j
}

/// A list of mismatches as a JSON array of objects.
pub fn mismatches_to_json(mismatches: &Vec<Mismatch>) -> (j: Json)
    ensures
        j@ == mismatches_json(views(mismatches@)),
{
    let mut items: Vec<Json> = Vec::new();
    let mut i: usize = 0;
    while i < mismatches.len()
        invariant
            i <= mismatches.len(),
            items@.len() == i,
            forall|k: int| 0 <= k < i ==> (#[trigger] items@[k])@ == mismatch_json(mismatches@[k]@),
        decreases mismatches.len() - i,
    {
        items.push(mismatch_to_json(&mismatches[i]));
        i = i + 1;
    }
    let j = Json::Array(items);
    assert(j@->Array_0 =~= mismatches_json(views(mismatches@))->Array_0);
    j
}

/// The bytes of the body of an expected response: those that it holds,
/// or none.
pub open spec fn body_bytes(body: BodyView) -> Seq<u8> {
    match body {
        BodyView::Present(bytes) => bytes,
        _ => Seq::empty(),
    }
}

/// The answer that goes back for an outcome. For a match it is the
/// expected response with the header that lets any origin read it; a
/// status that is no status code and a header that is not well formed
/// are errors. For a mismatch it is status 500 with the mismatches as
/// JSON, and for a request that belongs nowhere status 500 with a fixed
/// text.
pub open spec fn response_for(result: MatchResultView) -> Result<MockResponseView, MockRequestError> {
    match result {
        MatchResultView::RequestMatch(interaction) => if !valid_status(
            interaction.response.status,
        ) {
            Err(MockRequestError::ResponseBodyError)
        } else {
            match with_headers(
                seq![("access-control-allow-origin"@, "*"@)],
                interaction.response.headers,
            ) {
                Err(e) => Err(e),
                Ok(headers) => Ok(
                    MockResponseView {
                        status: interaction.response.status,
                        headers,
                        body: body_bytes(interaction.response.body),
                    },
                ),
            }
        },
        MatchResultView::RequestMismatch(_, mismatches) => Ok(
            MockResponseView {
                status: 500,
                headers: Seq::empty(),
                body: encode_utf8(json_text(mismatches_json(mismatches))),
            },
        ),
        MatchResultView::RequestNotFound(_) => Ok(
            MockResponseView {
                status: 500,
                headers: Seq::empty(),
                body: encode_utf8("No matching interaction"@),
            },
        ),
    }
}

/// An answer or an error, the answer taken by its view.
pub open spec fn response_result_view(r: Result<MockResponse, MockRequestError>) -> Result<
    MockResponseView,
    MockRequestError,
> {
    match r {
        Ok(response) => Ok(response@),
        Err(e) => Err(e),
    }
}

fn text_response(status: u16, text: &str) -> (response: MockResponse)
    ensures
        response@ == (MockResponseView {
            status,
            headers: Seq::empty(),
            body: encode_utf8(text@),
        }),
{
    let headers: Vec<(String, String)> = Vec::new();
    assert(pairs_view(headers@) =~= Seq::<(Seq<char>, Seq<char>)>::empty());
    MockResponse { status, headers, body: text.as_bytes_vec() }
}

/// Builds the answer that goes back for an outcome.
pub fn match_result_to_response(result: &MatchResult) -> (r: Result<
    MockResponse,
    MockRequestError,
>)
    ensures
        response_result_view(r) == response_for(result@),
{
    match result {
        MatchResult::RequestMatch(interaction) => {
            let response = &interaction.response;
            if !status_is_valid(response.status) {
                return Err(MockRequestError::ResponseBodyError);
            }
            let mut base: Vec<(String, String)> = Vec::new();
            base.push((String::from_str("access-control-allow-origin"), String::from_str("*")));
            assert(pairs_view(base@) =~= seq![("access-control-allow-origin"@, "*"@)]);
            match set_headers(base, &response.headers) {
                Err(e) => Err(e),
                Ok(headers) => {
                    let body: Vec<u8> = match &response.body {
                        OptionalBody::Present(bytes) => bytes.clone(),
                        _ => Vec::new(),
                    };
                    Ok(MockResponse { status: response.status, headers, body })
                },
            }
        },
        MatchResult::RequestMismatch(_, mismatches) => {
            let text = mismatches_to_json(mismatches).to_text();
            Ok(text_response(500, text.as_str()))
        },
        MatchResult::RequestNotFound(_) => Ok(text_response(500, "No matching interaction")),
    }
}

/// The answer that goes back where a request could not be answered as
/// expected: status 400 for a header of the request that is no text,
/// status 500 for the rest, each with its own text.
pub open spec fn error_response(error: MockRequestError) -> MockResponseView {
    match error {
        MockRequestError::InvalidHeaderEncoding => MockResponseView {
            status: 400,
            headers: Seq::empty(),
            body: encode_utf8("Found an invalid header encoding"@),
        },
        MockRequestError::RequestBodyError => MockResponseView {
            status: 500,
            headers: Seq::empty(),
            body: encode_utf8("Could not process request body"@),
        },
        MockRequestError::ResponseBodyError => MockResponseView {
            status: 500,
            headers: Seq::empty(),
            body: encode_utf8("Could not process response body"@),
        },
        MockRequestError::ResponseHeaderEncodingError => MockResponseView {
            status: 500,
            headers: Seq::empty(),
            body: encode_utf8("Could not set response header"@),
        },
    }
}

/// Turns an error into the answer that reports it, and lets an answer
/// pass.
pub fn handle_mock_request_error(result: Result<MockResponse, MockRequestError>) -> (response:
    MockResponse)
    ensures
        response@ == (match result {
            Ok(answer) => answer@,
            Err(error) => error_response(error),
        }),
{
    match result {
        Ok(answer) => answer,
        Err(error) => match error {
            MockRequestError::InvalidHeaderEncoding => text_response(
                400,
                "Found an invalid header encoding",
            ),
            MockRequestError::RequestBodyError => text_response(
                500,
                "Could not process request body",
            ),
            MockRequestError::ResponseBodyError => text_response(
                500,
                "Could not process response body",
            ),
            MockRequestError::ResponseHeaderEncodingError => text_response(
                500,
                "Could not set response header",
            ),
        },
    }
}

/// What the mock server does with one request: the answer that goes
/// back, and the entry for the record. A request that can be read is
/// recorded with its outcome, whatever becomes of the answer; one that
/// cannot is recorded with the error.
pub open spec fn handled(
    method: Seq<char>,
    uri: Option<UriParts>,
    headers: Seq<RawHeader>,
    body: Option<Seq<u8>>,
    interactions: Seq<InteractionView>,
) -> (MockResponseView, EntryView) {
    match pact_request_of(method, uri, headers, body) {
        Err(error) => (error_response(error), EntryView::Failed(error)),
        Ok(request) => {
            let outcome = dispatched(request, interactions);
            (
                match response_for(outcome) {
                    Ok(answer) => answer,
                    Err(error) => error_response(error),
                },
                EntryView::Handled(request, outcome),
            )
        },
    }
}

/// Handles one request: reads it, finds the interaction it belongs to,
/// and builds the answer. Beside the answer comes the entry for the
/// record.
pub fn handle_request(
    method: &str,
    uri: &Option<UriParts>,
    headers: &Vec<RawHeader>,
    body: Option<Vec<u8>>,
    interactions: &Vec<Interaction>,
) -> (r: (MockResponse, ReportEntry))
    ensures
        (r.0@, r.1@) == handled(
            method@,
            *uri,
            headers@,
            option_bytes(body),
            views(interactions@),
        ),
{
    match to_pact_request(method, uri, headers, body) {
        Err(error) => (handle_mock_request_error(Err(error)), ReportEntry::Failed(error)),
        Ok(request) => {
            let outcome = match_request(&request, interactions);
            let answer = handle_mock_request_error(match_result_to_response(&outcome));
            (answer, ReportEntry::Handled(request, outcome))
        },
    }
}

} // verus!
