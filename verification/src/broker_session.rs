//! Fetching the pacts of a provider from a pact broker, one request after
//! the other: the root document, the list of the provider's pacts, then
//! each pact.

use crate::broker::{
    fetched, link_path, listed_links, named_link_path, BrokerErrorView, FetchOutcome, HALClient,
    Link, LinkView, PactBrokerError,
};
use crate::json::{option_json, JsonValue};
use crate::pact::{pact_of_json, Pact, PactView};
use crate::text::{concat5, debug_quoted, debug_text, pairs_view, result_view, views};
use vstd::prelude::*;

verus! {

/// Where the fetching stands.
#[derive(Debug, Clone, Copy, PartialEq, Eq, Structural)]
pub enum Stage {
    /// The root document has been asked for.
    Root,
    /// The list of the provider's pacts has been asked for.
    ProviderPacts,
    /// A pact has been asked for.
    Pact,
    /// All is done.
    Finished,
}

/// What is to be done next.
#[derive(Debug)]
pub enum BrokerAction {
    /// Ask the broker for this path and hand back what comes.
    Fetch(String),
    /// Nothing more: this is what the fetching gave.
    Done(Result<Vec<Result<Pact, PactBrokerError>>, PactBrokerError>),
}

/// The mathematical value of a `BrokerAction`.
pub enum ActionView {
    Fetch(Seq<char>),
    Done(Result<Seq<Result<PactView, BrokerErrorView>>, BrokerErrorView>),
}

/// The views of the pacts and errors of a list.
pub open spec fn pacts_view(pacts: Seq<Result<Pact, PactBrokerError>>) -> Seq<
    Result<PactView, BrokerErrorView>,
> {
    Seq::new(pacts.len(), |i: int| result_view(pacts[i]))
}

impl View for BrokerAction {
    type V = ActionView;

    open spec fn view(&self) -> ActionView {
        match self {
            BrokerAction::Fetch(path) => ActionView::Fetch(path@),
            BrokerAction::Done(Ok(pacts)) => ActionView::Done(Ok(pacts_view(pacts@))),
            BrokerAction::Done(Err(e)) => ActionView::Done(Err(e@)),
        }
    }
}

/// The fetching of the pacts of one provider.
#[derive(Debug)]
pub struct PactFetch {
    /// The client, with the document fetched last.
    pub client: HALClient,
    /// The name of the provider.
    pub provider: String,
    /// The values for the templates of links.
    pub values: Vec<(String, String)>,
    /// Where the fetching stands.
    pub stage: Stage,
    /// The path that was asked for last.
    pub path: String,
    /// The links to the pacts.
    pub links: Vec<Link>,
    /// The position of the link whose pact was asked for last.
    pub next: usize,
    /// The pacts fetched so far, and the errors in place of those that
    /// could not be fetched.
    pub pacts: Vec<Result<Pact, PactBrokerError>>,
}

/// The mathematical value of a `PactFetch`.
pub struct FetchView {
    pub url: Seq<char>,
    pub path_info: Option<JsonValue>,
    pub provider: Seq<char>,
    pub values: Seq<(Seq<char>, Seq<char>)>,
    pub stage: Stage,
    pub path: Seq<char>,
    pub links: Seq<LinkView>,
    pub next: int,
    pub pacts: Seq<Result<PactView, BrokerErrorView>>,
}

impl View for PactFetch {
    type V = FetchView;

    open spec fn view(&self) -> FetchView {
        FetchView {
            url: self.client.url@,
            path_info: option_json(self.client.path_info),
            provider: self.provider@,
            values: pairs_view(self.values@),
            stage: self.stage,
            path: self.path@,
            links: views(self.links@),
            next: self.next as int,
            pacts: pacts_view(self.pacts@),
        }
    }
}

/// The message for a provider of which the broker has no pacts.
pub open spec fn no_pacts_message(provider: Seq<char>, url: Seq<char>) -> Seq<char> {
    "No pacts for provider '"@ + provider + "' where found in the pact broker. URL: '"@ + url
        + "'"@
}

/// The error that is reported for an error on the way to the list of
/// pacts: that the provider has no pacts where something was not found,
/// and the error itself in any other case.
pub open spec fn reported(error: BrokerErrorView, provider: Seq<char>, url: Seq<char>) -> BrokerErrorView {
    match error {
        BrokerErrorView::NotFound(_) => BrokerErrorView::NotFound(no_pacts_message(provider, url)),
        _ => error,
    }
}

/// A link as the standard library's `Debug` shows a structure of its
/// name and fields, for a link without `href`.
pub open spec fn shown_link(link: LinkView) -> Seq<char> {
    "Link { name: "@ + debug_quoted(link.name) + ", href: None, templated: "@ + (if link.templated {
        "true"@
    } else {
        "false"@
    }) + " }"@
}

/// The message for a link to a pact that has no `href`.
pub open spec fn no_pact_href_message(url: Seq<char>, link: LinkView) -> Seq<char> {
    "Expected a HAL+JSON response from the pact broker, but got a link with no HREF. URL: '"@
        + url + "', LINK: '"@ + shown_link(link) + "'"@
}

/// What is known of a link to a pact before anything is fetched: the
/// path to ask for, or the error that stands in place of the pact.
pub open spec fn pact_path(url: Seq<char>, link: LinkView, values: Seq<(Seq<char>, Seq<char>)>) -> Result<
    Seq<char>,
    BrokerErrorView,
> {
    match link.href {
        Some(_) => link_path(url, link, values),
        None => Err(BrokerErrorView::LinkError(no_pact_href_message(url, link))),
    }
}

/// The state and the action once the links from position `from` on are
/// gone through, as far as that takes no request: each link that gives
/// no path adds its error; the first that gives one is asked for; and
/// with no link left the fetching is done.
pub open spec fn continued(state: FetchView, from: int) -> (FetchView, ActionView)
    decreases state.links.len() - from,
{
    if from < 0 || from >= state.links.len() {
        (
            FetchView { stage: Stage::Finished, next: state.links.len() as int, ..state },
            ActionView::Done(Ok(state.pacts)),
        )
    } else {
        match pact_path(state.url, state.links[from], state.values) {
            Ok(path) => (
                FetchView { stage: Stage::Pact, next: from, path, ..state },
                ActionView::Fetch(path),
            ),
            Err(e) => continued(FetchView { pacts: state.pacts.push(Err(e)), ..state }, from + 1),
        }
    }
}

/// The state in which nothing is left to do but to report an error.
pub open spec fn failed(state: FetchView, error: BrokerErrorView) -> (FetchView, ActionView) {
    (FetchView { stage: Stage::Finished, ..state }, ActionView::Done(Err(error)))
}

/// The state and the action that follow when the answer to the last
/// request has come.
pub open spec fn advanced(state: FetchView, outcome: FetchOutcome) -> (FetchView, ActionView) {
    match state.stage {
        Stage::Root => match fetched(state.url, state.path, outcome) {
            Err(e) => failed(state, reported(e, state.provider, state.url)),
            Ok(document) => {
                let now = FetchView { path_info: Some(document), ..state };
                match named_link_path(
                    state.url,
                    Some(document),
                    "pb:latest-provider-pacts"@,
                    state.values,
                ) {
                    Err(e) => failed(now, reported(e, state.provider, state.url)),
                    Ok(path) => (
                        FetchView { stage: Stage::ProviderPacts, path, ..now },
                        ActionView::Fetch(path),
                    ),
                }
            },
        },
        Stage::ProviderPacts => match fetched(state.url, state.path, outcome) {
            Err(e) => failed(state, reported(e, state.provider, state.url)),
            Ok(document) => {
                let now = FetchView { path_info: Some(document), ..state };
                match listed_links(state.url, Some(document), "pacts"@) {
                    Err(e) => failed(now, e),
                    Ok(links) => continued(FetchView { links, pacts: Seq::empty(), ..now }, 0),
                }
            },
        },
        Stage::Pact => {
            let pact: Result<PactView, BrokerErrorView> = match fetched(
                state.url,
                state.path,
                outcome,
            ) {
                Ok(document) => Ok(pact_of_json(document)),
                Err(e) => Err(e),
            };
            continued(FetchView { pacts: state.pacts.push(pact), ..state }, state.next + 1)
        },
        Stage::Finished => (state, ActionView::Done(Ok(state.pacts))),
    }
}

fn report(error: PactBrokerError, provider: &str, url: &str) -> (shown: PactBrokerError)
    ensures
        shown@ == reported(error@, provider@, url@),
{
    match error {
        PactBrokerError::NotFound(_) => PactBrokerError::NotFound(
            concat5(
                "No pacts for provider '",
                provider,
                "' where found in the pact broker. URL: '",
                url,
                "'",
            ),
        ),
        other => other,
    }
}

fn show_link(link: &Link) -> (text: String)
    ensures
        text@ == shown_link(link@),
{
    let mut text = String::from_str("Link { name: ");
    text.append(debug_text(link.name.as_str()).as_str());
    text.append(", href: None, templated: ");
    if link.templated {
        text.append("true");
    } else {
        text.append("false");
    }
    text.append(" }");
    text
}

fn clone_pacts(pacts: &Vec<Result<Pact, PactBrokerError>>) -> (copy: Vec<
    Result<Pact, PactBrokerError>,
>)
    ensures
        pacts_view(copy@) == pacts_view(pacts@),
{
    let mut copy: Vec<Result<Pact, PactBrokerError>> = Vec::new();
    let mut i: usize = 0;
    while i < pacts.len()
        invariant
            i <= pacts.len(),
            copy@.len() == i,
            forall|k: int| 0 <= k < i ==> result_view(#[trigger] copy@[k]) == result_view(pacts@[k]),
        decreases pacts.len() - i,
    {
        let item = match &pacts[i] {
            Ok(pact) => Ok(pact.clone()),
            Err(e) => Err(e.clone()),
        };
        copy.push(item);
        i = i + 1;
    }
    assert(pacts_view(copy@) =~= pacts_view(pacts@));
    copy
}

impl PactFetch {
    /// Starts the fetching of the pacts of a provider from the broker at
    /// `broker_url`. The first thing to ask for is the root document.
    pub fn start(broker_url: &String, provider_name: &String) -> (r: (PactFetch, BrokerAction))
        ensures
            r.0@ == (FetchView {
                url: broker_url@,
                path_info: None,
                provider: provider_name@,
                values: seq![("provider"@, provider_name@)],
                stage: Stage::Root,
                path: "/"@,
                links: Seq::empty(),
                next: 0,
                pacts: Seq::empty(),
            }),
            r.1@ == ActionView::Fetch("/"@),
    {
        let mut values: Vec<(String, String)> = Vec::new();
        values.push((String::from_str("provider"), provider_name.clone()));
        assert(pairs_view(values@) =~= seq![("provider"@, provider_name@)]);
        let fetch = PactFetch {
            client: HALClient::new(broker_url.as_str()),
            provider: provider_name.clone(),
            values,
            stage: Stage::Root,
            path: String::from_str("/"),
            links: Vec::new(),
            next: 0,
            pacts: Vec::new(),
        };
        assert(views(fetch.links@) =~= Seq::<LinkView>::empty());
        assert(pacts_view(fetch.pacts@) =~= Seq::<Result<PactView, BrokerErrorView>>::empty());
        (fetch, BrokerAction::Fetch(String::from_str("/")))
    }

    fn fail(&mut self, error: PactBrokerError) -> (action: BrokerAction)
        ensures
            (final(self)@, action@) == failed(old(self)@, error@),
    {
        self.stage = Stage::Finished;
        BrokerAction::Done(Err(error))
    }

    fn go_on(&mut self, from: usize) -> (action: BrokerAction)
        requires
            from <= old(self).links@.len(),
        ensures
            (final(self)@, action@) == continued(old(self)@, from as int),
    {
        let mut at: usize = from;
        loop
            invariant
                from <= at <= self.links@.len(),
                continued(old(self)@, from as int) == continued(self@, at as int),
            decreases self.links@.len() - at,
        {
            if at >= self.links.len() {
                self.stage = Stage::Finished;
                self.next = self.links.len();
                return BrokerAction::Done(Ok(clone_pacts(&self.pacts)));
            }
            let ghost before = self@;
            let found = match &self.links[at].href {
                Some(_) => self.client.fetch_url(&self.links[at], &self.values),
                None => Err(
                    PactBrokerError::LinkError(
                        concat5(
                            "Expected a HAL+JSON response from the pact broker, but got a link with no HREF. URL: '",
                            self.client.url.as_str(),
                            "', LINK: '",
                            show_link(&self.links[at]).as_str(),
                            "'",
                        ),
                    ),
                ),
            };
            match found {
                Ok(path) => {
                    self.stage = Stage::Pact;
                    self.next = at;
                    self.path = path.clone();
                    return BrokerAction::Fetch(path);
                },
                Err(e) => {
                    self.pacts.push(Err(e));
                    assert(pacts_view(self.pacts@) =~= before.pacts.push(Err(e@)));
                    at = at + 1;
                },
            }
        }
    }

    /// Takes the answer to the request that was asked for last and says
    /// what is to be done next.
    pub fn advance(&mut self, outcome: &FetchOutcome) -> (action: BrokerAction)
        ensures
            (final(self)@, action@) == advanced(old(self)@, *outcome),
    {
        match self.stage {
            Stage::Root => {
                match self.client.fetch(self.path.as_str(), outcome) {
                    Err(e) => {
                        let shown = report(e, self.provider.as_str(), self.client.url.as_str());
                        self.fail(shown)
                    },
                    Ok(document) => {
                        self.client.path_info = Some(document);
                        match self.client.fetch_link("pb:latest-provider-pacts", &self.values) {
                            Err(e) => {
                                let shown = report(
                                    e,
                                    self.provider.as_str(),
                                    self.client.url.as_str(),
                                );
                                self.fail(shown)
                            },
                            Ok(path) => {
                                self.stage = Stage::ProviderPacts;
                                self.path = path.clone();
                                BrokerAction::Fetch(path)
                            },
                        }
                    },
                }
            },
            Stage::ProviderPacts => {
                match self.client.fetch(self.path.as_str(), outcome) {
                    Err(e) => {
                        let shown = report(e, self.provider.as_str(), self.client.url.as_str());
                        self.fail(shown)
                    },
                    Ok(document) => {
                        self.client.path_info = Some(document);
                        match self.client.iter_links(String::from_str("pacts")) {
                            Err(e) => self.fail(e),
                            Ok(links) => {
                                self.links = links;
                                self.pacts = Vec::new();
                                assert(pacts_view(self.pacts@) =~= Seq::<
                                    Result<PactView, BrokerErrorView>,
                                >::empty());
                                self.go_on(0)
                            },
                        }
                    },
                }
            },
            Stage::Pact => {
                let ghost before = self@;
                let pact = match self.client.fetch(self.path.as_str(), outcome) {
                    Ok(document) => Ok(Pact::from_json(&document)),
                    Err(e) => Err(e),
                };
                self.pacts.push(pact);
                assert(pacts_view(self.pacts@) =~= before.pacts.push(result_view(pact)));
                let from = if self.next < self.links.len() {
                    self.next + 1
                } else {
                    self.links.len()
                };
                self.go_on(from)
            },
            Stage::Finished => BrokerAction::Done(Ok(clone_pacts(&self.pacts))),
        }
    }
}

} // verus!
