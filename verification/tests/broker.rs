use pact_core::broker::{
    content_type, join_paths, json_content_type, BrokerResponse, FetchOutcome, HALClient, Link,
    PactBrokerError,
};
use pact_core::broker_session::{BrokerAction, PactFetch, Stage};
use pact_core::json::Json;
use pact_core::models::{Interaction, OptionalBody};
use pact_core::pact::{Consumer, Pact, Provider};
use pact_core::template::{expand_template, token_value};

const URL: &str = "http://localhost:1234";

fn s(text: &str) -> String {
    text.to_string()
}

fn values(pairs: &[(&str, &str)]) -> Vec<(String, String)> {
    pairs.iter().map(|(k, v)| (s(k), s(v))).collect()
}

fn client() -> HALClient {
    HALClient { url: s(URL), ..HALClient::default() }
}

fn answer(status: u16, status_text: &str, content_type: Option<&str>, body: Option<&str>) -> FetchOutcome {
    FetchOutcome::Answered(BrokerResponse {
        status,
        status_text: s(status_text),
        content_type: content_type.map(s),
        body: match body {
            Some(text) => OptionalBody::Present(text.as_bytes().to_vec()),
            None => OptionalBody::Missing,
        },
    })
}

fn hal(body: &str) -> FetchOutcome {
    answer(200, "200 OK", Some("application/hal+json"), Some(body))
}

fn message_of<T>(result: Result<T, PactBrokerError>) -> String {
    match result {
        Ok(_) => panic!("expected an error"),
        Err(error) => error.message().clone(),
    }
}

#[test]
fn fetch_returns_an_error_if_there_is_no_pact_broker() {
    let client = HALClient { url: s("http://idont.exist:6666"), ..HALClient::default() };
    let result = client.fetch("/", &FetchOutcome::Failed(s("connection refused")));
    assert!(result.is_err());
    assert_eq!(
        message_of(result),
        "Failed to access pact broker path '/' - \"connection refused\". URL: 'http://idont.exist:6666'"
    );
}

#[test]
fn fetch_returns_an_error_if_it_does_not_get_a_success_response() {
    let client = client();
    let result = client.fetch("/hello", &answer(404, "404 Not Found", None, None));
    assert!(matches!(result, Err(PactBrokerError::NotFound(_))));
    assert_eq!(
        message_of(result),
        format!("Request to pact broker path '/hello' failed: 404 Not Found. URL: '{}'", URL)
    );
}

#[test]
fn fetch_reports_other_failures_as_io_errors() {
    let client = client();
    let result = client.fetch("/hello", &answer(500, "500 Internal Server Error", None, None));
    assert!(matches!(result, Err(PactBrokerError::IoError(_))));
    assert_eq!(
        message_of(result),
        format!(
            "Request to pact broker path '/hello' failed: 500 Internal Server Error. URL: '{}'",
            URL
        )
    );
}

#[test]
fn fetch_returns_an_error_if_it_does_not_get_a_hal_response() {
    let client = client();
    let result =
        client.fetch("/nonjson", &answer(200, "200 OK", Some("text/html"), Some("<html></html>")));
    assert!(matches!(result, Err(PactBrokerError::ContentError(_))));
    assert_eq!(
        message_of(result),
        format!(
            "Did not get a HAL response from pact broker path '/nonjson', content type is 'text/html'. URL: '{}'",
            URL
        )
    );
}

fn response_with(content_type: Option<&str>) -> BrokerResponse {
    BrokerResponse {
        status: 200,
        status_text: s("200 OK"),
        content_type: content_type.map(s),
        body: OptionalBody::Missing,
    }
}

#[test]
fn content_type_test() {
    assert_eq!(content_type(&response_with(None)), s("text/plain"));
    assert_eq!(
        content_type(&response_with(Some("application/hal+json; charset=utf-8"))),
        s("application/hal+json; charset=utf-8")
    );
}

#[test]
fn json_content_type_test() {
    assert!(!json_content_type(&response_with(None)));
    assert!(json_content_type(&response_with(Some("application/json"))));
    assert!(json_content_type(&response_with(Some("application/hal+json; charset=utf-8"))));
}

#[test]
fn json_content_type_knows_any_json_suffix() {
    assert!(json_content_type(&response_with(Some("application/vnd.api+json"))));
    assert!(json_content_type(&response_with(Some("Application/JSON"))));
    assert!(json_content_type(&response_with(Some(" application/json ;charset=utf-8"))));
    assert!(!json_content_type(&response_with(Some("application/+json"))));
    assert!(!json_content_type(&response_with(Some("application/jsonx"))));
    assert!(!json_content_type(&response_with(Some("application/json-seq"))));
    assert!(json_content_type(&response_with(Some("application/x+json"))));
    assert!(!json_content_type(&response_with(Some("text/json"))));
    assert!(!json_content_type(&response_with(Some("text/html"))));
    assert!(!json_content_type(&response_with(Some("application/xml"))));
}

#[test]
fn fetch_returns_an_error_if_it_does_not_get_a_valid_hal_response() {
    let client = client();
    let result =
        client.fetch("/nonhal", &answer(200, "200 OK", Some("application/hal+json"), None));
    assert_eq!(
        message_of(result),
        format!(
            "Did not get a valid HAL response body from pact broker path '/nonhal'. URL: '{}'",
            URL
        )
    );
    let result = client.fetch(
        "/nonhal2",
        &answer(200, "200 OK", Some("application/hal+json"), Some("<html>This is not JSON</html>")),
    );
    assert_eq!(
        message_of(result),
        format!(
            "Did not get a valid HAL response body from pact broker path '/nonhal2' - JSON error: expected value at line 1 column 1. URL: '{}'",
            URL
        )
    );
}

#[test]
fn parse_link_url_returns_error_if_there_is_no_href() {
    let client = HALClient::default();
    let link = Link { name: s("link"), href: None, templated: false };
    assert_eq!(
        message_of(client.parse_link_url(&link, &values(&[]))),
        "Expected a HAL+JSON response from the pact broker, but got a link with no HREF. URL: '', LINK: 'link'"
    );
}

#[test]
fn parse_link_url_replaces_all_tokens_in_href() {
    let client = HALClient::default();
    let values = values(&[("valA", "A"), ("valB", "B")]);

    let link = Link { name: s("link"), href: Some(s("http://localhost")), templated: false };
    assert_eq!(client.parse_link_url(&link, &values).unwrap(), "http://localhost");

    let link = Link { name: s("link"), href: Some(s("http://{valA}/{valB}")), templated: false };
    assert_eq!(client.parse_link_url(&link, &values).unwrap(), "http://A/B");

    let link = Link { name: s("link"), href: Some(s("http://{valA}/{valC}")), templated: false };
    assert_eq!(client.parse_link_url(&link, &values).unwrap(), "http://A/{valC}");
}

#[test]
fn templates_keep_what_is_no_token() {
    let values = values(&[("a", "1"), ("a", "2"), ("b_2", "x y")]);
    assert_eq!(expand_template("", &values), "");
    assert_eq!(expand_template("{a}{a}", &values), "11");
    assert_eq!(expand_template("{}", &values), "{}");
    assert_eq!(expand_template("{a", &values), "{a");
    assert_eq!(expand_template("a}", &values), "a}");
    assert_eq!(expand_template("{a-b}", &values), "{a-b}");
    assert_eq!(expand_template("{{a}}", &values), "{1}");
    assert_eq!(expand_template("/p/{b_2}/q", &values), "/p/x y/q");
    assert_eq!(expand_template("{c}{a}", &values), "{c}1");
}

#[test]
fn token_names_are_made_of_word_characters() {
    let values = values(&[("\u{e9}", "E"), ("na\u{ef}ve_1", "N"), ("\u{4e2d}\u{6587}", "Z")]);
    assert_eq!(expand_template("{\u{e9}}", &values), "E");
    assert_eq!(expand_template("/{na\u{ef}ve_1}/{\u{4e2d}\u{6587}}", &values), "/N/Z");
    assert_eq!(expand_template("{\u{e8}}", &values), "{\u{e8}}");
    assert_eq!(expand_template("{a b}{a.b}{}", &values), "{a b}{a.b}{}");
}

#[test]
fn a_token_is_replaced_by_the_value_of_its_name() {
    let values = values(&[("a", "1"), ("a", "2"), ("", "empty")]);
    assert_eq!(token_value(&values, "{a}"), "1");
    assert_eq!(token_value(&values, "{b}"), "{b}");
    assert_eq!(token_value(&values, "{}"), "empty");
    assert_eq!(token_value(&values, "x"), "empty");
    assert_eq!(token_value(&values, ""), "empty");
    assert_eq!(token_value(&vec![], "{a}"), "{a}");
}

#[test]
fn fetch_link_returns_an_error_if_a_previous_resource_has_not_been_fetched() {
    let client = HALClient { url: s("http://localhost"), ..HALClient::default() };
    let result = client.fetch_link("anything_will_do", &values(&[]));
    assert_eq!(
        message_of(result),
        "No previous resource has been fetched from the pact broker. URL: 'http://localhost', LINK: 'anything_will_do'"
    );
}

fn client_after(body: &str) -> HALClient {
    let mut client = client();
    let result = client.fetch("/", &hal(body));
    assert!(result.is_ok());
    client.path_info = result.ok();
    client
}

#[test]
fn fetch_link_returns_an_error_if_the_previous_resource_was_not_hal() {
    let client = client_after("{}");
    let result = client.fetch_link("hal2", &values(&[]));
    assert_eq!(
        message_of(result),
        format!(
            "Expected a HAL+JSON response from the pact broker, but got a response with no '_links'. URL: '{}', LINK: 'hal2'",
            URL
        )
    );
}

#[test]
fn fetch_link_returns_an_error_if_the_previous_resource_links_are_not_correctly_formed() {
    let client =
        client_after("{\"_links\":[{\"next\":{\"href\":\"abc\"}},{\"prev\":{\"href\":\"def\"}}]}");
    let result = client.fetch_link("any", &values(&[]));
    assert_eq!(
        message_of(result),
        format!(
            "Link 'any' was not found in the response, only the following links where found: \"\". URL: '{}', LINK: 'any'",
            URL
        )
    );
}

#[test]
fn fetch_link_returns_an_error_if_the_previous_resource_does_not_have_the_link() {
    let client =
        client_after("{\"_links\":{\"next\":{\"href\":\"/abc\"},\"prev\":{\"href\":\"/def\"}}}");
    let result = client.fetch_link("any", &values(&[]));
    assert_eq!(
        message_of(result),
        format!(
            "Link 'any' was not found in the response, only the following links where found: \"next, prev\". URL: '{}', LINK: 'any'",
            URL
        )
    );
}

#[test]
fn fetch_link_returns_an_error_if_the_link_is_no_object() {
    let client = client_after("{\"_links\":{\"next\":[1,2]}}");
    let result = client.fetch_link("next", &values(&[]));
    assert_eq!(
        message_of(result),
        format!(
            "Link is malformed, expcted an object but got [1,2]. URL: '{}', LINK: 'next'",
            URL
        )
    );
    let result = client.iter_links(s("_links"));
    assert!(result.is_err());
}

#[test]
fn fetch_link_returns_an_error_if_the_link_has_no_href() {
    let client = client_after("{\"_links\":{\"next\":{\"title\":\"x\"}}}");
    let result = client.fetch_link("next", &values(&[]));
    assert!(matches!(result, Err(PactBrokerError::LinkError(_))));
    assert_eq!(
        message_of(result),
        format!("Link is malformed, there is no href. URL: '{}', LINK: 'next'", URL)
    );
}

#[test]
fn fetch_link_returns_an_error_if_the_url_cannot_be_read() {
    let mut client = client_after("{\"_links\":{\"next\":{\"href\":\"/abc\"}}}");
    client.url = s("not a url");
    let result = client.fetch_link("next", &values(&[]));
    assert!(matches!(result, Err(PactBrokerError::UrlError(_))));
    assert_eq!(message_of(result), "relative URL without a base");
}

fn found(body: &str) -> FetchOutcome {
    answer(200, "200 OK", Some("application/json"), Some(body))
}

#[test]
fn fetch_link_returns_the_resource_for_the_link() {
    let client =
        client_after("{\"_links\":{\"next\":{\"href\":\"/abc\"},\"prev\":{\"href\":\"/def\"}}}");
    let path = client.fetch_link("next", &values(&[])).unwrap();
    assert_eq!(path, "/abc");
    let result = client.fetch(&path, &found("\"Yay! You found your way here\""));
    assert_eq!(result.unwrap(), Json::Str(s("Yay! You found your way here")));
}

#[test]
fn fetch_link_returns_handles_absolute_resource_links() {
    let client = client_after(
        "{\"_links\":{\"next\":{\"href\":\"http://localhost/abc\"},\"prev\":{\"href\":\"http://localhost/def\"}}}",
    );
    let path = client.fetch_link("next", &values(&[])).unwrap();
    assert_eq!(path, "/abc");
    let result = client.fetch(&path, &found("\"Yay! You found your way here\""));
    assert_eq!(result.unwrap(), Json::Str(s("Yay! You found your way here")));
}

#[test]
fn fetch_link_returns_the_resource_for_the_templated_link() {
    let client =
        client_after("{\"_links\":{\"document\":{\"href\":\"/doc/{id}\",\"templated\":true}}}");
    let path = client.fetch_link("document", &values(&[("id", "abc")])).unwrap();
    assert_eq!(path, "/doc/abc");
    let result = client.fetch(&path, &found("\"Yay! You found your way here\""));
    assert_eq!(result.unwrap(), Json::Str(s("Yay! You found your way here")));
}

#[test]
fn links_are_read_without_regard_to_the_case_of_href() {
    let client = client_after(
        "{\"_links\":{\"a\":{\"HREF\":\"/x\",\"templated\":\"true\"},\"b\":{\"href\":12,\"templated\":true}}}",
    );
    let a = client.find_link("a").unwrap();
    assert_eq!(a.name, "a");
    assert_eq!(a.href, Some(s("/x")));
    assert!(!a.templated);
    let b = client.find_link("b").unwrap();
    assert_eq!(b.href, Some(s("12")));
    assert!(b.templated);
}

#[test]
fn iter_links_reads_each_entry() {
    let client = client_after(
        "{\"_links\":{\"pacts\":[{\"href\":\"/a\",\"templated\":true},\"/b\",7,{\"name\":\"n\"}]}}",
    );
    let links = client.iter_links(s("pacts")).unwrap();
    assert_eq!(links.len(), 4);
    assert_eq!(links[0].name, "pacts");
    assert_eq!(links[0].href, Some(s("/a")));
    assert!(links[0].templated);
    assert_eq!(links[1].href, Some(s("/b")));
    assert!(!links[1].templated);
    assert_eq!(links[2].href, Some(s("7")));
    assert_eq!(links[3].href, None);
}

#[test]
fn request_urls_have_one_slash_between_base_and_path() {
    assert_eq!(join_paths("http://localhost", "/abc"), "http://localhost/abc");
    assert_eq!(join_paths("http://localhost/", "/abc"), "http://localhost/abc");
    assert_eq!(join_paths("http://localhost//", "abc"), "http://localhost/abc");
    assert_eq!(join_paths("http://localhost", ""), "http://localhost/");
    assert_eq!(join_paths("", "/"), "/");
    assert_eq!(client().request_url("/pacts"), format!("{}/pacts", URL));
}

const ROOT: &str = "{\"_links\":{\"pb:latest-provider-pacts\":{\"href\":\"http://localhost/pacts/provider/{provider}/latest\",\"templated\":true}}}";

fn path_of(action: &BrokerAction) -> String {
    match action {
        BrokerAction::Fetch(path) => path.clone(),
        BrokerAction::Done(_) => panic!("expected something to fetch"),
    }
}

#[test]
fn fetch_pacts_from_broker_returns_empty_list_if_there_are_no_pacts() {
    let (mut fetch, action) = PactFetch::start(&s(URL), &s("sad_provider"));
    assert_eq!(path_of(&action), "/");
    let action = fetch.advance(&hal(ROOT));
    assert_eq!(path_of(&action), "/pacts/provider/sad_provider/latest");
    assert_eq!(fetch.stage, Stage::ProviderPacts);
    let action = fetch.advance(&answer(404, "404 Not Found", None, None));
    match action {
        BrokerAction::Done(Err(PactBrokerError::NotFound(message))) => assert_eq!(
            message,
            format!(
                "No pacts for provider 'sad_provider' where found in the pact broker. URL: '{}'",
                URL
            )
        ),
        other => panic!("unexpected action {:?}", other),
    }
    assert_eq!(fetch.stage, Stage::Finished);
}

#[test]
fn fetch_pacts_from_broker_returns_a_list_of_pacts() {
    let pact = Pact {
        consumer: Consumer { name: s("Consumer") },
        provider: Provider { name: s("happy_provider") },
        ..Pact::default()
    }
    .to_json()
    .to_text();
    let pact2 = Pact {
        consumer: Consumer { name: s("Consumer2") },
        provider: Provider { name: s("happy_provider") },
        interactions: vec![Interaction {
            description: s("a request friends"),
            ..Interaction::default()
        }],
        ..Pact::default()
    }
    .to_json()
    .to_text();

    let (mut fetch, action) = PactFetch::start(&s(URL), &s("happy_provider"));
    assert_eq!(path_of(&action), "/");
    let action = fetch.advance(&hal(ROOT));
    assert_eq!(path_of(&action), "/pacts/provider/happy_provider/latest");
    let action = fetch.advance(&hal(
        "{\"_links\":{\"pacts\":[{\"href\":\"http://localhost/pacts/provider/happy_provider/consumer/Consumer/version/1.0.0\"},{\"href\":\"http://localhost/pacts/provider/happy_provider/consumer/Consumer2/version/1.0.0\"}]}}",
    ));
    assert_eq!(
        path_of(&action),
        "/pacts/provider/happy_provider/consumer/Consumer/version/1.0.0"
    );
    let action = fetch.advance(&found(&pact));
    assert_eq!(
        path_of(&action),
        "/pacts/provider/happy_provider/consumer/Consumer2/version/1.0.0"
    );
    let action = fetch.advance(&found(&pact2));
    match action {
        BrokerAction::Done(Ok(pacts)) => {
            assert_eq!(pacts.len(), 2);
            for pact in &pacts {
                assert!(pact.is_ok());
            }
            let first = pacts[0].as_ref().unwrap();
            assert_eq!(first.consumer.name, "Consumer");
            assert_eq!(first.interactions.len(), 0);
            let second = pacts[1].as_ref().unwrap();
            assert_eq!(second.consumer.name, "Consumer2");
            assert_eq!(second.provider.name, "happy_provider");
            assert_eq!(second.interactions.len(), 1);
            assert_eq!(second.interactions[0].description, "a request friends");
        },
        other => panic!("unexpected action {:?}", other),
    }
}

#[test]
fn fetch_pacts_keeps_an_error_in_place_of_each_pact_that_fails() {
    let (mut fetch, _) = PactFetch::start(&s(URL), &s("p"));
    fetch.advance(&hal(ROOT));
    let action = fetch.advance(&hal(
        "{\"_links\":{\"pacts\":[{\"name\":\"no href\"},{\"href\":\"/one\"},{\"title\":\"t\"}]}}",
    ));
    assert_eq!(path_of(&action), "/one");
    assert_eq!(fetch.next, 1);
    let action = fetch.advance(&answer(500, "500 Internal Server Error", None, None));
    match action {
        BrokerAction::Done(Ok(pacts)) => {
            assert_eq!(pacts.len(), 3);
            match &pacts[0] {
                Err(PactBrokerError::LinkError(message)) => assert_eq!(
                    message,
                    &format!(
                        "Expected a HAL+JSON response from the pact broker, but got a link with no HREF. URL: '{}', LINK: 'Link {{ name: \"pacts\", href: None, templated: false }}'",
                        URL
                    )
                ),
                other => panic!("unexpected entry {:?}", other),
            }
            assert!(matches!(pacts[1], Err(PactBrokerError::IoError(_))));
            assert!(matches!(pacts[2], Err(PactBrokerError::LinkError(_))));
        },
        other => panic!("unexpected action {:?}", other),
    }
}

#[test]
fn fetch_pacts_reports_a_missing_list_of_pacts_as_it_is() {
    let (mut fetch, _) = PactFetch::start(&s(URL), &s("p"));
    fetch.advance(&hal(ROOT));
    let action = fetch.advance(&hal("{\"_links\":{}}"));
    assert!(matches!(action, BrokerAction::Done(Err(PactBrokerError::LinkError(_)))));
    let action = fetch.advance(&hal("{}"));
    assert!(matches!(action, BrokerAction::Done(Ok(_))));
}

#[test]
fn broker_errors_carry_their_message() {
    let error = PactBrokerError::UrlError(s("x"));
    assert!(error == s("x"));
    assert!(error == "x");
    assert!(error != s("y"));
    assert!(error != "y");
    assert_eq!(error.clone().message(), "x");
}
