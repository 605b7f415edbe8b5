use pact_core::builders::{
    HttpPartBuilder, InteractionBuilder, PactBuilder, RequestBuilder, ResponseBuilder,
};
use pact_core::json::Json;
use pact_core::matching::match_request;
use pact_core::mismatch::Mismatch;
use pact_core::models::{OptionalBody, Request};
use pact_core::pact::Pact;
use pact_core::patterns::{try_build_regex, ArrayLike, JsonPattern, SomethingLike, StringPattern, Term};

fn literal(text: &str) -> StringPattern {
    StringPattern::Literal(text.to_string())
}

fn text(s: &str) -> JsonPattern {
    JsonPattern::Json(Json::Str(s.to_string()))
}

fn object(members: Vec<(&str, JsonPattern)>) -> JsonPattern {
    JsonPattern::Object(members.into_iter().map(|(k, v)| (k.to_string(), v)).collect())
}

fn pact_with(request: RequestBuilder) -> Pact {
    let mut interaction = InteractionBuilder::new("I");
    interaction.request = request;
    let mut builder = PactBuilder::new("C", "P");
    builder.interaction(interaction.build());
    builder.build()
}

fn first_request(pact: &Pact) -> &Request {
    &pact.interactions[0].request
}

fn mismatches(actual: &Pact, expected: &Pact) -> Vec<Mismatch> {
    match_request(first_request(expected), first_request(actual))
}

#[test]
fn header_pattern() {
    let application_regex = try_build_regex("application/.*").unwrap();
    let mut request = RequestBuilder::default();
    request.header(
        "Content-Type",
        Term::<StringPattern>::new(application_regex, "application/json").into(),
    );
    let pattern = pact_with(request);

    let mut request = RequestBuilder::default();
    request.header("Content-Type", literal("application/xml"));
    let good = pact_with(request);

    let mut request = RequestBuilder::default();
    request.header("Content-Type", literal("text/html"));
    let bad = pact_with(request);

    assert_eq!(mismatches(&good, &pattern), vec![]);
    let found = mismatches(&bad, &pattern);
    assert_eq!(found.len(), 1);
    assert!(matches!(found[0], Mismatch::HeaderMismatch { .. }));
}

#[test]
fn header_literal() {
    let mut request = RequestBuilder::default();
    request.header("Content-Type", literal("application/json"));
    let pattern = pact_with(request);

    let mut request = RequestBuilder::default();
    request.header("Content-Type", literal("application/json"));
    let good = pact_with(request);
    assert_eq!(mismatches(&good, &pattern), vec![]);

    let rules = &first_request(&pattern).matching_rules;
    assert!(rules.is_empty());
}

#[test]
fn body_literal() {
    let mut request = RequestBuilder::default();
    request.body("Hello");
    let pattern = pact_with(request);

    let mut request = RequestBuilder::default();
    request.body("Hello");
    let good = pact_with(request);

    let mut request = RequestBuilder::default();
    request.body("Bye");
    let bad = pact_with(request);

    assert_eq!(mismatches(&good, &pattern), vec![]);
    let found = mismatches(&bad, &pattern);
    assert_eq!(
        found,
        vec![Mismatch::BodyMismatch {
            path: "$.body".to_string(),
            expected: "Hello".to_string(),
            actual: "Bye".to_string(),
            mismatch: "Expected the bodies to be equal".to_string(),
        }]
    );
}

#[test]
fn json_body_pattern() {
    let mut request = RequestBuilder::default();
    request.json_body(object(vec![("message", SomethingLike::new(text("Hello")).into())]));
    let pattern = pact_with(request);
    assert_eq!(
        first_request(&pattern).body,
        OptionalBody::Present(b"{\"message\":\"Hello\"}".to_vec())
    );
    assert_eq!(
        first_request(&pattern).matching_rules.get("$.body.message"),
        Some(&vec![("match".to_string(), "type".to_string())])
    );

    let mut request = RequestBuilder::default();
    request.json_body(object(vec![("message", text("Goodbye"))]));
    let good = pact_with(request);

    let mut request = RequestBuilder::default();
    request.json_body(object(vec![("message", JsonPattern::Json(Json::Bool(false)))]));
    let bad = pact_with(request);

    assert_eq!(mismatches(&good, &pattern), vec![]);
    let found = mismatches(&bad, &pattern);
    assert_eq!(
        found,
        vec![Mismatch::BodyMismatch {
            path: "$.body.message".to_string(),
            expected: "\"Hello\"".to_string(),
            actual: "false".to_string(),
            mismatch: "Expected the values to be of the same type".to_string(),
        }]
    );
}

fn array(items: Vec<Json>) -> JsonPattern {
    JsonPattern::Json(Json::Array(items))
}

fn number(n: &str) -> Json {
    Json::Number(n.to_string())
}

fn string(s: &str) -> Json {
    Json::Str(s.to_string())
}

#[test]
fn array_like_body_pattern() {
    let element: JsonPattern = SomethingLike::new(text("hello")).into();
    let mut request = RequestBuilder::default();
    request.json_body(ArrayLike::new(element).with_min_length(2).into());
    let pattern = pact_with(request);
    assert_eq!(
        first_request(&pattern).body,
        OptionalBody::Present(b"[\"hello\",\"hello\"]".to_vec())
    );
    let rules = &first_request(&pattern).matching_rules;
    assert_eq!(
        rules.get("$.body"),
        Some(&vec![
            ("match".to_string(), "type".to_string()),
            ("min".to_string(), "2".to_string())
        ])
    );
    assert_eq!(rules.get("$.body[*]"), Some(&vec![("match".to_string(), "type".to_string())]));
    assert_eq!(rules.get("$.body[*].*"), Some(&vec![("match".to_string(), "type".to_string())]));

    let mut request = RequestBuilder::default();
    request.json_body(array(vec![string("a"), string("b"), string("c")]));
    assert_eq!(mismatches(&pact_with(request), &pattern), vec![]);

    let mut request = RequestBuilder::default();
    request.json_body(array(vec![string("a")]));
    let found = mismatches(&pact_with(request), &pattern);
    assert_eq!(
        found,
        vec![Mismatch::BodyMismatch {
            path: "$.body".to_string(),
            expected: "[\"hello\",\"hello\"]".to_string(),
            actual: "[\"a\"]".to_string(),
            mismatch: "Expected the array to have at least the minimum number of elements"
                .to_string(),
        }]
    );

    let mut request = RequestBuilder::default();
    request.json_body(array(vec![number("1"), number("2")]));
    let found = mismatches(&pact_with(request), &pattern);
    assert_eq!(
        found,
        vec![Mismatch::BodyMismatch {
            path: "$.body[0]".to_string(),
            expected: "\"hello\"".to_string(),
            actual: "1".to_string(),
            mismatch: "Expected the values to be of the same type".to_string(),
        }]
    );
}

#[test]
fn builders_set_what_they_are_told() {
    let mut request = RequestBuilder::default();
    request.method("POST").path(literal("/things")).html().json().body("x");
    let built = request.build();
    assert_eq!(built.method, "POST");
    assert_eq!(built.path, "/things");
    assert_eq!(
        built.headers,
        Some(vec![("Content-Type".to_string(), "application/json".to_string())])
    );
    assert_eq!(built.body, OptionalBody::Present(b"x".to_vec()));

    let mut response = ResponseBuilder::default();
    response.status(404).header("X-Weird Name", literal("1")).content_type(literal("text/plain"));
    let built = response.build();
    assert_eq!(built.status, 404);
    assert_eq!(
        built.headers,
        Some(vec![
            ("X-Weird Name".to_string(), "1".to_string()),
            ("Content-Type".to_string(), "text/plain".to_string())
        ])
    );

    let mut interaction = InteractionBuilder::new("d");
    interaction.given("a state");
    let built = interaction.build();
    assert_eq!(built.description, "d");
    assert_eq!(built.provider_state, Some("a state".to_string()));
}

#[test]
fn the_shared_methods_leave_the_rest_as_it_is() {
    let mut request = RequestBuilder::default();
    request.method("PUT").path(literal("/p"));
    request.request.query = Some(vec![("q".to_string(), vec!["1".to_string()])]);
    request.header("A", literal("1")).content_type(literal("x/y")).html().json().body("b");
    request.json_body(text("j"));
    let built = request.build();
    assert_eq!(built.method, "PUT");
    assert_eq!(built.path, "/p");
    assert_eq!(built.query, Some(vec![("q".to_string(), vec!["1".to_string()])]));
    assert!(built.generators.is_empty());

    let mut response = ResponseBuilder::default();
    response.status(418);
    response.header("A", literal("1")).html().body("b");
    response.json_body(text("j"));
    let built = response.build();
    assert_eq!(built.status, 418);
    assert!(built.generators.is_empty());
}

#[test]
fn header_rules_quote_names_that_are_no_identifiers() {
    let digits = try_build_regex("^[0-9]+$").unwrap();
    let mut request = RequestBuilder::default();
    request.header("X-Digits", Term::<StringPattern>::new(digits, "123").into());
    let digits = try_build_regex("^[0-9]+$").unwrap();
    request.header("Simple", Term::<StringPattern>::new(digits, "1").into());
    let built = request.build();
    assert!(built.matching_rules.get("$.headers['X-Digits']").is_some());
    assert!(built.matching_rules.get("$.headers.X-Digits").is_none());
    assert!(built.matching_rules.get("$.headers.Simple").is_some());
    let path_regex = try_build_regex("/[a-z]+").unwrap();
    let mut request = RequestBuilder::default();
    request.path(Term::<StringPattern>::new(path_regex, "/abc").into());
    let built = request.build();
    assert_eq!(built.path, "/abc");
    assert!(built.matching_rules.get("$.path").is_some());
}
