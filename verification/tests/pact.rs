use pact_core::json::Json;
use pact_core::models::{Interaction, Matchers, OptionalBody, Request, Response};
use pact_core::pact::{
    detect_revision, parse, serialize, serialize_as, Consumer, Pact, ParseErrorKind, Provider,
};
use pact_core::query::{build_query_string, encode_query_part, parse_query_string};
use pact_core::pact_json::{normalizes_method, PactSpecification};

fn s(text: &str) -> String {
    text.to_string()
}

fn table(pairs: &[(&str, &str)]) -> Vec<(String, String)> {
    pairs.iter().map(|(k, v)| (s(k), s(v))).collect()
}

fn load(text: &str) -> Pact {
    parse(text.as_bytes()).unwrap()
}

fn document(metadata: &str, request: &str) -> String {
    format!(
        "{{\"consumer\": {{\"name\": \"c\"}}, \"provider\": {{\"name\": \"p\"}}, \"interactions\": [{{\"description\": \"d\", \"providerState\": \"s\", \"request\": {}, \"response\": {{\"status\": 201}}}}]{}}}",
        request, metadata
    )
}

fn find<'a>(json: &'a Json, path: &[&str]) -> &'a Json {
    let mut at = json;
    for name in path {
        at = at.get(name).unwrap();
    }
    at
}

fn names(json: &Json) -> Vec<String> {
    match json {
        Json::Object(members) => members.iter().map(|(k, _)| k.clone()).collect(),
        _ => panic!("no object"),
    }
}

const V2: &str = ", \"metadata\": {\"pact-specification\": {\"version\": \"2.0.0\"}, \"pact-jvm\": {\"version\": \"3.0\"}}";

#[test]
fn test_load_test_pact_with_camel_case_spec_version() {
    let pact = load(&document(
        ", \"metadata\": {\"pactSpecification\": {\"version\": \"1.1.0\"}}",
        "{\"method\": \"GET\", \"path\": \"/\"}",
    ));
    assert_eq!(pact.specification_version, PactSpecification::V1_1);
}

#[test]
fn a_pact_is_read_from_its_document() {
    let pact = load(&document(
        V2,
        "{\"method\": \"post\", \"path\": \"/x\", \"query\": \"a=1&a=2\", \"headers\": {\"H\": \"v\", \"N\": 1}, \"body\": {\"k\": [1, 2]}, \"matchingRules\": {\"$.body.k\": {\"match\": \"type\", \"min\": 1}, \"body.j\": {\"match\": \"regex\", \"regex\": \"x\"}}}",
    ));
    assert_eq!(pact.consumer.name, "c");
    assert_eq!(pact.provider.name, "p");
    assert_eq!(pact.specification_version, PactSpecification::V2);
    assert_eq!(
        pact.metadata,
        vec![
            (s("pact-specification"), table(&[("version", "2.0.0")])),
            (s("pact-jvm"), table(&[("version", "3.0")]))
        ]
    );
    assert_eq!(pact.interactions.len(), 1);
    let interaction = &pact.interactions[0];
    assert_eq!(interaction.description, "d");
    assert_eq!(interaction.provider_state, Some(s("s")));
    let request = &interaction.request;
    assert_eq!(request.method, "POST");
    assert_eq!(request.path, "/x");
    assert_eq!(request.query, Some(vec![(s("a"), vec![s("1"), s("2")])]));
    assert_eq!(request.headers, Some(table(&[("H", "v"), ("N", "1")])));
    assert_eq!(request.body, OptionalBody::Present(b"{\"k\":[1,2]}".to_vec()));
    assert_eq!(
        request.matching_rules.get("$.body.k"),
        Some(&table(&[("match", "type"), ("min", "1")]))
    );
    assert_eq!(
        request.matching_rules.get("$.body.j"),
        Some(&table(&[("match", "regex"), ("regex", "x")]))
    );
    assert_eq!(interaction.response.status, 201);
    assert_eq!(interaction.response.body, OptionalBody::Missing);
    assert_eq!(interaction.response.headers, None);
}

#[test]
fn a_lowercase_method_is_put_in_capitals_but_under_revision_three() {
    let request = "{\"method\": \"get\", \"path\": \"/\"}";
    let pact = load(&document(V2, request));
    assert_eq!(pact.interactions[0].request.method, "GET");
    let pact = load(&document(
        ", \"metadata\": {\"pact-specification\": {\"version\": \"3.0.0\"}}",
        request,
    ));
    assert_eq!(pact.specification_version, PactSpecification::V3);
    assert_eq!(pact.interactions[0].request.method, "get");
    let pact = load(&document("", request));
    assert_eq!(pact.specification_version, PactSpecification::Unknown);
    assert_eq!(pact.interactions[0].request.method, "GET");
}

#[test]
fn reading_tells_whether_the_method_was_put_in_capitals() {
    let lower = Json::parse(b"{\"method\": \"get\"}").unwrap();
    let upper = Json::parse(b"{\"method\": \"GET\"}").unwrap();
    let none = Json::parse(b"{}").unwrap();
    assert!(normalizes_method(&lower, PactSpecification::V2));
    assert!(normalizes_method(&lower, PactSpecification::Unknown));
    assert!(!normalizes_method(&lower, PactSpecification::V3));
    assert!(!normalizes_method(&upper, PactSpecification::V2));
    assert!(!normalizes_method(&none, PactSpecification::V1));
}

#[test]
fn the_revision_is_read_from_the_metadata() {
    let cases = [
        ("1.0.0", PactSpecification::V1),
        ("1.1.0", PactSpecification::V1_1),
        ("2.0.0", PactSpecification::V2),
        ("3.0.0", PactSpecification::V3),
        ("4.0", PactSpecification::Unknown),
    ];
    for (text, revision) in cases {
        let metadata = vec![(s("pact-specification"), table(&[("version", text)]))];
        assert_eq!(detect_revision(&metadata), revision);
        assert_eq!(PactSpecification::from_version(text), revision);
    }
    assert_eq!(PactSpecification::V1.version_str(), "1.0.0");
    assert_eq!(PactSpecification::V1_1.version_str(), "1.1.0");
    assert_eq!(PactSpecification::V2.version_str(), "2.0.0");
    assert_eq!(PactSpecification::V3.version_str(), "3.0.0");
    assert_eq!(PactSpecification::Unknown.version_str(), "unknown");
    let both = vec![
        (s("pactSpecification"), table(&[("version", "1.0.0")])),
        (s("pact-specification"), table(&[("version", "3.0.0")])),
    ];
    assert_eq!(detect_revision(&both), PactSpecification::V3);
    assert_eq!(detect_revision(&vec![]), PactSpecification::Unknown);
    assert_eq!(
        detect_revision(&vec![(s("pact-specification"), table(&[("other", "2.0.0")]))]),
        PactSpecification::Unknown
    );
}

#[test]
fn a_version_that_is_null_is_kept_as_text() {
    let pact = load(&document(
        ", \"metadata\": {\"pact-specification\": {\"version\": null}, \"pact-jvm\": {\"version\": \"\"}}",
        "{}",
    ));
    assert_eq!(
        pact.metadata,
        vec![
            (s("pact-specification"), table(&[("version", "null")])),
            (s("pact-jvm"), table(&[("version", "")]))
        ]
    );
    assert_eq!(pact.specification_version, PactSpecification::Unknown);
}

#[test]
fn what_is_no_json_is_no_pact() {
    let error = parse(b"<html>").err().unwrap();
    assert_eq!(error.kind, ParseErrorKind::NotJson);
    assert_eq!(error.location, "$");
}

#[test]
fn flaws_do_not_keep_a_document_from_being_read() {
    let json = Json::parse(b"{\"provider\": 1, \"interactions\": {}, \"metadata\": []}").unwrap();
    let found = Pact::check(&json);
    let seen: Vec<(ParseErrorKind, String)> =
        found.iter().map(|e| (e.kind, e.location.clone())).collect();
    assert_eq!(
        seen,
        vec![
            (ParseErrorKind::MissingField, s("$.consumer")),
            (ParseErrorKind::BadType, s("$.provider")),
            (ParseErrorKind::BadType, s("$.interactions")),
            (ParseErrorKind::BadType, s("$.metadata")),
            (ParseErrorKind::UnknownSpec, s("$.metadata"))
        ]
    );
    let pact = Pact::from_json(&json);
    assert_eq!(pact.consumer.name, "consumer");
    assert_eq!(pact.provider.name, "provider");
    assert_eq!(pact.interactions.len(), 0);
    assert_eq!(pact.specification_version, PactSpecification::Unknown);

    let flawed = Json::parse(
        b"{\"consumer\": {\"name\": \"c\"}, \"interactions\": [{\"request\": {\"method\": \"get\"}}], \"metadata\": {\"pact-specification\": {\"version\": \"3.0.0\"}}}",
    )
    .unwrap();
    let seen: Vec<ParseErrorKind> = Pact::check(&flawed).iter().map(|e| e.kind).collect();
    assert_eq!(seen, vec![ParseErrorKind::MissingField]);
    let pact = Pact::from_json(&flawed);
    assert_eq!(pact.specification_version, PactSpecification::Unknown);
    assert_eq!(pact.interactions[0].request.method, "GET");
    assert_eq!(pact.metadata.len(), 1);

    let sound = Json::parse(document(V2, "{}").as_bytes()).unwrap();
    assert_eq!(Pact::check(&sound).len(), 0);
}

#[test]
fn a_pact_is_written_with_its_parts_in_order() {
    let pact = Pact {
        metadata: vec![
            (s("z-last"), table(&[("version", "9")])),
            (s("pact-jvm"), table(&[("version", "1")])),
            (s("Pact-first"), table(&[])),
        ],
        ..Pact::default()
    };
    assert_eq!(
        names(find(&pact.to_json(), &["metadata"])),
        vec!["Pact-first", "pact-jvm", "pact-rust", "pact-specification", "z-last"]
    );
    let pact = Pact { metadata: vec![(s("pact-jvm"), table(&[("version", "1")]))], ..Pact::default() };
    let json = pact.to_json();
    assert_eq!(names(&json), vec!["consumer", "provider", "interactions", "metadata"]);
    assert_eq!(
        names(find(&json, &["metadata"])),
        vec!["pact-jvm", "pact-rust", "pact-specification"]
    );
    assert_eq!(find(&json, &["metadata", "pact-specification"]).to_text(), "{\"version\":\"2.0.0\"}");
    assert_eq!(find(&json, &["metadata", "pact-rust"]).to_text(), "{\"version\":\"0.1.0\"}");
    assert_eq!(
        serialize(&pact),
        "{\"consumer\":{\"name\":\"consumer\"},\"provider\":{\"name\":\"provider\"},\"interactions\":[],\"metadata\":{\"pact-jvm\":{\"version\":\"1\"},\"pact-rust\":{\"version\":\"0.1.0\"},\"pact-specification\":{\"version\":\"2.0.0\"}}}"
    );
}

#[test]
fn the_writer_sets_its_own_sections_once() {
    let pact = Pact {
        metadata: vec![
            (s("pact-specification"), table(&[("version", "3.0.0")])),
            (s("pact-jvm"), table(&[("version", "1")])),
            (s("pact-rust"), table(&[("version", "old")])),
        ],
        specification_version: PactSpecification::V3,
        ..Pact::default()
    };
    let back = Pact::from_json(&pact.to_json());
    assert_eq!(
        back.metadata,
        vec![
            (s("pact-jvm"), table(&[("version", "1")])),
            (s("pact-rust"), table(&[("version", "0.1.0")])),
            (s("pact-specification"), table(&[("version", "2.0.0")]))
        ]
    );
    assert_eq!(back.specification_version, PactSpecification::V2);
}

fn generators() -> Matchers {
    let mut generators = Matchers::new();
    generators.insert(s("$.body.id"), table(&[("type", "RandomInt"), ("min", "1"), ("max", "9")]));
    generators
}

fn full_interaction() -> Interaction {
    let mut rules = Matchers::new();
    rules.insert(s("$.body.a"), table(&[("match", "type")]));
    rules.insert(s("$.headers['X-Id']"), table(&[("match", "regex"), ("regex", "\\d+")]));
    Interaction {
        description: s("everything"),
        provider_state: Some(s("ready")),
        request: Request {
            method: s("PUT"),
            path: s("/things/1"),
            query: Some(vec![(s("a"), vec![s("1"), s("2")]), (s("b"), vec![])]),
            headers: Some(table(&[("X-Id", "12"), ("Accept", "text/plain")])),
            body: OptionalBody::Present("{\"a\": \"\u{e9}\"}".as_bytes().to_vec()),
            matching_rules: rules,
            generators: Matchers::new(),
        },
        response: Response {
            status: 599,
            headers: Some(table(&[("Content-Type", "text/plain")])),
            body: OptionalBody::Present(b"done".to_vec()),
            matching_rules: Matchers::new(),
            generators: generators(),
        },
    }
}

#[test]
fn a_written_pact_reads_back() {
    let mut plain = Interaction::default();
    plain.response.body = OptionalBody::Null;
    plain.request.body = OptionalBody::Empty;
    let pact = Pact {
        consumer: Consumer { name: s("a consumer") },
        provider: Provider { name: s("a provider") },
        interactions: vec![full_interaction(), plain],
        metadata: vec![(s("pact-jvm"), table(&[("version", "3.0"), ("more", "x")]))],
        specification_version: PactSpecification::V2,
    };
    let text = serialize(&pact);
    let back = parse(text.as_bytes()).unwrap();
    assert_eq!(back.consumer.name, pact.consumer.name);
    assert_eq!(back.provider.name, pact.provider.name);
    assert_eq!(back.specification_version, PactSpecification::V2);
    assert_eq!(back.interactions.len(), 2);
    assert!(back.interactions[1].same(&pact.interactions[1]));
    let (read, written) = (&back.interactions[0], &pact.interactions[0]);
    assert!(read.response.same(&written.response));
    assert_eq!(read.request.method, written.request.method);
    assert_eq!(read.request.query, written.request.query);
    assert_eq!(read.request.body, written.request.body);
    assert!(read.same(written));
    assert!(back.interactions[0].request.same(&pact.interactions[0].request));

    let again = Pact::from_json(&pact.to_json());
    assert!(again.interactions[0].same(&pact.interactions[0]));
    assert!(again.interactions[1].same(&pact.interactions[1]));
}

#[test]
fn a_body_that_is_declared_json_is_written_as_json() {
    let mut interaction = Interaction::default();
    interaction.request.headers = Some(table(&[("content-type", "application/json")]));
    interaction.request.body = OptionalBody::Present(b"{ \"a\" : [ 1 ] }".to_vec());
    interaction.response.headers = Some(table(&[("Content-Type", "application/json")]));
    interaction.response.body = OptionalBody::Present(b"not json".to_vec());
    let json = interaction.to_json();
    assert_eq!(find(&json, &["request", "body"]).to_text(), "{\"a\":[1]}");
    assert_eq!(find(&json, &["response", "body"]), &Json::Str(s("not json")));
    assert_eq!(
        names(find(&json, &["request"])),
        vec!["method", "path", "headers", "body"]
    );
    assert_eq!(names(find(&json, &["response"])), vec!["status", "headers", "body"]);
    assert_eq!(names(&json), vec!["description", "request", "response"]);
    let back = Interaction::from_json(&json, PactSpecification::V2);
    assert_eq!(back.request.body, OptionalBody::Present(b"{\"a\":[1]}".to_vec()));
    assert_eq!(back.response.body, OptionalBody::Present(b"not json".to_vec()));
}

#[test]
fn a_query_is_read_from_a_string_or_an_object() {
    let from_string = Request::from_json(
        &Json::parse(b"{\"query\": \"a=1&b=x%20y\"}").unwrap(),
        PactSpecification::V1,
    );
    assert_eq!(
        from_string.query,
        Some(vec![(s("a"), vec![s("1")]), (s("b"), vec![s("x y")])])
    );
    assert_eq!(from_string.method, "GET");
    assert_eq!(from_string.path, "/");
    let from_object = Request::from_json(
        &Json::parse(b"{\"query\": {\"a\": [\"1\", 2], \"b\": \"x\"}}").unwrap(),
        PactSpecification::V2,
    );
    assert_eq!(
        from_object.query,
        Some(vec![(s("a"), vec![s("1"), s("2")]), (s("b"), vec![s("x")])])
    );
    let none = Request::from_json(&Json::parse(b"{\"query\": 5}").unwrap(), PactSpecification::V2);
    assert_eq!(none.query, None);
}

#[test]
fn a_status_that_is_no_status_is_200() {
    for (text, status) in [
        ("{\"status\": 404}", 404),
        ("{\"status\": 65535}", 65535),
        ("{\"status\": 65536}", 200),
        ("{\"status\": -1}", 200),
        ("{\"status\": 1.5}", 200),
        ("{\"status\": \"404\"}", 200),
        ("{}", 200),
    ] {
        assert_eq!(Response::from_json(&Json::parse(text.as_bytes()).unwrap()).status, status);
    }
}

#[test]
fn a_pact_is_written_under_the_revision_that_is_asked_for() {
    let mut interaction = Interaction::default();
    interaction.request.query =
        Some(vec![(s("a"), vec![s("1"), s("2")]), (s("b c"), vec![s("x/y")]), (s("d"), vec![])]);
    let pact = Pact { interactions: vec![interaction], ..Pact::default() };

    let first = pact.to_json_as(PactSpecification::V1);
    assert_eq!(
        find(&first, &["metadata", "pact-specification", "version"]),
        &Json::Str(s("1.0.0"))
    );
    let written = match find(&first, &["interactions"]) {
        Json::Array(items) => items[0].clone(),
        other => panic!("no array: {:?}", other),
    };
    assert_eq!(find(&written, &["request", "query"]), &Json::Str(s("a=1&a=2&b%20c=x%2Fy")));
    let back = Pact::from_json(&first);
    assert_eq!(back.specification_version, PactSpecification::V1);
    assert_eq!(
        back.interactions[0].request.query,
        Some(vec![(s("a"), vec![s("1"), s("2")]), (s("b c"), vec![s("x/y")])])
    );

    let second = pact.to_json_as(PactSpecification::V1_1);
    assert_eq!(Pact::from_json(&second).specification_version, PactSpecification::V1_1);

    let third = pact.to_json_as(PactSpecification::V3);
    assert_eq!(
        find(&third, &["metadata", "pact-specification", "version"]),
        &Json::Str(s("3.0.0"))
    );
    let back = Pact::from_json(&third);
    assert_eq!(back.specification_version, PactSpecification::V3);
    assert_eq!(back.interactions[0].request.query, pact.interactions[0].request.query);

    let unknown = pact.to_json_as(PactSpecification::Unknown);
    assert_eq!(unknown, pact.to_json());
    assert_eq!(serialize_as(&pact, PactSpecification::V2), serialize(&pact));
    assert!(serialize_as(&pact, PactSpecification::V1).contains("\"query\":\"a=1&a=2&b%20c=x%2Fy\""));
}

#[test]
fn query_strings_are_written_percent_encoded() {
    assert_eq!(encode_query_part(""), "");
    assert_eq!(encode_query_part("AZaz09-_.~"), "AZaz09-_.~");
    assert_eq!(encode_query_part("a b+c&d=e%"), "a%20b%2Bc%26d%3De%25");
    assert_eq!(encode_query_part("\u{e9}\u{0}\u{7f}"), "%C3%A9%00%7F");
    assert_eq!(build_query_string(&vec![]), "");
    assert_eq!(build_query_string(&vec![(s("k"), vec![])]), "");
    let query = vec![(s("a"), vec![s("x y"), s("")]), (s("b&"), vec![s("=")])];
    assert_eq!(build_query_string(&query), "a=x%20y&a=&b%26=%3D");
    assert_eq!(parse_query_string(&build_query_string(&query)), Some(query));
}

#[test]
fn generators_are_kept_as_they_are() {
    let interaction = full_interaction();
    let json = interaction.to_json();
    assert_eq!(
        find(&json, &["response", "generators"]).to_text(),
        "{\"$.body.id\":{\"type\":\"RandomInt\",\"min\":\"1\",\"max\":\"9\"}}"
    );
    assert_eq!(find(&json, &["request"]).get("generators"), None);
    let back = Interaction::from_json(&json, PactSpecification::V3);
    assert_eq!(
        back.response.generators.get("$.body.id"),
        Some(&table(&[("type", "RandomInt"), ("min", "1"), ("max", "9")]))
    );
    assert!(back.request.generators.is_empty());
}
