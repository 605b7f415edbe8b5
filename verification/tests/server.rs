use pact_core::json::Json;
use pact_core::mismatch::{Mismatch, MismatchKind};
use pact_core::models::{Interaction, Matchers, OptionalBody, Request, Response};
use pact_core::query::parse_query_string;
use pact_core::report::{ReportEntry, VerificationReport};
use pact_core::server::{
    extract_body, extract_headers, extract_path, extract_query_string, handle_mock_request_error,
    handle_request, match_request, match_result_to_response, method_or_path_mismatch,
    mismatches_to_json, set_headers, to_pact_request, MatchResult, MockRequestError,
    MockResponse, RawHeader, UriParts, MAX_BODY_BYTES,
};

fn s(text: &str) -> String {
    text.to_string()
}

fn table(pairs: &[(&str, &str)]) -> Vec<(String, String)> {
    pairs.iter().map(|(k, v)| (s(k), s(v))).collect()
}

fn uri(path: &str, query: Option<&str>) -> Option<UriParts> {
    Some(UriParts { path: s(path), query: query.map(s) })
}

fn header(name: &str, value: Option<&str>) -> RawHeader {
    RawHeader { name: s(name), value: value.map(s) }
}

fn interaction(description: &str, method: &str, path: &str) -> Interaction {
    Interaction {
        description: s(description),
        request: Request { method: s(method), path: s(path), ..Request::default() },
        ..Interaction::default()
    }
}

fn request(method: &str, path: &str) -> Request {
    Request { method: s(method), path: s(path), ..Request::default() }
}

#[test]
fn the_path_of_a_target() {
    assert_eq!(extract_path(&uri("/a/b", Some("x=1"))), "/a/b");
    assert_eq!(extract_path(&None), "/");
}

#[test]
fn the_query_of_a_target() {
    assert_eq!(extract_query_string(&None), None);
    assert_eq!(extract_query_string(&uri("/", None)), None);
    assert_eq!(extract_query_string(&uri("/", Some(""))), None);
    assert_eq!(
        extract_query_string(&uri("/", Some("a=1&b=2&a=3"))),
        Some(vec![(s("a"), vec![s("1"), s("3")]), (s("b"), vec![s("2")])])
    );
}

#[test]
fn query_strings_are_decoded() {
    assert_eq!(parse_query_string(""), None);
    assert_eq!(
        parse_query_string("a=b+c&d=%41%2f%zz%4&e&&=x&f=1=2"),
        Some(vec![
            (s("a"), vec![s("b c")]),
            (s("d"), vec![s("A/%zz%4")]),
            (s("e"), vec![s("")]),
            (s(""), vec![s("x")]),
            (s("f"), vec![s("1=2")])
        ])
    );
    assert_eq!(parse_query_string("&"), Some(vec![]));
    assert_eq!(parse_query_string("%"), Some(vec![(s("%"), vec![s("")])]));
}

#[test]
fn the_headers_of_a_request() {
    assert_eq!(extract_headers(&vec![]), Ok(None));
    assert_eq!(
        extract_headers(&vec![header("accept", Some("a")), header("x", Some("1"))]),
        Ok(Some(table(&[("accept", "a"), ("x", "1")])))
    );
    assert_eq!(
        extract_headers(&vec![header("accept", Some("a")), header("x", None)]),
        Err(MockRequestError::InvalidHeaderEncoding)
    );
}

#[test]
fn the_body_of_a_request() {
    assert_eq!(extract_body(vec![]), OptionalBody::Empty);
    assert_eq!(extract_body(vec![1, 2]), OptionalBody::Present(vec![1, 2]));
}

#[test]
fn a_request_as_a_pact_keeps_it() {
    let made = to_pact_request(
        "PUT",
        &uri("/p", Some("q=1")),
        &vec![header("h", Some("v"))],
        Some(b"body".to_vec()),
    )
    .unwrap();
    assert_eq!(made.method, "PUT");
    assert_eq!(made.path, "/p");
    assert_eq!(made.query, Some(vec![(s("q"), vec![s("1")])]));
    assert_eq!(made.headers, Some(table(&[("h", "v")])));
    assert_eq!(made.body, OptionalBody::Present(b"body".to_vec()));
    assert!(made.matching_rules.is_empty());

    let bad_header = vec![header("h", None)];
    assert_eq!(
        to_pact_request("GET", &None, &bad_header, None).err(),
        Some(MockRequestError::InvalidHeaderEncoding)
    );
    assert_eq!(
        to_pact_request("GET", &None, &vec![], None).err(),
        Some(MockRequestError::RequestBodyError)
    );
    assert!(to_pact_request("GET", &None, &vec![], Some(vec![0; MAX_BODY_BYTES])).is_ok());
    assert_eq!(
        to_pact_request("GET", &None, &vec![], Some(vec![0; MAX_BODY_BYTES + 1])).err(),
        Some(MockRequestError::RequestBodyError)
    );
    assert_eq!(MAX_BODY_BYTES, 8 * 1024 * 1024);
}

#[test]
fn method_or_path_among_mismatches() {
    let status = Mismatch::StatusMismatch { expected: 1, actual: 2 };
    let method = Mismatch::MethodMismatch { expected: s("a"), actual: s("b") };
    let path = Mismatch::PathMismatch { expected: s("a"), actual: s("b"), mismatch: s("m") };
    assert!(!method_or_path_mismatch(&vec![]));
    assert!(!method_or_path_mismatch(&vec![status.clone()]));
    assert!(method_or_path_mismatch(&vec![status.clone(), method]));
    assert!(method_or_path_mismatch(&vec![path, status]));
}

#[test]
fn a_request_goes_to_the_first_interaction_of_least_rank() {
    let mut first = interaction("first", "GET", "/a");
    first.request.headers = Some(table(&[("X", "1")]));
    first.request.query = Some(vec![(s("q"), vec![s("1")])]);
    let mut second = interaction("second", "GET", "/a");
    second.request.headers = Some(table(&[("X", "1"), ("Y", "2")]));
    let mut third = interaction("third", "GET", "/a");
    third.request.headers = Some(table(&[("Z", "1")]));
    let other = interaction("other", "POST", "/b");
    let all = vec![other, first, second, third];

    match match_request(&request("GET", "/a"), &all) {
        MatchResult::RequestMismatch(found, mismatches) => {
            assert_eq!(found.description, "second");
            assert_eq!(mismatches.len(), 2);
            assert!(mismatches.iter().all(|m| m.kind() == MismatchKind::Header));
        },
        other => panic!("unexpected outcome {:?}", other),
    }

    let mut matching = request("GET", "/a");
    matching.headers = Some(table(&[("z", "1"), ("x", "1"), ("y", "2")]));
    match match_request(&matching, &all) {
        MatchResult::RequestMatch(found) => assert_eq!(found.description, "second"),
        other => panic!("unexpected outcome {:?}", other),
    }

    match match_request(&request("DELETE", "/a"), &all) {
        MatchResult::RequestNotFound(found) => assert_eq!(found.method, "DELETE"),
        other => panic!("unexpected outcome {:?}", other),
    }
    assert!(matches!(match_request(&request("GET", "/a"), &vec![]), MatchResult::RequestNotFound(_)));
}

#[test]
fn adding_an_interaction_keeps_a_match() {
    let mut all = vec![interaction("a", "GET", "/a"), interaction("b", "GET", "/b")];
    let asked = request("get", "/b");
    let before = match match_request(&asked, &all) {
        MatchResult::RequestMatch(found) => found.description,
        other => panic!("unexpected outcome {:?}", other),
    };
    all.push(interaction("again", "GET", "/b"));
    all.push(interaction("c", "GET", "/c"));
    match match_request(&asked, &all) {
        MatchResult::RequestMatch(found) => assert_eq!(found.description, before),
        other => panic!("unexpected outcome {:?}", other),
    }
}

#[test]
fn headers_are_set_under_the_names_that_are_kept() {
    let base = table(&[("access-control-allow-origin", "*")]);
    assert_eq!(set_headers(base.clone(), &None), Ok(base.clone()));
    assert_eq!(
        set_headers(
            base.clone(),
            &Some(table(&[
                ("Content-Type", "text/plain"),
                ("Access-Control-Allow-Origin", "x"),
                ("content-type", "text/html")
            ]))
        ),
        Ok(table(&[("access-control-allow-origin", "x"), ("content-type", "text/html")]))
    );
    assert_eq!(
        set_headers(base.clone(), &Some(table(&[("bad name", "v")]))),
        Err(MockRequestError::ResponseHeaderEncodingError)
    );
    assert_eq!(
        set_headers(base.clone(), &Some(table(&[("", "v")]))),
        Err(MockRequestError::ResponseHeaderEncodingError)
    );
    assert_eq!(
        set_headers(base.clone(), &Some(table(&[("name", "line\nbreak")]))),
        Err(MockRequestError::ResponseHeaderEncodingError)
    );
    assert_eq!(
        set_headers(vec![], &Some(table(&[("name", "tab\tand \u{e9}")]))),
        Ok(table(&[("name", "tab\tand \u{e9}")]))
    );
}

fn answer_of(result: &MatchResult) -> MockResponse {
    match_result_to_response(result).unwrap()
}

#[test]
fn a_match_is_answered_with_the_expected_response() {
    let mut matched = interaction("a", "GET", "/a");
    matched.response = Response {
        status: 201,
        headers: Some(table(&[("Content-Type", "text/plain")])),
        body: OptionalBody::Present(b"made".to_vec()),
        matching_rules: Matchers::new(),
        generators: Matchers::new(),
    };
    let answer = answer_of(&MatchResult::RequestMatch(matched.clone()));
    assert_eq!(answer.status, 201);
    assert_eq!(
        answer.headers,
        table(&[("access-control-allow-origin", "*"), ("content-type", "text/plain")])
    );
    assert_eq!(answer.body, b"made".to_vec());

    matched.response.body = OptionalBody::Missing;
    matched.response.headers = None;
    let answer = answer_of(&MatchResult::RequestMatch(matched.clone()));
    assert_eq!(answer.headers, table(&[("access-control-allow-origin", "*")]));
    assert_eq!(answer.body, Vec::<u8>::new());

    matched.response.headers = Some(table(&[("a b", "c")]));
    assert_eq!(
        match_result_to_response(&MatchResult::RequestMatch(matched.clone())).err(),
        Some(MockRequestError::ResponseHeaderEncodingError)
    );
    matched.response.headers = None;
    matched.response.status = 99;
    assert_eq!(
        match_result_to_response(&MatchResult::RequestMatch(matched.clone())).err(),
        Some(MockRequestError::ResponseBodyError)
    );
    matched.response.status = 1000;
    assert!(match_result_to_response(&MatchResult::RequestMatch(matched)).is_err());
}

#[test]
fn a_mismatch_is_answered_with_what_differs() {
    let mismatches = vec![
        Mismatch::StatusMismatch { expected: 200, actual: 404 },
        Mismatch::BodyMismatch {
            path: s("$.body"),
            expected: s("a\"b"),
            actual: s("c"),
            mismatch: s("m"),
        },
    ];
    let answer =
        answer_of(&MatchResult::RequestMismatch(interaction("a", "GET", "/"), mismatches.clone()));
    assert_eq!(answer.status, 500);
    assert_eq!(
        String::from_utf8(answer.body).unwrap(),
        "[{\"type\":\"StatusMismatch\",\"expected\":200,\"actual\":404},{\"type\":\"BodyMismatch\",\"path\":\"$.body\",\"expected\":\"a\\\"b\",\"actual\":\"c\",\"mismatch\":\"m\"}]"
    );
    assert_eq!(
        mismatches_to_json(&mismatches[..1].to_vec()),
        Json::Array(vec![Json::Object(vec![
            (s("type"), Json::Str(s("StatusMismatch"))),
            (s("expected"), Json::Number(s("200"))),
            (s("actual"), Json::Number(s("404")))
        ])])
    );
}

#[test]
fn an_unknown_request_is_answered_with_a_fixed_text() {
    let answer = answer_of(&MatchResult::RequestNotFound(request("GET", "/")));
    assert_eq!(answer.status, 500);
    assert_eq!(answer.body, b"No matching interaction".to_vec());
    assert_eq!(answer.headers, vec![]);
}

#[test]
fn errors_are_answered_with_their_text() {
    let cases = [
        (MockRequestError::InvalidHeaderEncoding, 400, "Found an invalid header encoding"),
        (MockRequestError::RequestBodyError, 500, "Could not process request body"),
        (MockRequestError::ResponseBodyError, 500, "Could not process response body"),
        (MockRequestError::ResponseHeaderEncodingError, 500, "Could not set response header"),
    ];
    for (error, status, text) in cases {
        let answer = handle_mock_request_error(Err(error));
        assert_eq!(answer.status, status);
        assert_eq!(answer.body, text.as_bytes().to_vec());
    }
    let passed = handle_mock_request_error(Ok(MockResponse {
        status: 204,
        headers: vec![],
        body: vec![],
    }));
    assert_eq!(passed.status, 204);
}

#[test]
fn a_request_is_handled_from_arrival_to_answer() {
    let mut expected = interaction("hello", "GET", "/hello");
    expected.request.query = Some(vec![(s("name"), vec![s("you")])]);
    expected.response.body = OptionalBody::Present(b"Hello you".to_vec());
    let all = vec![expected];

    let (answer, entry) =
        handle_request("GET", &uri("/hello", Some("name=you")), &vec![], Some(vec![]), &all);
    assert_eq!(answer.status, 200);
    assert_eq!(answer.body, b"Hello you".to_vec());
    let mut report = VerificationReport::new();
    assert!(matches!(entry, ReportEntry::Handled(_, MatchResult::RequestMatch(_))));
    report.record(entry);
    assert!(report.all_matched(&all));
    assert!(report.no_unexpected());
    assert!(report.verified(&all));
    assert_eq!(report.unmatched(&all), Vec::<usize>::new());

    let (answer, entry) =
        handle_request("GET", &uri("/hello", Some("name=me")), &vec![], Some(vec![]), &all);
    assert_eq!(answer.status, 500);
    assert!(String::from_utf8(answer.body).unwrap().contains("QueryMismatch"));
    assert!(matches!(entry, ReportEntry::Handled(_, MatchResult::RequestMismatch(_, _))));

    let (answer, entry) = handle_request("GET", &uri("/bye", None), &vec![], Some(vec![]), &all);
    assert_eq!(answer.status, 500);
    assert_eq!(answer.body, b"No matching interaction".to_vec());
    report.record(entry);
    assert!(report.all_matched(&all));
    assert!(!report.no_unexpected());
    assert!(!report.verified(&all));

    let (answer, entry) =
        handle_request("GET", &uri("/hello", None), &vec![header("h", None)], Some(vec![]), &all);
    assert_eq!(answer.status, 400);
    assert_eq!(answer.body, b"Found an invalid header encoding".to_vec());
    assert!(matches!(entry, ReportEntry::Failed(MockRequestError::InvalidHeaderEncoding)));

    let (answer, entry) = handle_request("GET", &uri("/hello", None), &vec![], None, &all);
    assert_eq!(answer.status, 500);
    assert_eq!(answer.body, b"Could not process request body".to_vec());
    assert!(matches!(entry, ReportEntry::Failed(MockRequestError::RequestBodyError)));

    let mut broken = interaction("broken", "GET", "/broken");
    broken.response.headers = Some(table(&[("no name", "v")]));
    let all = vec![broken];
    let (answer, entry) = handle_request("GET", &uri("/broken", None), &vec![], Some(vec![]), &all);
    assert_eq!(answer.status, 500);
    assert_eq!(answer.body, b"Could not set response header".to_vec());
    assert!(matches!(entry, ReportEntry::Handled(_, MatchResult::RequestMatch(_))));
}

#[test]
fn requests_and_responses_are_well_formed_or_not() {
    assert!(request("GET", "/").is_well_formed());
    assert!(request("GET", "/a/b").is_well_formed());
    assert!(!request("GET", "").is_well_formed());
    assert!(!request("GET", "a").is_well_formed());
    assert!(!request("GET", "/a?b=1").is_well_formed());
    let mut response = Response::default();
    assert!(response.is_well_formed());
    response.status = 99;
    assert!(!response.is_well_formed());
    response.status = 100;
    assert!(response.is_well_formed());
    response.status = 599;
    assert!(response.is_well_formed());
    response.status = 600;
    assert!(!response.is_well_formed());
    let mut both = interaction("i", "GET", "/");
    assert!(both.is_well_formed());
    both.response.status = 0;
    assert!(!both.is_well_formed());
}

#[test]
fn the_report_tells_what_was_not_matched() {
    let all = vec![interaction("a", "GET", "/a"), interaction("b", "GET", "/b"), interaction("c", "GET", "/c")];
    let mut report = VerificationReport::new();
    assert!(!report.all_matched(&all));
    assert!(report.all_matched(&vec![]));
    assert_eq!(report.unmatched(&all), vec![0, 1, 2]);
    report.record(ReportEntry::Failed(MockRequestError::RequestBodyError));
    report.record(ReportEntry::Cancelled);
    report.record(ReportEntry::Handled(
        request("GET", "/b"),
        MatchResult::RequestMatch(all[1].clone()),
    ));
    report.record(ReportEntry::Handled(
        request("GET", "/c"),
        MatchResult::RequestMismatch(all[2].clone(), vec![]),
    ));
    assert!(report.matched(&all[1]));
    assert!(!report.matched(&all[2]));
    assert_eq!(report.unmatched(&all), vec![0, 2]);
    assert!(report.no_unexpected());
    assert!(!report.verified(&all));
    assert_eq!(
        report.failure_message(&all),
        Some(s("The mock server was not used as expected:\n  no request matched 'a'\n  no request matched 'c'"))
    );
    report.record(ReportEntry::Handled(
        request("PUT", "/x"),
        MatchResult::RequestNotFound(request("PUT", "/x")),
    ));
    assert_eq!(
        report.failure_message(&all[1..2].to_vec()),
        Some(s("The mock server was not used as expected:\n  unexpected request PUT /x"))
    );
    assert_eq!(
        report.failure_message(&all),
        Some(s("The mock server was not used as expected:\n  no request matched 'a'\n  no request matched 'c'\n  unexpected request PUT /x"))
    );
    let mut fine = VerificationReport::new();
    assert_eq!(fine.failure_message(&vec![]), None);
    fine.record(ReportEntry::Handled(
        request("GET", "/b"),
        MatchResult::RequestMatch(all[1].clone()),
    ));
    assert_eq!(fine.failure_message(&all[1..2].to_vec()), None);
}
