use pact_core::json::Json;
use pact_core::models::Matchers;
use pact_core::patterns::{
    try_build_regex, ArrayLike, JsonPattern, Pattern, SomethingLike, StringPattern, Term,
};

fn text(s: &str) -> Json {
    Json::Str(s.to_string())
}

fn rule(pairs: &[(&str, &str)]) -> Vec<(String, String)> {
    pairs.iter().map(|(k, v)| (k.to_string(), v.to_string())).collect()
}

#[test]
fn something_like_is_pattern() {
    let matchable = SomethingLike::<JsonPattern>::new(JsonPattern::Json(text("hello")));
    assert_eq!(matchable.to_example(), text("hello"));
    let mut rules = Matchers::new();
    matchable.extract_matching_rules("$", &mut rules);
    assert_eq!(rules.len(), 1);
    assert_eq!(rules.get("$"), Some(&rule(&[("match", "type")])));
}

#[test]
fn something_like_into() {
    // Make sure we can convert `SomethingLike` into different pattern types.
    let _: JsonPattern = SomethingLike::new(JsonPattern::Json(text("hello"))).into();
    // We don't particularly care about having a nice syntax for
    // `StringPattern`, because it's rarely useful in practice.
    let _: StringPattern = SomethingLike::new("hello".to_owned()).into();
}

#[test]
fn array_like_is_pattern() {
    let elem = SomethingLike::new(JsonPattern::Json(text("hello")));
    let matchable = ArrayLike::new(elem.into()).with_min_length(2);
    assert_eq!(matchable.to_example(), Json::Array(vec![text("hello"), text("hello")]));

    let mut rules = Matchers::new();
    matchable.extract_matching_rules("$", &mut rules);
    assert_eq!(rules.len(), 3);
    assert_eq!(rules.get("$"), Some(&rule(&[("match", "type"), ("min", "2")])));
    assert_eq!(rules.get("$[*].*"), Some(&rule(&[("match", "type")])));
    assert_eq!(rules.get("$[*]"), Some(&rule(&[("match", "type")])));
}

#[test]
fn term_is_pattern() {
    let matchable = Term::<JsonPattern>::new(try_build_regex("[Hh]ello").unwrap(), "hello");
    assert_eq!(matchable.to_example(), text("hello"));

    let mut rules = Matchers::new();
    matchable.extract_matching_rules("$", &mut rules);
    assert_eq!(rules.len(), 1);
    assert_eq!(rules.get("$"), Some(&rule(&[("match", "regex"), ("regex", "[Hh]ello")])));
}

#[test]
fn term_into() {
    // Make sure we can convert `Term` into different pattern types.
    let _: JsonPattern = Term::new(try_build_regex("[Hh]ello").unwrap(), "hello").into();
    let _: StringPattern = Term::new(try_build_regex("[Hh]ello").unwrap(), "hello").into();
}

#[test]
fn term_needs_a_regular_expression() {
    assert!(try_build_regex("[Hh]ello").is_some());
    assert!(try_build_regex("[Hh").is_none());
}

#[test]
fn something_like_of_a_pattern() {
    let matchable = SomethingLike::of(JsonPattern::Json(text("hello")));
    assert_eq!(matchable.to_example(), text("hello"));
    let mut rules = Matchers::new();
    matchable.extract_matching_rules("$.body", &mut rules);
    assert_eq!(rules.get("$.body"), Some(&rule(&[("match", "type")])));
    let like = SomethingLike::of(StringPattern::Literal("x".to_string()));
    assert_eq!(like.to_example(), "x");
}

#[test]
fn a_term_keeps_the_text_of_its_regular_expression() {
    let regex = try_build_regex("application/.*").unwrap();
    assert_eq!(regex.as_str(), "application/.*");
    let pattern: StringPattern = Term::<StringPattern>::new(regex, "application/json").into();
    let mut rules = Matchers::new();
    pattern.extract_matching_rules("$.headers['Content-Type']", &mut rules);
    assert_eq!(
        rules.get("$.headers['Content-Type']"),
        Some(&rule(&[("match", "regex"), ("regex", "application/.*")]))
    );
    assert_eq!(try_build_regex("a+").unwrap().into_string(), "a+");
}
