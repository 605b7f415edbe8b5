//! Consumer-driven contract testing: pacts between a consumer and a
//! provider, the matching of actual requests and responses against the
//! expected ones, the decisions of a mock server that plays the provider,
//! and those of a client that fetches pacts from a broker.
//!
//! The executable functions of this library are verified: each states in
//! its contract what it returns, over the mathematical views of its
//! arguments, and never panics. What the library takes from other crates
//! stands behind functions whose contracts are believed, and says so.

pub mod broker;
pub mod broker_session;
pub mod builders;
pub mod cli;
pub mod content_type;
pub mod json;
pub mod logging;
pub mod match_json;
pub mod match_laws;
pub mod matching;
pub mod mismatch;
pub mod models;
pub mod pact;
pub mod pact_json;
pub mod pact_laws;
pub mod path_exp;
pub mod patterns;
pub mod query;
pub mod regex_util;
pub mod report;
pub mod rule_laws;
pub mod server;
pub mod template;
pub mod text;
