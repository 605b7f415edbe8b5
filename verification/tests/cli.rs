use pact_core::cli::{
    command_of, given_twice, global_option_present, host_option, integer_value, log_level,
    logger_kind, lookup_global_option, port_option, uuid_value, Command, LogLevel, LoggerKind,
};
use pact_core::logging::{
    error_message_status, file_sink_name, first_failure, log_buffer_id, log_env_var,
    log_level_from_str, log_target, parse_sink, ErrorStatus, Sink, Status,
};

fn s(text: &str) -> String {
    text.to_string()
}

#[test]
fn validates_integer_value() {
    assert!(integer_value(s("1234")).is_ok());
    assert!(integer_value(s("1234x")).is_err());
}

#[test]
fn integer_values_are_ports() {
    for good in ["0", "+80", "0080", "65535"] {
        assert_eq!(integer_value(s(good)), Ok(()));
    }
    assert_eq!(
        integer_value(s("65536")),
        Err(s("'65536' is not a valid port value: number too large to fit in target type"))
    );
    assert_eq!(
        integer_value(s("")),
        Err(s("'' is not a valid port value: cannot parse integer from empty string"))
    );
    for bad in ["+", "-1", " 1", "1 ", "12a", "١٢"] {
        assert_eq!(
            integer_value(s(bad)),
            Err(format!("'{}' is not a valid port value: invalid digit found in string", bad))
        );
    }
}

#[test]
fn validates_uuid_value() {
    assert!(uuid_value(s("5159135ceb064af8a6baa447d81e4fbd")).is_ok());
    assert!(uuid_value(s("1234x")).is_err());
}

#[test]
fn uuid_values_say_what_is_wrong() {
    assert_eq!(uuid_value(s("5159135c-eb06-4af8-a6ba-a447d81e4fbd")), Ok(()));
    let message = uuid_value(s("1234x")).err().unwrap();
    assert!(message.starts_with("'1234x' is not a valid UUID value: "));
    assert!(message.len() > "'1234x' is not a valid UUID value: ".len());
    assert!(uuid_value(s("")).is_err());
}

#[test]
fn the_value_behind_the_command_counts() {
    assert_eq!(lookup_global_option(Some("a"), None), Some("a"));
    assert_eq!(lookup_global_option(None, Some("b")), Some("b"));
    assert_eq!(lookup_global_option(Some("a"), Some("b")), Some("b"));
    assert_eq!(lookup_global_option(None, None), None);
    assert!(given_twice(Some("a"), Some("b")));
    assert!(!given_twice(Some("a"), None));
    assert!(!given_twice(None, None));
    assert!(global_option_present(true, false));
    assert!(global_option_present(false, true));
    assert!(!global_option_present(false, false));
}

#[test]
fn port_and_host_have_defaults() {
    assert_eq!(port_option(None, None), Ok(8080));
    assert_eq!(port_option(Some("1"), Some("2")), Ok(2));
    assert_eq!(port_option(Some("x"), None), Err(s("x is not a valid port number")));
    assert_eq!(port_option(None, Some("70000")), Err(s("70000 is not a valid port number")));
    assert_eq!(host_option(None, None), "localhost");
    assert_eq!(host_option(Some("a"), None), "a");
    assert_eq!(host_option(Some("a"), Some("b")), "b");
}

#[test]
fn commands_have_names() {
    assert_eq!(command_of("start"), Some(Command::Start));
    assert_eq!(command_of("list"), Some(Command::List));
    assert_eq!(command_of("create"), Some(Command::Create));
    assert_eq!(command_of("verify"), Some(Command::Verify));
    assert_eq!(command_of("shutdown"), Some(Command::Shutdown));
    assert_eq!(command_of("Start"), None);
    assert_eq!(command_of(""), None);
}

#[test]
fn log_levels_have_names() {
    assert_eq!(log_level("none"), Some(LogLevel::Off));
    assert_eq!(log_level("off"), Some(LogLevel::Off));
    assert_eq!(log_level("error"), Some(LogLevel::Error));
    assert_eq!(log_level("WARN"), Some(LogLevel::Warn));
    assert_eq!(log_level("Info"), Some(LogLevel::Info));
    assert_eq!(log_level("debug"), Some(LogLevel::Debug));
    assert_eq!(log_level("trace"), Some(LogLevel::Trace));
    assert_eq!(log_level("NONE"), None);
    assert_eq!(log_level("loud"), None);
    assert_eq!(log_level(""), None);
}

#[test]
fn the_logger_follows_command_and_flags() {
    assert_eq!(logger_kind("start", true, true), LoggerKind::Simple);
    assert_eq!(logger_kind("start", true, false), LoggerKind::Term);
    assert_eq!(logger_kind("start", false, true), LoggerKind::File);
    assert_eq!(logger_kind("start", false, false), LoggerKind::TermAndFile);
    assert_eq!(logger_kind("list", false, true), LoggerKind::Simple);
    assert_eq!(logger_kind("list", true, true), LoggerKind::Simple);
    assert_eq!(logger_kind("verify", false, false), LoggerKind::Term);
    assert_eq!(logger_kind("verify", true, false), LoggerKind::Term);
}

fn sink(specifier: &str) -> Result<String, Status> {
    parse_sink(specifier).map(|sink| match sink {
        Sink::Stdout => s("stdout"),
        Sink::Stderr => s("stderr"),
        Sink::Buffer => s("buffer"),
        Sink::File(path) => format!("file:{}", path),
    })
}

#[test]
fn sinks_have_names() {
    assert_eq!(sink("stdout"), Ok(s("stdout")));
    assert_eq!(sink("stderr"), Ok(s("stderr")));
    assert_eq!(sink("buffer"), Ok(s("buffer")));
    assert_eq!(sink("file /some/file path"), Ok(s("file:/some/file path")));
    assert_eq!(sink(&file_sink_name("x.log")), Ok(s("file:x.log")));
    assert_eq!(sink("file"), Err(Status::MissingFilePath));
    assert_eq!(sink("file "), Err(Status::MissingFilePath));
    assert_eq!(sink("files"), Err(Status::UnknownSinkType));
    assert_eq!(sink("Stdout"), Err(Status::UnknownSinkType));
    assert_eq!(sink(""), Err(Status::UnknownSinkType));
}

#[test]
fn statuses_have_codes() {
    let codes: Vec<i32> = [
        Status::Success,
        Status::CantSetLogger,
        Status::NoLogger,
        Status::SpecifierNotUtf8,
        Status::UnknownSinkType,
        Status::MissingFilePath,
        Status::CantOpenSinkToFile,
        Status::CantConstructSink,
    ]
    .iter()
    .map(|status| status.code())
    .collect();
    assert_eq!(codes, vec![0, -1, -2, -3, -4, -5, -6, -7]);
    assert_eq!(first_failure(0, 0), 0);
    assert_eq!(first_failure(0, -2), -2);
    assert_eq!(first_failure(-4, -2), -4);
}

#[test]
fn messages_are_logged_with_defaults() {
    assert_eq!(log_level_from_str(None), LogLevel::Info);
    assert_eq!(log_level_from_str(Some("DEBUG")), LogLevel::Debug);
    assert_eq!(log_level_from_str(Some("error")), LogLevel::Error);
    assert_eq!(log_level_from_str(Some("OFF")), LogLevel::Info);
    assert_eq!(log_level_from_str(Some("loud")), LogLevel::Info);
    assert_eq!(log_buffer_id(None), "global");
    assert_eq!(log_buffer_id(Some("mine")), "mine");
    assert_eq!(log_target(None), "client");
    assert_eq!(log_target(Some("pact_go")), "pact_go");
    assert_eq!(log_env_var(None), "LOG_LEVEL");
    assert_eq!(log_env_var(Some("RUST_LOG")), "RUST_LOG");
}

#[test]
fn an_error_message_needs_a_buffer_that_holds_it() {
    let message = b"oops".to_vec();
    assert_eq!(error_message_status(false, &message, 100), ErrorStatus::NullBuffer);
    assert_eq!(error_message_status(true, &message, 4), ErrorStatus::BufferTooSmall);
    assert_eq!(error_message_status(true, &message, 5), ErrorStatus::Success);
    assert_eq!(error_message_status(true, &vec![], 0), ErrorStatus::BufferTooSmall);
    assert_eq!(error_message_status(true, &vec![], 1), ErrorStatus::Success);
    assert_eq!(error_message_status(true, &b"a\0b".to_vec(), 100), ErrorStatus::InteriorNul);
    assert_eq!(ErrorStatus::Success.code(), 0);
    assert_eq!(ErrorStatus::NullBuffer.code(), -1);
    assert_eq!(ErrorStatus::BufferTooSmall.code(), -2);
    assert_eq!(ErrorStatus::InteriorNul.code(), -4);
}
