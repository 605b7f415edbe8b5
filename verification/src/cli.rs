//! What the command line of the mock server decides: whether a value is a
//! port or an identifier, which of two values of an option counts, and
//! how logging is set up.

use crate::content_type::ascii_lower;
use crate::text::{concat3, is_numeral, numeral_value, option_text};
use vstd::prelude::*;

verus! {

/// The message with which the standard library refuses a text as a
/// number of 16 bits.
pub uninterp spec fn port_parse_error(text: Seq<char>) -> Seq<char>;

/// The message with which the `uuid` crate refuses a text as a UUID;
/// none where it accepts the text.
pub uninterp spec fn uuid_parse_error(text: Seq<char>) -> Option<Seq<char>>;

/// The digits of a number as they may be written: behind a plus sign or
/// without one.
pub open spec fn unsigned_digits(text: Seq<char>) -> Seq<char> {
    if text.len() > 0 && text[0] == '+' {
        text.skip(1)
    } else {
        text
    }
}

/// The port that a text stands for: a number up to 65535 in decimal
/// digits, with or without a plus sign in front.
pub open spec fn port_of_text(text: Seq<char>) -> Option<u16> {
    let digits = unsigned_digits(text);
    if is_numeral(digits) && numeral_value(digits) <= u16::MAX {
        Some(numeral_value(digits) as u16)
    } else {
        None
    }
}

/// A port or a message, the message taken by its characters.
pub open spec fn port_result_view(r: Result<u16, String>) -> Result<u16, Seq<char>> {
    match r {
        Ok(port) => Ok(port),
        Err(message) => Err(message@),
    }
}

/// `str::parse` for `u16`: it accepts decimal digits with or without a
/// plus sign in front, if the number fits; the message for any other text
/// depends on the text alone.
#[verifier::external_body]
fn parse_u16(text: &str) -> (r: Result<u16, String>)
    ensures
        r is Ok <==> port_of_text(text@) is Some,
        r matches Ok(port) ==> Some(port) == port_of_text(text@),
        r matches Err(message) ==> message@ == port_parse_error(text@),
{
    text.parse::<u16>().map_err(|e| e.to_string())
}

/// `Uuid::parse_str`: whether it accepts a text, and the message with
/// which it refuses one, depend on the text alone.
#[verifier::external_body]
fn uuid_error(text: &str) -> (r: Option<String>)
    ensures
        option_text(r) == uuid_parse_error(text@),
{
    uuid::Uuid::parse_str(text).err().map(|e| e.to_string())
}

/// Nothing or a message, the message taken by its characters.
pub open spec fn unit_result_view(r: Result<(), String>) -> Result<(), Seq<char>> {
    match r {
        Ok(_) => Ok(()),
        Err(message) => Err(message@),
    }
}

/// Whether a value is a port, and the message for one that is none.
pub open spec fn checked_port(value: Seq<char>) -> Result<(), Seq<char>> {
    match port_of_text(value) {
        Some(_) => Ok(()),
        None => Err("'"@ + value + "' is not a valid port value: "@ + port_parse_error(value)),
    }
}

/// Whether a value is a UUID, and the message for one that is none.
pub open spec fn checked_uuid(value: Seq<char>) -> Result<(), Seq<char>> {
    match uuid_parse_error(value) {
        None => Ok(()),
        Some(reason) => Err("'"@ + value + "' is not a valid UUID value: "@ + reason),
    }
}

/// Checks that the value of an option is a port.
pub fn integer_value(v: String) -> (r: Result<(), String>)
    ensures
        unit_result_view(r) == checked_port(v@),
{
    match parse_u16(v.as_str()) {
        Ok(_) => Ok(()),
        Err(e) => {
            let mut message = concat3("'", v.as_str(), "' is not a valid port value: ");
            message.append(e.as_str());
            Err(message)
        },
    }
}

/// Checks that the value of an option is a UUID.
pub fn uuid_value(v: String) -> (r: Result<(), String>)
    ensures
        unit_result_view(r) == checked_uuid(v@),
{
    match uuid_error(v.as_str()) {
        None => Ok(()),
        Some(reason) => {
            let mut message = concat3("'", v.as_str(), "' is not a valid UUID value: ");
            message.append(reason.as_str());
            Err(message)
        },
    }
}

/// The characters of a borrowed text that may be absent.
pub open spec fn option_str_view(o: Option<&str>) -> Option<Seq<char>> {
    match o {
        Some(text) => Some(text@),
        None => None,
    }
}

/// The value of an option that may be given before the command and
/// behind it: the one behind the command where both are given.
pub open spec fn chosen_option(global: Option<Seq<char>>, command: Option<Seq<char>>) -> Option<
    Seq<char>,
> {
    match command {
        Some(value) => Some(value),
        None => global,
    }
}

/// The value of an option that may be given before the command and
/// behind it.
pub fn lookup_global_option<'a>(global_value: Option<&'a str>, command_value: Option<&'a str>) -> (value:
    Option<&'a str>)
    ensures
        option_str_view(value) == chosen_option(
            option_str_view(global_value),
            option_str_view(command_value),
        ),
{
    match command_value {
        Some(v) => Some(v),
        None => global_value,
    }
}

/// Whether an option was given twice, which is worth a warning.
pub fn given_twice(global_value: Option<&str>, command_value: Option<&str>) -> (r: bool)
    ensures
        r == (global_value is Some && command_value is Some),
{
    global_value.is_some() && command_value.is_some()
}

/// Whether a flag is set before the command or behind it.
pub fn global_option_present(global: bool, command: bool) -> (r: bool)
    ensures
        r == (global || command),
{
    global || command
}

/// The message for a port that is no port.
pub open spec fn bad_port_message(port: Seq<char>) -> Seq<char> {
    port + " is not a valid port number"@
}

/// The port that the master server runs on: the one that the options
/// give, and 8080 where they give none.
pub open spec fn chosen_port(global: Option<Seq<char>>, command: Option<Seq<char>>) -> Result<
    u16,
    Seq<char>,
> {
    let text = match chosen_option(global, command) {
        Some(value) => value,
        None => "8080"@,
    };
    match port_of_text(text) {
        Some(port) => Ok(port),
        None => Err(bad_port_message(text)),
    }
}

/// The port that the master server runs on.
pub fn port_option(global_value: Option<&str>, command_value: Option<&str>) -> (r: Result<
    u16,
    String,
>)
    ensures
        port_result_view(r) == chosen_port(
            option_str_view(global_value),
            option_str_view(command_value),
        ),
{
    let text = match lookup_global_option(global_value, command_value) {
        Some(value) => value,
        None => "8080",
    };
    match parse_u16(text) {
        Ok(port) => Ok(port),
        Err(_) => {
            let mut message = String::from_str(text);
            message.append(" is not a valid port number");
            Err(message)
        },
    }
}

/// The host that the master server runs on: the one that the options
/// give, and `localhost` where they give none.
pub fn host_option<'a>(global_value: Option<&'a str>, command_value: Option<&'a str>) -> (host: &'a str)
    ensures
        host@ == (match chosen_option(
            option_str_view(global_value),
            option_str_view(command_value),
        ) {
            Some(value) => value,
            None => "localhost"@,
        }),
{
    match lookup_global_option(global_value, command_value) {
        Some(value) => value,
        None => "localhost",
    }
}

/// The commands of the mock server.
#[derive(Debug, Clone, Copy, PartialEq, Eq, Structural)]
pub enum Command {
    Start,
    List,
    Create,
    Verify,
    Shutdown,
}

/// The command that a name stands for.
pub open spec fn command_named(name: Seq<char>) -> Option<Command> {
    if name == "start"@ {
        Some(Command::Start)
    } else if name == "list"@ {
        Some(Command::List)
    } else if name == "create"@ {
        Some(Command::Create)
    } else if name == "verify"@ {
        Some(Command::Verify)
    } else if name == "shutdown"@ {
        Some(Command::Shutdown)
    } else {
        None
    }
}

/// The command that a name stands for; an unknown name is none.
pub fn command_of(name: &str) -> (command: Option<Command>)
    ensures
        command == command_named(name@),
{
    if name.eq("start") {
        Some(Command::Start)
    } else if name.eq("list") {
        Some(Command::List)
    } else if name.eq("create") {
        Some(Command::Create)
    } else if name.eq("verify") {
        Some(Command::Verify)
    } else if name.eq("shutdown") {
        Some(Command::Shutdown)
    } else {
        None
    }
}

/// How much is logged.
#[derive(Debug, Clone, Copy, PartialEq, Eq, Structural)]
pub enum LogLevel {
    Off,
    Error,
    Warn,
    Info,
    Debug,
    Trace,
}

/// The level that a name stands for in the `log` crate: one of its six
/// names, in capitals or not.
pub open spec fn level_named(name: Seq<char>) -> Option<LogLevel> {
    let small = ascii_lower(name);
    if small == "off"@ {
        Some(LogLevel::Off)
    } else if small == "error"@ {
        Some(LogLevel::Error)
    } else if small == "warn"@ {
        Some(LogLevel::Warn)
    } else if small == "info"@ {
        Some(LogLevel::Info)
    } else if small == "debug"@ {
        Some(LogLevel::Debug)
    } else if small == "trace"@ {
        Some(LogLevel::Trace)
    } else {
        None
    }
}

/// `LevelFilter::from_str` of the `log` crate: it accepts its six names
/// without regard to the case of ASCII letters.
#[verifier::external_body]
fn level_filter(name: &str) -> (level: Option<LogLevel>)
    ensures
        level == level_named(name@),
{
    match name.parse::<log::LevelFilter>() {
        Ok(log::LevelFilter::Off) => Some(LogLevel::Off),
        Ok(log::LevelFilter::Error) => Some(LogLevel::Error),
        Ok(log::LevelFilter::Warn) => Some(LogLevel::Warn),
        Ok(log::LevelFilter::Info) => Some(LogLevel::Info),
        Ok(log::LevelFilter::Debug) => Some(LogLevel::Debug),
        Ok(log::LevelFilter::Trace) => Some(LogLevel::Trace),
        Err(_) => None,
    }
}

/// The level that a name stands for; nothing for a name that is no
/// level.
pub fn named_level(name: &str) -> (level: Option<LogLevel>)
    ensures
        level == level_named(name@),
{
    level_filter(name)
}

/// The level that the option `loglevel` asks for: none of it for `none`,
/// and else the level of that name.
pub open spec fn level_asked(level: Seq<char>) -> Option<LogLevel> {
    if level == "none"@ {
        Some(LogLevel::Off)
    } else {
        level_named(level)
    }
}

/// The level that the option `loglevel` asks for; nothing for a name
/// that is no level.
pub fn log_level(level: &str) -> (asked: Option<LogLevel>)
    ensures
        asked == level_asked(level@),
{
    if level.eq("none") {
        Some(LogLevel::Off)
    } else {
        level_filter(level)
    }
}

/// Where the log goes.
#[derive(Debug, Clone, Copy, PartialEq, Eq, Structural)]
pub enum LoggerKind {
    /// To the standard output, line by line.
    Simple,
    /// To the terminal.
    Term,
    /// To the log file.
    File,
    /// To the terminal and to the log file.
    TermAndFile,
}

/// Where the log goes: the master server logs to the terminal and to the
/// log file unless the flags take one of them away; the other commands
/// log to the terminal, or to the standard output without it.
pub open spec fn logger_for(command: Seq<char>, no_file_log: bool, no_term_log: bool) -> LoggerKind {
    if command == "start"@ {
        if no_file_log && no_term_log {
            LoggerKind::Simple
        } else if no_file_log {
            LoggerKind::Term
        } else if no_term_log {
            LoggerKind::File
        } else {
            LoggerKind::TermAndFile
        }
    } else if no_term_log {
        LoggerKind::Simple
    } else {
        LoggerKind::Term
    }
}

/// Where the log goes for a command and the two flags on logging.
pub fn logger_kind(command: &str, no_file_log: bool, no_term_log: bool) -> (kind: LoggerKind)
    ensures
        kind == logger_for(command@, no_file_log, no_term_log),
{
    if command.eq("start") {
        if no_file_log && no_term_log {
            LoggerKind::Simple
        } else if no_file_log {
            LoggerKind::Term
        } else if no_term_log {
            LoggerKind::File
        } else {
            LoggerKind::TermAndFile
        }
    } else if no_term_log {
        LoggerKind::Simple
    } else {
        LoggerKind::Term
    }
}

} // verus!
