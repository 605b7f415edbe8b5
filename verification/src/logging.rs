//! What the logging interface for other languages decides: how a sink is
//! named, what status a step ends with, and at what level a message is
//! logged.

use crate::cli::{level_named, named_level, option_str_view, LogLevel};
use crate::content_type::starts_with;
use crate::text::{chars_of, string_of};
use vstd::prelude::*;

verus! {

/// How a call of the logging interface ended.
#[derive(Debug, Clone, Copy, PartialEq, Eq, Structural)]
pub enum Status {
    /// All went well.
    Success,
    /// The logger could not be set, perhaps because one is set already.
    CantSetLogger,
    /// No logger has been initialised.
    NoLogger,
    /// The name of the sink is no UTF-8.
    SpecifierNotUtf8,
    /// The name of the sink names no kind of sink that is known.
    UnknownSinkType,
    /// The name of a file sink names no file.
    MissingFilePath,
    /// The file of a file sink could not be opened.
    CantOpenSinkToFile,
    /// The name of the sink could not be made.
    CantConstructSink,
}

/// The number that stands for a status.
pub open spec fn status_code(status: Status) -> int {
    match status {
        Status::Success => 0,
        Status::CantSetLogger => -1,
        Status::NoLogger => -2,
        Status::SpecifierNotUtf8 => -3,
        Status::UnknownSinkType => -4,
        Status::MissingFilePath => -5,
        Status::CantOpenSinkToFile => -6,
        Status::CantConstructSink => -7,
    }
}

impl Status {
    /// The number that stands for this status.
    pub fn code(&self) -> (code: i32)
        ensures
            code == status_code(*self),
    {
        match self {
            Status::Success => 0,
            Status::CantSetLogger => -1,
            Status::NoLogger => -2,
            Status::SpecifierNotUtf8 => -3,
            Status::UnknownSinkType => -4,
            Status::MissingFilePath => -5,
            Status::CantOpenSinkToFile => -6,
            Status::CantConstructSink => -7,
        }
    }
}

/// Where log messages go.
#[derive(Debug)]
pub enum Sink {
    /// To the standard output.
    Stdout,
    /// To the standard error.
    Stderr,
    /// To a buffer in memory.
    Buffer,
    /// To the file of this path.
    File(String),
}

/// The mathematical value of a `Sink`.
pub enum SinkView {
    Stdout,
    Stderr,
    Buffer,
    File(Seq<char>),
}

impl View for Sink {
    type V = SinkView;

    open spec fn view(&self) -> SinkView {
        match self {
            Sink::Stdout => SinkView::Stdout,
            Sink::Stderr => SinkView::Stderr,
            Sink::Buffer => SinkView::Buffer,
            Sink::File(path) => SinkView::File(path@),
        }
    }
}

/// The sink that a name stands for: `stdout`, `stderr`, `buffer`, or
/// `file` and behind a blank the path of a file.
pub open spec fn sink_named(specifier: Seq<char>) -> Result<SinkView, Status> {
    if specifier == "stdout"@ {
        Ok(SinkView::Stdout)
    } else if specifier == "stderr"@ {
        Ok(SinkView::Stderr)
    } else if specifier == "buffer"@ {
        Ok(SinkView::Buffer)
    } else if specifier == "file"@ {
        Err(Status::MissingFilePath)
    } else if starts_with(specifier, "file "@) {
        if specifier.len() > "file "@.len() {
            Ok(SinkView::File(specifier.skip("file "@.len() as int)))
        } else {
            Err(Status::MissingFilePath)
        }
    } else {
        Err(Status::UnknownSinkType)
    }
}

/// A sink or a status, the sink taken by its view.
pub open spec fn sink_result_view(r: Result<Sink, Status>) -> Result<SinkView, Status> {
    match r {
        Ok(sink) => Ok(sink@),
        Err(status) => Err(status),
    }
}

/// Reads the name of a sink.
pub fn parse_sink(specifier: &str) -> (r: Result<Sink, Status>)
    ensures
        sink_result_view(r) == sink_named(specifier@),
{
    if specifier.eq("stdout") {
        Ok(Sink::Stdout)
    } else if specifier.eq("stderr") {
        Ok(Sink::Stderr)
    } else if specifier.eq("buffer") {
        Ok(Sink::Buffer)
    } else if specifier.eq("file") {
        Err(Status::MissingFilePath)
    } else {
        let s = chars_of(specifier);
        let prefix = chars_of("file ");
        if prefix.len() <= s.len() {
            let mut i: usize = 0;
            let mut same = true;
            while i < prefix.len() && same
                invariant
                    i <= prefix.len() <= s.len(),
                    same ==> s@.take(i as int) == prefix@.take(i as int),
                    !same ==> !starts_with(s@, prefix@),
                decreases prefix.len() - i + if same { 1nat } else { 0nat },
            {
                if s[i] != prefix[i] {
                    same = false;
                    proof {
                        if starts_with(s@, prefix@) {
                            assert(s@.take(prefix.len() as int)[i as int] == prefix@[i as int]);
                        }
                    }
                } else {
                    i = i + 1;
                    assert(s@.take(i as int) =~= s@.take(i - 1).push(s@[i - 1]));
                    assert(prefix@.take(i as int) =~= prefix@.take(i - 1).push(prefix@[i - 1]));
                }
            }
            if same {
                assert(prefix@.take(prefix.len() as int) =~= prefix@);
                if s.len() > prefix.len() {
                    let mut path: Vec<char> = Vec::new();
                    let mut k: usize = prefix.len();
                    while k < s.len()
                        invariant
                            prefix.len() <= k <= s.len(),
                            path@ == s@.subrange(prefix.len() as int, k as int),
                        decreases s.len() - k,
                    {
                        path.push(s[k]);
                        k = k + 1;
                        assert(s@.subrange(prefix.len() as int, k as int) =~= s@.subrange(
                            prefix.len() as int,
                            k - 1,
                        ).push(s@[k - 1]));
                    }
                    assert(s@.subrange(prefix.len() as int, s.len() as int) =~= s@.skip(
                        prefix.len() as int,
                    ));
                    Ok(Sink::File(string_of(&path)))
                } else {
                    Err(Status::MissingFilePath)
                }
            } else {
                Err(Status::UnknownSinkType)
            }
        } else {
            Err(Status::UnknownSinkType)
        }
    }
}

/// The name of the sink that is a file.
pub fn file_sink_name(file_name: &str) -> (specifier: String)
    ensures
        specifier@ == "file "@ + file_name@,
{
    let mut specifier = String::from_str("file ");
    specifier.append(file_name);
    specifier
}

/// The status of two steps of which the second is taken only if the
/// first went well: that of the first where it failed, else that of the
/// second.
pub fn first_failure(first: i32, second: i32) -> (status: i32)
    ensures
        status == (if first != 0 {
            first
        } else {
            second
        }),
{
    if first != 0 {
        first
    } else {
        second
    }
}

/// The level at which a message is logged: the one of the given name,
/// and `Info` where there is no name or the name is that of no level.
pub open spec fn message_level(name: Option<Seq<char>>) -> LogLevel {
    match name {
        Some(text) => match level_named(text) {
            Some(level) => if level == LogLevel::Off {
                LogLevel::Info
            } else {
                level
            },
            None => LogLevel::Info,
        },
        None => LogLevel::Info,
    }
}

/// The level at which a message is logged.
pub fn log_level_from_str(name: Option<&str>) -> (level: LogLevel)
    ensures
        level == message_level(option_str_view(name)),
{
    match name {
        Some(text) => match named_level(text) {
            Some(level) => if level == LogLevel::Off {
                LogLevel::Info
            } else {
                level
            },
            None => LogLevel::Info,
        },
        None => LogLevel::Info,
    }
}

/// The name under which the log of a caller is kept: the given one, and
/// `global` where there is none.
pub fn log_buffer_id<'a>(log_id: Option<&'a str>) -> (id: &'a str)
    ensures
        id@ == (match log_id {
            Some(text) => text@,
            None => "global"@,
        }),
{
    match log_id {
        Some(text) => text,
        None => "global",
    }
}

/// The target under which a message is logged: the given source, and
/// `client` where there is none.
pub fn log_target<'a>(source: Option<&'a str>) -> (target: &'a str)
    ensures
        target@ == (match source {
            Some(text) => text@,
            None => "client"@,
        }),
{
    match source {
        Some(text) => text,
        None => "client",
    }
}

/// The name of the environment variable that sets the log level: the
/// given one, and `LOG_LEVEL` where there is none.
pub fn log_env_var<'a>(name: Option<&'a str>) -> (var: &'a str)
    ensures
        var@ == (match name {
            Some(text) => text@,
            None => "LOG_LEVEL"@,
        }),
{
    match name {
        Some(text) => text,
        None => "LOG_LEVEL",
    }
}

/// How the handing over of the last error message ended.
#[derive(Debug, Clone, Copy, PartialEq, Eq, Structural)]
pub enum ErrorStatus {
    /// The message was written.
    Success,
    /// There is no buffer to write to.
    NullBuffer,
    /// The buffer is too small for the message.
    BufferTooSmall,
    /// The message holds a NUL, which ends a text in C.
    InteriorNul,
}

/// The number that stands for the way the handing over ended.
pub open spec fn error_status_code(status: ErrorStatus) -> int {
    match status {
        ErrorStatus::Success => 0,
        ErrorStatus::NullBuffer => -1,
        ErrorStatus::BufferTooSmall => -2,
        ErrorStatus::InteriorNul => -4,
    }
}

/// Whether a message holds a NUL.
pub open spec fn holds_nul(message: Seq<u8>) -> bool {
    exists|i: int| 0 <= i < message.len() && #[trigger] message[i] == 0
}

/// How the handing over of a message to a buffer of the given size ends.
/// The message is written with a NUL behind it, so that the buffer must
/// be larger than the message.
pub open spec fn error_status(has_buffer: bool, message: Seq<u8>, capacity: usize) -> ErrorStatus {
    if !has_buffer {
        ErrorStatus::NullBuffer
    } else if holds_nul(message) {
        ErrorStatus::InteriorNul
    } else if message.len() >= capacity {
        ErrorStatus::BufferTooSmall
    } else {
        ErrorStatus::Success
    }
}

impl ErrorStatus {
    /// The number that stands for this status.
    pub fn code(&self) -> (code: i32)
        ensures
            code == error_status_code(*self),
    {
        match self {
            ErrorStatus::Success => 0,
            ErrorStatus::NullBuffer => -1,
            ErrorStatus::BufferTooSmall => -2,
            ErrorStatus::InteriorNul => -4,
        }
    }
}

/// Says how the handing over of a message to a buffer of the given size
/// ends.
pub fn error_message_status(has_buffer: bool, message: &Vec<u8>, capacity: usize) -> (status:
    ErrorStatus)
    ensures
        status == error_status(has_buffer, message@, capacity),
{
    if !has_buffer {
        return ErrorStatus::NullBuffer;
    }
    let mut i: usize = 0;
    while i < message.len()
        invariant
            has_buffer,
            i <= message.len(),
            forall|k: int| 0 <= k < i ==> #[trigger] message@[k] != 0,
        decreases message.len() - i,
    {
        if message[i] == 0 {
            assert(holds_nul(message@));
            return ErrorStatus::InteriorNul;
        }
        i = i + 1;
    }
    if message.len() >= capacity {
        ErrorStatus::BufferTooSmall
    } else {
        ErrorStatus::Success
    }
}

} // verus!
