//! What the logger lets through and how a record reaches the system log.
use crate::text::{chars_of, find_char, joined, joined3, lemma_index_of_char};
use vstd::prelude::*;

verus! {

broadcast use vstd::string::group_string_axioms;

/// The system log's type for records of an application.
pub const LOG_APP: i32 = 0;

pub const LOG_DEBUG: i32 = 3;

pub const LOG_INFO: i32 = 4;

pub const LOG_WARN: i32 = 5;

pub const LOG_ERROR: i32 = 6;

/// The system log's domain for this library.
pub const DOMAIN: u32 = 0x0001;

/// How grave a record is.
#[derive(Clone, Copy, PartialEq, Eq, Structural, Debug)]
pub enum Level {
    Error,
    Warn,
    Info,
    Debug,
    Trace,
}

/// The settings under which the logger is installed.
#[derive(Clone, Copy, PartialEq, Eq, Structural, Debug)]
pub struct LoggerSettings {
    /// The least grave level that is let through.
    pub max_level: Level,
    pub log_type: i32,
    pub domain: u32,
}

/// A record ready for the system log.
pub struct LogLine {
    pub level: i32,
    pub message: String,
}

/// The settings that the logger starts with: everything but traces is let through.
pub fn init() -> (settings: LoggerSettings)
    ensures
        settings == (LoggerSettings {
            max_level: Level::Debug,
            log_type: LOG_APP,
            domain: DOMAIN,
        }),
{
    LoggerSettings { max_level: Level::Debug, log_type: LOG_APP, domain: DOMAIN }
}

/// The system log's number for a level.
pub open spec fn system_level(level: Level) -> i32 {
    match level {
        Level::Error => LOG_ERROR,
        Level::Warn => LOG_WARN,
        Level::Info => LOG_INFO,
        Level::Debug => LOG_DEBUG,
        Level::Trace => LOG_DEBUG,
    }
}

/// The message of a record: its target in brackets, then its text.
pub open spec fn record_message(target: Seq<char>, text: Seq<char>) -> Seq<char> {
    "["@ + target + "] "@ + text
}

/// The line for a record, unless its message holds a NUL, which the system log cannot take.
pub fn log(level: Level, target: &str, text: &str) -> (line: Option<LogLine>)
    ensures
        line is None <==> record_message(target@, text@).contains('\0'),
        line matches Some(l) ==> l.level == system_level(level) && l.message@ == record_message(
            target@,
            text@,
        ),
{
    let message = joined(joined3("[", target, "] ").as_str(), text);
    proof {
        lemma_index_of_char(message@, '\0');
    }
    let chars = chars_of(message.as_str());
    match find_char(chars.as_slice(), '\0') {
        Some(_) => None,
        None => {
            let number: i32 = match level {
                Level::Error => LOG_ERROR,
                Level::Warn => LOG_WARN,
                Level::Info => LOG_INFO,
                Level::Debug => LOG_DEBUG,
                Level::Trace => LOG_DEBUG,
            };
            Some(LogLine { level: number, message })
        },
    }
}

} // verus!
