//! Logs screen state: the entry shape, severity levels classified from
//! keywords, and the level filter.

use vstd::prelude::*;
use crate::strutil::contains_bytes;
use crate::strutil::contains_ci;
use crate::strutil::lower_bytes;

verus! {

/// One displayed log row.
#[derive(Clone, Debug)]
pub struct LogEntry {
    pub timestamp: String,
    pub level: LogLevel,
    pub action: String,
    pub detail: String,
    pub agent: String,
}

/// A log row's severity.
#[derive(Clone, Copy, PartialEq, Eq, Structural, Debug)]
pub enum LogLevel {
    Error,
    Warn,
    Info,
}

impl Default for LogLevel {
    /// The severity a row carries until classified.
    fn default() -> (r: LogLevel)
        ensures
            r == LogLevel::Info,
    {
        LogLevel::Info
    }
}

impl LogLevel {
    /// The three-letter badge shown beside a row.
    pub fn label(self) -> (r: &'static str)
        ensures
            self is Error ==> r@ == "ERR"@,
            self is Warn ==> r@ == "WRN"@,
            self is Info ==> r@ == "INF"@,
    {
        match self {
            LogLevel::Error => "ERR",
            LogLevel::Warn => "WRN",
            LogLevel::Info => "INF",
        }
    }
}

/// A keyword occurs, ASCII-case-insensitively, in the action or the detail.
pub open spec fn has_kw(action: Seq<u8>, detail: Seq<u8>, needle: Seq<char>) -> bool {
    contains_bytes(lower_bytes(action), vstd::utf8::encode_utf8(needle)) || contains_bytes(
        lower_bytes(detail),
        vstd::utf8::encode_utf8(needle),
    )
}

/// The severity the keywords of a row imply: failure words make an error,
/// denial and delay words make a warning, anything else is informational.
pub open spec fn level_of(action: Seq<u8>, detail: Seq<u8>) -> LogLevel {
    if has_kw(action, detail, "error"@) || has_kw(action, detail, "fail"@) || has_kw(
        action,
        detail,
        "crash"@,
    ) || has_kw(action, detail, "panic"@) {
        LogLevel::Error
    } else if has_kw(action, detail, "warn"@) || has_kw(action, detail, "deny"@) || has_kw(
        action,
        detail,
        "denied"@,
    ) || has_kw(action, detail, "block"@) || has_kw(action, detail, "timeout"@) {
        LogLevel::Warn
    } else {
        LogLevel::Info
    }
}

fn kw2(action: &str, detail: &str, needle: &str) -> (r: bool)
    ensures
        r == has_kw(
            vstd::utf8::encode_utf8(action@),
            vstd::utf8::encode_utf8(detail@),
            needle@,
        ),
{
    contains_ci(action.as_bytes(), needle.as_bytes()) || contains_ci(
        detail.as_bytes(),
        needle.as_bytes(),
    )
}

/// Classifies a row's severity from action and detail keywords, compared
/// without regard to ASCII letter case.
pub fn classify_level(action: &str, detail: &str) -> (r: LogLevel)
    ensures
        r == level_of(vstd::utf8::encode_utf8(action@), vstd::utf8::encode_utf8(detail@)),
{
    if kw2(action, detail, "error") || kw2(action, detail, "fail") || kw2(action, detail, "crash")
        || kw2(action, detail, "panic") {
        LogLevel::Error
    } else if kw2(action, detail, "warn") || kw2(action, detail, "deny") || kw2(
        action,
        detail,
        "denied",
    ) || kw2(action, detail, "block") || kw2(action, detail, "timeout") {
        LogLevel::Warn
    } else {
        LogLevel::Info
    }
}

/// The logs viewer's severity filter.
#[derive(Clone, Copy, PartialEq, Eq, Structural, Debug)]
pub enum LevelFilter {
    All,
    Error,
    Warn,
    Info,
}

impl LevelFilter {
    /// The filter's display label.
    pub fn label(self) -> (r: &'static str)
        ensures
            self is All ==> r@ == "All"@,
            self is Error ==> r@ == "Error"@,
            self is Warn ==> r@ == "Warn"@,
            self is Info ==> r@ == "Info"@,
    {
        match self {
            LevelFilter::All => "All",
            LevelFilter::Error => "Error",
            LevelFilter::Warn => "Warn",
            LevelFilter::Info => "Info",
        }
    }

    /// The next filter in the cycle the filter key steps through.
    pub fn next(self) -> (r: LevelFilter)
        ensures
            r == match self {
                LevelFilter::All => LevelFilter::Error,
                LevelFilter::Error => LevelFilter::Warn,
                LevelFilter::Warn => LevelFilter::Info,
                LevelFilter::Info => LevelFilter::All,
            },
    {
        match self {
            LevelFilter::All => LevelFilter::Error,
            LevelFilter::Error => LevelFilter::Warn,
            LevelFilter::Warn => LevelFilter::Info,
            LevelFilter::Info => LevelFilter::All,
        }
    }

    /// Whether a row of the given severity passes this filter.
    pub fn matches(self, level: LogLevel) -> (r: bool)
        ensures
            r == match self {
                LevelFilter::All => true,
                LevelFilter::Error => level == LogLevel::Error,
                LevelFilter::Warn => level == LogLevel::Warn,
                LevelFilter::Info => level == LogLevel::Info,
            },
    {
        match self {
            LevelFilter::All => true,
            LevelFilter::Error => level == LogLevel::Error,
            LevelFilter::Warn => level == LogLevel::Warn,
            LevelFilter::Info => level == LogLevel::Info,
        }
    }
}

/// What the logs screen asks its driver to do next.
#[derive(Clone, Copy, PartialEq, Eq, Structural, Debug)]
pub enum LogsAction {
    Continue,
    Refresh,
}

} // verus!
