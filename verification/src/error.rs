//! Crate-wide error type and the text each error renders to.

use vstd::prelude::*;

use crate::text::{decimal, push_decimal, push_str};

verus! {

/// Every failure the library reports. Wrapped foreign errors (I/O, TOML)
/// are carried as their rendered message.
#[derive(Debug, Clone, PartialEq, Eq)]
pub enum Error {
    Io(String),
    Config(String),
    CdbNotFound(String),
    SessionNotFound(String),
    SessionLimit(usize),
    InvalidState { current: String, action: String },
    CdbExited(String),
    Timeout(u64),
    WindowsApi(String),
    Other(String),
}

/// The message an error renders to.
pub open spec fn error_message(e: Error) -> Seq<char> {
    match e {
        Error::Io(s) => "io error: "@ + s@,
        Error::Config(s) => "invalid configuration: "@ + s@,
        Error::CdbNotFound(s) => "cdb executable not found: "@ + s@,
        Error::SessionNotFound(s) => "cdb session not found: "@ + s@,
        Error::SessionLimit(n) => "cdb session limit reached (max = "@ + decimal(n as nat) + ")"@,
        Error::InvalidState { current, action } => "invalid session state: "@ + current@
            + " \u{2014} "@ + action@ + " not allowed"@,
        Error::CdbExited(s) => "cdb session exited unexpectedly: "@ + s@,
        Error::Timeout(ms) => "operation timed out after "@ + decimal(ms as nat) + " ms"@,
        Error::WindowsApi(s) => "windows api error: "@ + s@,
        Error::Other(s) => s@,
    }
}

/// `e` is `Error::Other` carrying exactly `msg`.
pub open spec fn is_other_with(e: Error, msg: Seq<char>) -> bool {
    e matches Error::Other(m) && m@ == msg
}

impl Error {
    /// Free-form error with the given message.
    pub fn other(msg: &str) -> (e: Error)
        ensures
            is_other_with(e, msg@),
    {
        Error::Other(msg.to_string())
    }

    /// The error's message (what `Display` prints).
    pub fn to_string(&self) -> (r: String)
        ensures
            r@ == error_message(*self),
    {
        let mut r = String::new();
        match self {
            Error::Io(s) => {
                push_str(&mut r, "io error: ");
                push_str(&mut r, s.as_str());
            },
            Error::Config(s) => {
                push_str(&mut r, "invalid configuration: ");
                push_str(&mut r, s.as_str());
            },
            Error::CdbNotFound(s) => {
                push_str(&mut r, "cdb executable not found: ");
                push_str(&mut r, s.as_str());
            },
            Error::SessionNotFound(s) => {
                push_str(&mut r, "cdb session not found: ");
                push_str(&mut r, s.as_str());
            },
            Error::SessionLimit(n) => {
                push_str(&mut r, "cdb session limit reached (max = ");
                push_decimal(&mut r, *n as u64);
                push_str(&mut r, ")");
            },
            Error::InvalidState { current, action } => {
                push_str(&mut r, "invalid session state: ");
                push_str(&mut r, current.as_str());
                push_str(&mut r, " \u{2014} ");
                push_str(&mut r, action.as_str());
                push_str(&mut r, " not allowed");
            },
            Error::CdbExited(s) => {
                push_str(&mut r, "cdb session exited unexpectedly: ");
                push_str(&mut r, s.as_str());
            },
            Error::Timeout(ms) => {
                push_str(&mut r, "operation timed out after ");
                push_decimal(&mut r, *ms);
                push_str(&mut r, " ms");
            },
            Error::WindowsApi(s) => {
                push_str(&mut r, "windows api error: ");
                push_str(&mut r, s.as_str());
            },
            Error::Other(s) => {
                push_str(&mut r, s.as_str());
            },
        }
        r
    }
}

} // verus!
