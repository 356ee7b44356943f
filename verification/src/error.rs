//! The errors of the application, each with the message it reports.
use vstd::prelude::*;

use crate::text::{push_str, string_from_chars, to_chars};

verus! {

/// What can go wrong when rendering or locating files.
#[derive(Debug, Clone, PartialEq, Eq)]
pub enum MarkError {
    /// The input file does not exist; holds the path as given.
    InputNotFound(String),
    /// No home directory could be determined.
    NoHomeDir,
    /// An I/O operation failed; holds the operating system's description.
    Io(String),
    /// The configuration could not be read or written.
    Config(String),
}

/// The message reported for `e`.
pub open spec fn error_text(e: MarkError) -> Seq<char> {
    match e {
        MarkError::InputNotFound(p) => "Input file not found: "@ + p@,
        MarkError::NoHomeDir => "Cannot determine home directory"@,
        MarkError::Io(d) => "IO error: "@ + d@,
        MarkError::Config(d) => "Config error: "@ + d@,
    }
}

impl MarkError {
    /// The message reported for this error.
    pub fn message(&self) -> (r: String)
        ensures
            r@ == error_text(*self),
    {
        let v = match self {
            MarkError::InputNotFound(p) => {
                let mut v = to_chars("Input file not found: ");
                push_str(&mut v, p.as_str());
                v
            },
            MarkError::NoHomeDir => to_chars("Cannot determine home directory"),
            MarkError::Io(d) => {
                let mut v = to_chars("IO error: ");
                push_str(&mut v, d.as_str());
                v
            },
            MarkError::Config(d) => {
                let mut v = to_chars("Config error: ");
                push_str(&mut v, d.as_str());
                v
            },
        };
        string_from_chars(&v)
    }
}

} // verus!
