//! The recoverable errors of the language server and their pure mapping
//! onto protocol error codes and messages.

use vstd::prelude::*;
use crate::text::{chars_to_string, dec_digits, push_dec_u64, push_str_chars};

verus! {

/// A position inside a text document: zero-based line and character.
#[derive(Clone, Copy, PartialEq, Eq, Structural, Debug)]
pub struct Position {
    pub line: u32,
    pub character: u32,
}

/// Non-fatal errors of the language server. Resources are carried as their
/// textual form; positions as plain line and character numbers.
pub enum Error {
    SchemeNotSupported(String),
    InvalidPath(String),
    FileNotFound(String),
    InvalidPosition { pos: Position, file: String },
    MethodNotFound,
    FormattingFailed { details: String, file: String },
}

/// The protocol code for a request whose parameters are invalid.
pub const INVALID_PARAMS: i32 = -32602;

/// The protocol code for a method the server does not support.
pub const METHOD_NOT_FOUND: i32 = -32601;

/// The protocol code for an internal server failure.
pub const INTERNAL_ERROR: i32 = -32603;

/// The protocol error code of each error kind: four kinds of caller
/// misuse, one unsupported method, one internal failure.
pub open spec fn spec_code(e: Error) -> int {
    match e {
        Error::FileNotFound(_) => INVALID_PARAMS as int,
        Error::InvalidPosition { .. } => INVALID_PARAMS as int,
        Error::SchemeNotSupported(_) => INVALID_PARAMS as int,
        Error::InvalidPath(_) => INVALID_PARAMS as int,
        Error::MethodNotFound => METHOD_NOT_FOUND as int,
        Error::FormattingFailed { .. } => INTERNAL_ERROR as int,
    }
}

/// The textual form of a position, as its debug rendering: the line and
/// the character, each in decimal.
pub open spec fn spec_position_text(p: Position) -> Seq<char> {
    "Position { line: "@ + dec_digits(p.line as nat) + ", character: "@ + dec_digits(
        p.character as nat,
    ) + " }"@
}

/// The user-visible message of each error kind.
pub open spec fn spec_message(e: Error) -> Seq<char> {
    match e {
        Error::SchemeNotSupported(s) => "scheme not supported: "@ + s@,
        Error::InvalidPath(url) => "invalid path: "@ + url@,
        Error::FileNotFound(url) => "file "@ + url@ + " not found"@,
        Error::InvalidPosition { pos, file } => "position "@ + spec_position_text(pos)
            + " invalid for file "@ + file@,
        Error::MethodNotFound => "Method not supported"@,
        Error::FormattingFailed { details, file } => "formatting failed for file "@ + file@
            + ": "@ + details@,
    }
}

/// A protocol-level response error: the code and the message a
/// recoverable error maps to.
pub struct ResponseData {
    pub code: i32,
    pub message: String,
}

impl Error {
    /// The protocol error code of this error.
    pub fn code(&self) -> (r: i32)
        ensures
            r as int == spec_code(*self),
    {
        match self {
            Error::FileNotFound(_) => INVALID_PARAMS,
            Error::InvalidPosition { .. } => INVALID_PARAMS,
            Error::SchemeNotSupported(_) => INVALID_PARAMS,
            Error::InvalidPath(_) => INVALID_PARAMS,
            Error::MethodNotFound => METHOD_NOT_FOUND,
            Error::FormattingFailed { .. } => INTERNAL_ERROR,
        }
    }

    /// The user-visible message of this error.
    pub fn message(&self) -> (r: String)
        ensures
            r@ == spec_message(*self),
    {
        let mut out: Vec<char> = Vec::new();
        match self {
            Error::SchemeNotSupported(s) => {
                push_str_chars(&mut out, "scheme not supported: ");
                push_str_chars(&mut out, s.as_str());
            },
            Error::InvalidPath(url) => {
                push_str_chars(&mut out, "invalid path: ");
                push_str_chars(&mut out, url.as_str());
            },
            Error::FileNotFound(url) => {
                push_str_chars(&mut out, "file ");
                push_str_chars(&mut out, url.as_str());
                push_str_chars(&mut out, " not found");
                assert(out@ =~= spec_message(*self));
            },
            Error::InvalidPosition { pos, file } => {
                push_str_chars(&mut out, "position ");
                push_str_chars(&mut out, "Position { line: ");
                push_dec_u64(&mut out, pos.line as u64);
                push_str_chars(&mut out, ", character: ");
                push_dec_u64(&mut out, pos.character as u64);
                push_str_chars(&mut out, " }");
                push_str_chars(&mut out, " invalid for file ");
                push_str_chars(&mut out, file.as_str());
                assert(out@ =~= spec_message(*self));
            },
            Error::MethodNotFound => {
                push_str_chars(&mut out, "Method not supported");
            },
            Error::FormattingFailed { details, file } => {
                push_str_chars(&mut out, "formatting failed for file ");
                push_str_chars(&mut out, file.as_str());
                push_str_chars(&mut out, ": ");
                push_str_chars(&mut out, details.as_str());
                assert(out@ =~= spec_message(*self));
            },
        }
        chars_to_string(&out)
    }
}

/// Map a recoverable error to its protocol response: a pure function of
/// the error kind, keeping caller misuse apart from internal failure.
pub fn response_of(e: Error) -> (r: ResponseData)
    ensures
        r.code as int == spec_code(e),
        r.message@ == spec_message(e),
{
    let code = e.code();
    let message = e.message();
    ResponseData { code, message }
}

} // verus!
