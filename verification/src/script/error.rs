//! Error types for rule compilation.
use vstd::prelude::*;

use crate::script::strings::{push_decimal, push_str, spec_decimal};

verus! {

/// `std::io::Error`, carried through unchanged when a rule file cannot be read.
#[verifier::external_type_specification]
#[verifier::external_body]
pub struct ExIoError(std::io::Error);

/// Errors produced while turning rule source into checked rules.
#[derive(Debug)]
pub enum ScriptError {
    /// The lexer met text that starts no token.
    Lex(String),
    /// Lexer or parser error with source location.
    Parse { line: usize, col: usize, message: String },
    /// Type checking failed.
    Type(String),
    /// Code generation or verification failed.
    Compile(String),
    /// File I/O error while reading rule files.
    Io { path: String, source: std::io::Error },
}

/// `std::io::Error`'s `Display` text. The text comes from the operating
/// system's description of the error, so the contract says nothing of it.
#[verifier::external_body]
fn io_error_text(e: &std::io::Error) -> String {
    e.to_string()
}

/// The printed form of an error, without the I/O error's own description.
pub open spec fn error_prefix(e: ScriptError) -> Seq<char> {
    match e {
        ScriptError::Lex(m) => "lex error: "@ + m@,
        ScriptError::Parse { line, col, message } => "parse error at "@ + spec_decimal(line as nat) + ":"@
            + spec_decimal(col as nat) + ": "@ + message@,
        ScriptError::Type(m) => "type error: "@ + m@,
        ScriptError::Compile(m) => "compile error: "@ + m@,
        ScriptError::Io { path, .. } => "io error: "@ + path@ + ": "@,
    }
}

impl ScriptError {
    /// The printed form of the error. For an I/O error the operating
    /// system's description of the cause follows the path.
    pub fn to_string(&self) -> (s: String)
        ensures
            self is Io ==> s@.len() >= error_prefix(*self).len() && s@.subrange(0, error_prefix(*self).len() as int)
                == error_prefix(*self),
            !(self is Io) ==> s@ == error_prefix(*self),
    {
        let mut s = String::new();
        match self {
            ScriptError::Lex(m) => {
                push_str(&mut s, "lex error: ");
                push_str(&mut s, m.as_str());
            },
            ScriptError::Parse { line, col, message } => {
                push_str(&mut s, "parse error at ");
                push_decimal(&mut s, *line as u64);
                push_str(&mut s, ":");
                push_decimal(&mut s, *col as u64);
                push_str(&mut s, ": ");
                push_str(&mut s, message.as_str());
            },
            ScriptError::Type(m) => {
                push_str(&mut s, "type error: ");
                push_str(&mut s, m.as_str());
            },
            ScriptError::Compile(m) => {
                push_str(&mut s, "compile error: ");
                push_str(&mut s, m.as_str());
            },
            ScriptError::Io { path, source } => {
                push_str(&mut s, "io error: ");
                push_str(&mut s, path.as_str());
                push_str(&mut s, ": ");
                let ghost pre = s@;
                let cause = io_error_text(source);
                push_str(&mut s, cause.as_str());
                assert(s@.subrange(0, pre.len() as int) =~= pre);
            },
        }
        assert(!(self is Io) ==> s@ =~= error_prefix(*self));
        s
    }
}

} // verus!
