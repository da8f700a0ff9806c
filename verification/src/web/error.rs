//! Errors of the web server and the HTTP status each answers with.
use vstd::prelude::*;

use crate::script::strings::push_str;

verus! {

/// Errors produced by the web server.
#[derive(Debug)]
pub enum WebError {
    /// Something failed inside the server.
    Internal,
    /// The named thing does not exist.
    NotFound(String),
    /// The request was malformed.
    BadRequest(String),
}

/// The HTTP status code that answers an error.
pub open spec fn error_status(e: WebError) -> u16 {
    match e {
        WebError::Internal => 500,
        WebError::NotFound(_) => 404,
        WebError::BadRequest(_) => 400,
    }
}

/// The message of an error.
pub open spec fn error_text(e: WebError) -> Seq<char> {
    match e {
        WebError::Internal => "internal server error"@,
        WebError::NotFound(what) => "not found: "@ + what@,
        WebError::BadRequest(why) => "bad request: "@ + why@,
    }
}

impl WebError {
    /// The HTTP status code that answers this error.
    pub fn status_code(&self) -> (c: u16)
        ensures
            c == error_status(*self),
    {
        match self {
            WebError::Internal => 500,
            WebError::NotFound(_) => 404,
            WebError::BadRequest(_) => 400,
        }
    }

    /// The error's message, as sent in the `error` field of the response body.
    pub fn to_string(&self) -> (s: String)
        ensures
            s@ == error_text(*self),
    {
        match self {
            WebError::Internal => "internal server error".to_owned(),
            WebError::NotFound(what) => {
                let mut s = "not found: ".to_owned();
                push_str(&mut s, what.as_str());
                s
            },
            WebError::BadRequest(why) => {
                let mut s = "bad request: ".to_owned();
                push_str(&mut s, why.as_str());
                s
            },
        }
    }
}

} // verus!
