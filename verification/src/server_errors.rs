//! What can go wrong while a server is set up or a request is taken apart.

use vstd::prelude::*;
use vstd::string::StringExecFns;

verus! {

#[derive(Debug, Clone)]
pub enum ServerError {
    /// The server could not be brought up.
    InitError(String),
    /// A request could not be decoded.
    ParseError(String),
    /// A handler could not be registered.
    HandlerError(String),
}

impl ServerError {
    /// The text that `to_string` gives for this error.
    pub open spec fn message(self) -> Seq<char> {
        match self {
            ServerError::ParseError(s) => "Parse error: "@ + s@,
            ServerError::HandlerError(s) => "Handler error: "@ + s@,
            ServerError::InitError(s) => "Init error: "@ + s@,
        }
    }

    /// The error as a line of text: its kind, then its detail.
    pub fn to_string(&self) -> (text: String)
        ensures
            text@ == self.message(),
    {
        match self {
            ServerError::ParseError(s) => String::from_str("Parse error: ").concat(s.as_str()),
            ServerError::HandlerError(s) => String::from_str("Handler error: ").concat(s.as_str()),
            ServerError::InitError(s) => String::from_str("Init error: ").concat(s.as_str()),
        }
    }
}

} // verus!
