//! The values that travel between the decoder, the handlers and the
//! encoder: methods, bodies and responses, each with the mathematical view
//! that the contracts speak of.

use crate::json::json_text;
use crate::text::str_eq;
use vstd::prelude::*;

verus! {

/// The texts that a list of strings holds, in order.
pub open spec fn string_views(strings: Seq<String>) -> Seq<Seq<char>> {
    Seq::new(strings.len(), |i: int| strings[i]@)
}

/// The header lines that an optional list holds; none where there is no list.
pub open spec fn header_views(headers: Option<Vec<String>>) -> Seq<Seq<char>> {
    match headers {
        Some(lines) => string_views(lines@),
        None => Seq::empty(),
    }
}

/// The verb of a request. A verb that is none of the four known ones is
/// `OTHER`.
#[derive(Hash, PartialEq, Eq, Debug, Copy, Clone, Structural)]
pub enum Method {
    GET,
    POST,
    PUT,
    DELETE,
    OTHER,
}

impl Method {
    /// The method as it is written.
    pub open spec fn name(self) -> Seq<char> {
        match self {
            Method::GET => "GET"@,
            Method::POST => "POST"@,
            Method::PUT => "PUT"@,
            Method::DELETE => "DELETE"@,
            Method::OTHER => "OTHER"@,
        }
    }

    /// The method that a verb stands for. The match is exact, so that a verb
    /// in lower case is `OTHER`.
    pub open spec fn of_verb(verb: Seq<char>) -> Method {
        if verb == "GET"@ {
            Method::GET
        } else if verb == "POST"@ {
            Method::POST
        } else if verb == "PUT"@ {
            Method::PUT
        } else if verb == "DELETE"@ {
            Method::DELETE
        } else {
            Method::OTHER
        }
    }

    pub fn to_string(&self) -> (text: String)
        ensures
            text@ == self.name(),
    {
        match self {
            Method::GET => "GET".to_owned(),
            Method::POST => "POST".to_owned(),
            Method::PUT => "PUT".to_owned(),
            Method::DELETE => "DELETE".to_owned(),
            Method::OTHER => "OTHER".to_owned(),
        }
    }

    pub fn from_verb(verb: &str) -> (method: Method)
        ensures
            method == Method::of_verb(verb@),
    {
        if str_eq(verb, "GET") {
            Method::GET
        } else if str_eq(verb, "POST") {
            Method::POST
        } else if str_eq(verb, "PUT") {
            Method::PUT
        } else if str_eq(verb, "DELETE") {
            Method::DELETE
        } else {
            Method::OTHER
        }
    }
}

/// The body of a request or a response.
#[derive(Debug, PartialEq, Clone)]
pub enum BodyType {
    Json(serde_json::Value),
    Plain(String),
}

/// A body as the contracts see it: its kind, and the text that stands for
/// it on the wire.
pub enum BodyView {
    /// A JSON value, by the text of its compact serialisation.
    Json(Seq<char>),
    /// A text that is sent as it is.
    Plain(Seq<char>),
}

impl BodyView {
    /// The text that is transmitted for this body.
    pub open spec fn text(self) -> Seq<char> {
        match self {
            BodyView::Json(text) => text,
            BodyView::Plain(text) => text,
        }
    }
}

impl View for BodyType {
    type V = BodyView;

    open spec fn view(&self) -> BodyView {
        match *self {
            BodyType::Json(value) => BodyView::Json(json_text(value)),
            BodyType::Plain(text) => BodyView::Plain(text@),
        }
    }
}

/// The view of an optional body.
pub open spec fn body_view(body: Option<BodyType>) -> Option<BodyView> {
    match body {
        Some(b) => Some(b@),
        None => None,
    }
}

/// What a handler answers. The header lines are the caller's own: the lines
/// that announce the body's type and length are added when the response is
/// encoded.
#[derive(Debug, PartialEq)]
pub struct Response {
    pub response_code: usize,
    pub headers: Option<Vec<String>>,
    pub body: Option<BodyType>,
}

pub struct ResponseView {
    pub response_code: nat,
    pub headers: Seq<Seq<char>>,
    pub body: Option<BodyView>,
}

impl View for Response {
    type V = ResponseView;

    open spec fn view(&self) -> ResponseView {
        ResponseView {
            response_code: self.response_code as nat,
            headers: header_views(self.headers),
            body: body_view(self.body),
        }
    }
}

impl ResponseView {
    /// The response that holds a status code and nothing else.
    pub open spec fn bare(code: nat) -> ResponseView {
        ResponseView { response_code: code, headers: Seq::empty(), body: None }
    }
}

impl Response {
    /// A response with a status code, no header lines and no body.
    pub fn only_code(code: usize) -> (response: Response)
        ensures
            response.response_code == code,
            response.headers is None,
            response.body is None,
            response@ == ResponseView::bare(code as nat),
    {
        Response { response_code: code, headers: None, body: None }
    }
}

/// The bare responses that handlers answer with.
#[derive(Debug)]
pub struct DefaultResponses {
    pub ok: Response,
    pub bad_request: Response,
    pub not_found: Response,
    pub conflict: Response,
    pub internal_server_error: Response,
}

impl DefaultResponses {
    pub fn new() -> (all: DefaultResponses)
        ensures
            all.ok@ == ResponseView::bare(200),
            all.bad_request@ == ResponseView::bare(400),
            all.not_found@ == ResponseView::bare(404),
            all.conflict@ == ResponseView::bare(409),
            all.internal_server_error@ == ResponseView::bare(500),
    {
        DefaultResponses {
            ok: Response::only_code(200),
            bad_request: Response::only_code(400),
            not_found: Response::only_code(404),
            conflict: Response::only_code(409),
            internal_server_error: Response::only_code(500),
        }
    }
}

} // verus!
