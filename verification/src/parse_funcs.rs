//! The wire format: a request text is decoded into a `Request`, and a
//! `Response` is encoded into the text that is sent back.

use crate::json::json_compact;
use crate::json::json_to_string;
use crate::json::parse_json;
use crate::req_res_structs::body_view;
use crate::req_res_structs::header_views;
use crate::req_res_structs::string_views;
use crate::req_res_structs::BodyType;
use crate::req_res_structs::BodyView;
use crate::req_res_structs::Method;
use crate::req_res_structs::Response;
use crate::req_res_structs::ResponseView;
use crate::request::Request;
use crate::request::RequestView;
use crate::request::RouteParams;
use crate::server_errors::ServerError;
use crate::text::after_first_word;
use crate::text::byte_len;
use crate::text::decimal;
use crate::text::decimal_string;
use crate::text::first_word;
use crate::text::is_blank;
use crate::text::join;
use crate::text::line_spans;
use crate::text::lines;
use crate::text::span_string;
use crate::text::span_texts;
use crate::text::spans_within;
use crate::text::to_chars;
use crate::text::trim;
use crate::text::trim_span;
use crate::text::word_span;
use vstd::prelude::*;
use vstd::string::StrSliceExecFns;
use vstd::string::StringExecFns;

verus! {

/// How many of `lines` come before the first blank one.
pub open spec fn header_count(lines: Seq<Seq<char>>) -> nat
    decreases lines.len(),
{
    if lines.len() > 0 && !is_blank(lines[0]) {
        1 + header_count(lines.drop_first())
    } else {
        0
    }
}

/// `header_count` is the one `n` such that the first `n` lines are not blank
/// and the next one, if there is one, is.
pub proof fn lemma_header_count(lines: Seq<Seq<char>>, n: nat)
    requires
        n <= lines.len(),
        forall|k: int| 0 <= k < n ==> !is_blank(#[trigger] lines[k]),
        n < lines.len() ==> is_blank(lines[n as int]),
    ensures
        header_count(lines) == n,
    decreases n,
{
    if n > 0 {
        let rest = lines.drop_first();
        assert forall|k: int| 0 <= k < n - 1 implies !is_blank(#[trigger] rest[k]) by {
            assert(rest[k] == lines[k + 1]);
        }
        lemma_header_count(rest, (n - 1) as nat);
    }
}

/// The header lines among the lines that follow the request line: those
/// before the first blank line, each without the whitespace around it.
pub open spec fn header_lines(lines: Seq<Seq<char>>) -> Seq<Seq<char>> {
    Seq::new(header_count(lines), |i: int| trim(lines[i]))
}

/// The text of the body among the lines that follow the request line: the
/// lines after the first blank one, joined by a carriage return and a line
/// feed. Without a blank line there is no body text.
pub open spec fn body_text(lines: Seq<Seq<char>>) -> Seq<char> {
    let n = header_count(lines);
    if n < lines.len() {
        join(lines.skip(n as int + 1), "\r\n"@)
    } else {
        Seq::empty()
    }
}

/// What a body text is taken for: nothing where it is empty, a JSON value
/// where it parses as one, and the text itself otherwise.
pub open spec fn classify_body(text: Seq<char>) -> Option<BodyView> {
    if text.len() == 0 {
        None
    } else {
        match json_compact(text) {
            Some(compact) => Some(BodyView::Json(compact)),
            None => Some(BodyView::Plain(text)),
        }
    }
}

/// The request that a text decodes to; `None` where the text has no request
/// line, which is the case for the empty text alone.
///
/// The first word of the request line is the verb and the second the path;
/// what follows them is not looked at. A missing word is taken as empty.
pub open spec fn decode(raw: Seq<char>) -> Option<RequestView> {
    let all = lines(raw);
    if all.len() == 0 {
        None
    } else {
        let rest = all.skip(1);
        Some(
            RequestView {
                method: Method::of_verb(first_word(all[0])),
                path: first_word(after_first_word(all[0])),
                headers: header_lines(rest),
                body: classify_body(body_text(rest)),
                rest_params: Map::empty(),
            },
        )
    }
}

/// The body that a non-empty text stands for, given what parsing it as JSON
/// gave: the value where it parsed, the text itself where it did not.
pub fn body_from_parse(text: String, parsed: Result<serde_json::Value, serde_json::Error>) -> (body:
    BodyType)
    ensures
        match parsed {
            Ok(value) => body == BodyType::Json(value),
            Err(_) => body == BodyType::Plain(text),
        },
{
    match parsed {
        Ok(value) => BodyType::Json(value),
        Err(_) => BodyType::Plain(text),
    }
}

/// The body that a text stands for.
pub fn body_of(text: String) -> (body: Option<BodyType>)
    ensures
        body_view(body) == classify_body(text@),
{
    if text.as_str().is_empty() {
        None
    } else {
        let parsed = parse_json(text.as_str());
        Some(body_from_parse(text, parsed))
    }
}

/// The detail of the error that an undecodable request is refused with.
pub open spec fn missing_request_line() -> Seq<char> {
    "the request has no request line"@
}

/// Decodes the text of a request. Decoding fails for the empty text and for
/// no other.
pub fn parse_request(req_body: String) -> (decoded: Result<Request, ServerError>)
    ensures
        match decode(req_body@) {
            Some(request) => {
                &&& decoded is Ok
                &&& decoded->Ok_0@ == request
                &&& decoded->Ok_0.headers is None <==> request.headers.len() == 0
            },
            None => {
                &&& decoded matches Err(ServerError::ParseError(detail))
                &&& detail@ == missing_request_line()
            },
        },
        decoded is Err <==> req_body@.len() == 0,
{
    let raw = req_body.as_str();
    let chars = to_chars(raw);
    let spans = line_spans(&chars);
    let count = spans.len();
    let ghost all = lines(raw@);
    proof {
        lemma_lines_empty(raw@);
    }
    if count == 0 {
        return Err(ServerError::ParseError("the request has no request line".to_owned()));
    }
    proof {
        assert(span_texts(spans@, chars@)[0] == spans@[0].of(chars@));
    }
    let (verb, after_verb) = word_span(&chars, spans[0]);
    let (target, _) = word_span(&chars, after_verb);
    let method = Method::from_verb(raw.substring_char(verb.start, verb.end));
    let path = span_string(raw, target);

    let ghost rest = all.skip(1);
    let mut headers: Vec<String> = Vec::new();
    let mut next: usize = 1;
    let mut in_headers: bool = true;
    while in_headers && next < count
        invariant
            1 <= next <= count,
            count == spans@.len(),
            chars@ == raw@,
            all == lines(raw@),
            rest == all.skip(1),
            spans_within(spans@, chars@.len()),
            span_texts(spans@, chars@) == all,
            forall|k: int| 0 <= k < next - 1 ==> !is_blank(#[trigger] rest[k]),
            !in_headers ==> next < count && is_blank(rest[next - 1]),
            headers@.len() == next - 1,
            forall|k: int| 0 <= k < next - 1 ==> (#[trigger] headers@[k])@ == trim(rest[k]),
        decreases count - next + if in_headers { 1nat } else { 0nat },
    {
        proof {
            assert(span_texts(spans@, chars@)[next as int] == spans@[next as int].of(chars@));
            assert(rest[next - 1] == all[next as int]);
        }
        let inner = trim_span(&chars, spans[next]);
        if inner.start == inner.end {
            in_headers = false;
        } else {
            headers.push(span_string(raw, inner));
            next += 1;
        }
    }
    proof {
        lemma_header_count(rest, (next - 1) as nat);
        assert(string_views(headers@) =~= header_lines(rest));
    }
    let ghost parts = if next < count {
        rest.skip(next as int)
    } else {
        Seq::empty()
    };
    let mut text = String::new();
    let mut at: usize = if next < count {
        next + 1
    } else {
        count
    };
    let first = at;
    proof {
        assert(parts.take(0) =~= Seq::<Seq<char>>::empty());
    }
    while at < count
        invariant
            first <= at <= count,
            count == spans@.len(),
            chars@ == raw@,
            spans_within(spans@, chars@.len()),
            span_texts(spans@, chars@) == all,
            parts.len() == count - first,
            forall|k: int| 0 <= k < parts.len() ==> #[trigger] parts[k] == all[first + k],
            text@ == join(parts.take(at - first), "\r\n"@),
        decreases count - at,
    {
        proof {
            assert(span_texts(spans@, chars@)[at as int] == spans@[at as int].of(chars@));
            assert(parts.take(at - first + 1).drop_last() =~= parts.take(at - first));
            assert(parts.take(at - first + 1).last() == parts[at - first]);
        }
        if at > first {
            text.append("\r\n");
        }
        text.append(raw.substring_char(spans[at].start, spans[at].end));
        at += 1;
    }
    proof {
        assert(parts.take(parts.len() as int) =~= parts);
        assert(text@ == body_text(rest));
    }
    let body = body_of(text);
    let listed = if headers.len() == 0 {
        None
    } else {
        Some(headers)
    };
    let request = Request { method, path, headers: listed, body, rest_params: RouteParams::new() };
    proof {
        assert(header_views(request.headers) == header_lines(rest));
    }
    Ok(request)
}

/// A text has no lines exactly if it is empty.
pub proof fn lemma_lines_empty(s: Seq<char>)
    ensures
        lines(s).len() == 0 <==> s.len() == 0,
{
}

/// The reason phrase that goes with a status code; empty for a code that
/// has none here.
pub open spec fn reason_phrase(code: nat) -> Seq<char> {
    if code == 200 {
        "OK"@
    } else if code == 202 {
        "Accepted"@
    } else if code == 404 {
        "Not Found"@
    } else if code == 409 {
        "Conflict"@
    } else if code == 500 {
        "Internal Server Error"@
    } else if code == 501 {
        "Not Implemented"@
    } else if code == 502 {
        "Bad Gateway"@
    } else {
        ""@
    }
}

pub fn response_code_phrase(code: usize) -> (phrase: &'static str)
    ensures
        phrase@ == reason_phrase(code as nat),
{
    if code == 200 {
        "OK"
    } else if code == 202 {
        "Accepted"
    } else if code == 404 {
        "Not Found"
    } else if code == 409 {
        "Conflict"
    } else if code == 500 {
        "Internal Server Error"
    } else if code == 501 {
        "Not Implemented"
    } else if code == 502 {
        "Bad Gateway"
    } else {
        ""
    }
}

/// The first line of a response.
pub open spec fn status_line(code: nat) -> Seq<char> {
    "HTTP/1.1 "@ + decimal(code) + " "@ + reason_phrase(code) + "\r\n"@
}

/// The caller's header lines in order, each followed by a carriage return
/// and a line feed.
pub open spec fn header_block(headers: Seq<Seq<char>>) -> Seq<char>
    decreases headers.len(),
{
    if headers.len() == 0 {
        Seq::empty()
    } else {
        header_block(headers.drop_last()) + headers.last() + "\r\n"@
    }
}

/// The line that announces the kind of a body.
pub open spec fn content_type_line(body: BodyView) -> Seq<char> {
    match body {
        BodyView::Json(_) => "Content-Type: application/json\r\n"@,
        BodyView::Plain(_) => "Content-Type: text/plain\r\n"@,
    }
}

/// The line that announces the length of a body in bytes; no line for a
/// body of no bytes.
pub open spec fn content_length_line(text: Seq<char>) -> Seq<char> {
    if byte_len(text) == 0 {
        Seq::empty()
    } else {
        "Content-Length: "@ + decimal(byte_len(text)) + "\r\n"@
    }
}

/// The lines that a body adds to the header block; none without a body.
pub open spec fn body_headers(body: Option<BodyView>) -> Seq<char> {
    match body {
        Some(b) => content_type_line(b) + content_length_line(b.text()),
        None => Seq::empty(),
    }
}

/// The text that is sent for a body; empty without one.
pub open spec fn wire_body(body: Option<BodyView>) -> Seq<char> {
    match body {
        Some(b) => b.text(),
        None => Seq::empty(),
    }
}

/// The text that is sent for a response: the status line, the caller's
/// header lines, the lines that describe the body, an empty line, and the
/// body with nothing after it.
pub open spec fn encode(response: ResponseView) -> Seq<char> {
    status_line(response.response_code) + header_block(response.headers) + body_headers(
        response.body,
    ) + "\r\n"@ + wire_body(response.body)
}

/// Encodes a response. Every response can be encoded.
pub fn deser_response(response: Response) -> (wire: String)
    ensures
        wire@ == encode(response@),
{
    let mut wire = String::from_str("HTTP/1.1 ");
    wire.append(decimal_string(response.response_code).as_str());
    wire.append(" ");
    wire.append(response_code_phrase(response.response_code));
    wire.append("\r\n");
    let ghost view = response@;
    match &response.headers {
        Some(lines) => {
            let mut i: usize = 0;
            proof {
                assert(view.headers.take(0) =~= Seq::<Seq<char>>::empty());
            }
            while i < lines.len()
                invariant
                    i <= lines@.len(),
                    view.headers == string_views(lines@),
                    wire@ == status_line(view.response_code) + header_block(
                        view.headers.take(i as int),
                    ),
                decreases lines@.len() - i,
            {
                proof {
                    assert(view.headers.take(i + 1).drop_last() =~= view.headers.take(i as int));
                    assert(view.headers.take(i + 1).last() == lines@[i as int]@);
                }
                wire.append(lines[i].as_str());
                wire.append("\r\n");
                i += 1;
            }
            proof {
                assert(view.headers.take(lines@.len() as int) =~= view.headers);
            }
        },
        None => {},
    }
    let ghost head = status_line(view.response_code) + header_block(view.headers);
    proof {
        assert(wire@ =~= head);
    }
    let text = match response.body {
        Some(BodyType::Plain(text)) => {
            wire.append("Content-Type: text/plain\r\n");
            text
        },
        Some(BodyType::Json(value)) => {
            let text = json_to_string(&value).unwrap();
            wire.append("Content-Type: application/json\r\n");
            text
        },
        None => String::new(),
    };
    let length = text.as_str().as_bytes().len();
    if length != 0 {
        wire.append("Content-Length: ");
        wire.append(decimal_string(length).as_str());
        wire.append("\r\n");
    }
    proof {
        assert(text@ == wire_body(view.body));
        assert(length == byte_len(text@));
        assert(wire@ =~= head + body_headers(view.body));
    }
    wire.append("\r\n");
    wire.append(text.as_str());
    wire
}

/// Whether `part` stands somewhere in `whole`, as one piece.
pub open spec fn occurs_in(part: Seq<char>, whole: Seq<char>) -> bool {
    exists|i: int| 0 <= i <= whole.len() && part.is_prefix_of(#[trigger] whole.skip(i))
}

/// A response with a plain body of `n` bytes, `n` not zero, is encoded with
/// the line `Content-Length: n` in it.
pub proof fn lemma_content_length(response: ResponseView, text: Seq<char>)
    requires
        response.body == Some(BodyView::Plain(text)),
        byte_len(text) > 0,
    ensures
        occurs_in("Content-Length: "@ + decimal(byte_len(text)) + "\r\n"@, encode(response)),
{
    let line = "Content-Length: "@ + decimal(byte_len(text)) + "\r\n"@;
    let before = status_line(response.response_code) + header_block(response.headers)
        + content_type_line(BodyView::Plain(text));
    let after = "\r\n"@ + text;
    let whole = encode(response);
    assert(whole =~= before + line + after);
    assert(line =~= whole.skip(before.len() as int).subrange(0, line.len() as int));
}

} // verus!
