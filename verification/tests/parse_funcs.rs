use backend::parse_funcs::{
    body_from_parse, body_of, deser_response, parse_request, response_code_phrase,
};
use backend::req_res_structs::{BodyType, Method, Response};
use backend::request::{Request, RouteParams};
use backend::server_errors::ServerError;

fn price_and_stock() -> serde_json::Value {
    let mut members = serde_json::Map::new();
    members.insert("price".to_string(), serde_json::Value::from(19.99));
    members.insert("stock".to_string(), serde_json::Value::from(100));
    serde_json::Value::Object(members)
}

#[test]
fn parse_get_no_body() -> Result<(), ServerError> {
    let req_raw: String = "GET /api/status HTTP/1.1\r\n\
Host: api.example.com\r\n\
Content-Type: application/json\r\n\
\r\n"
        .to_string();

    let real_rez: Request = parse_request(req_raw)?;

    let headers: Option<Vec<String>> = Some(vec![
        "Host: api.example.com".to_string(),
        "Content-Type: application/json".to_string(),
    ]);

    let expected: Request = Request {
        method: Method::GET,
        path: "/api/status".to_string(),
        headers,
        body: None,
        rest_params: RouteParams::new(),
    };

    assert_eq!(real_rez, expected);

    Ok(())
}

#[test]
fn parse_get_localhost() -> Result<(), ServerError> {
    let raw_reqwest = "GET / HTTP/1.1\r\n\
            Host: localhost\r\n\
            \r\n"
        .to_string();

    let real_result = parse_request(raw_reqwest)?;

    let headers = vec!["Host: localhost".to_string()];

    let expected_result = Request {
        method: Method::GET,
        path: "/".to_string(),
        headers: Some(headers),
        body: None,
        rest_params: RouteParams::new(),
    };

    assert_eq!(real_result, expected_result);

    Ok(())
}

#[test]
fn parse_post_json() -> Result<(), ServerError> {
    let raw_reqwest = "POST /api/users HTTP/1.1\r\n\
            Host: api.example.com\r\n\
            Content-Type: application/json\r\n\
            Content-Length: 27\r\n\
            \r\n\
            {\"name\":\"alice\",\"age\":30}"
        .to_string();

    let real_result = parse_request(raw_reqwest)?;

    let headers = vec![
        "Host: api.example.com".to_string(),
        "Content-Type: application/json".to_string(),
        "Content-Length: 27".to_string(),
    ];

    let mut members = serde_json::Map::new();
    members.insert("name".to_string(), serde_json::Value::from("alice"));
    members.insert("age".to_string(), serde_json::Value::from(30));
    let json_body = serde_json::Value::Object(members);

    let expected_result = Request {
        method: Method::POST,
        path: "/api/users".to_string(),
        headers: Some(headers),
        body: Some(BodyType::Json(json_body)),
        rest_params: RouteParams::new(),
    };

    assert_eq!(real_result, expected_result);

    Ok(())
}

#[test]
fn parse_put_json() -> Result<(), ServerError> {
    let raw_reqwest = "PUT /api/items/42 HTTP/1.1\r\n\
Host: api.example.com\r\n\
Authorization: Bearer TOKEN123\r\n\
Content-Type: application/json\r\n\
Accept: *\r\n\
\r\n\
{\"price\":19.99,\"stock\":100}"
        .to_string();

    let real_result = parse_request(raw_reqwest)?;

    let headers = vec![
        "Host: api.example.com".to_string(),
        "Authorization: Bearer TOKEN123".to_string(),
        "Content-Type: application/json".to_string(),
        "Accept: *".to_string(),
    ];

    let json_body = price_and_stock();

    let expected_result = Request {
        method: Method::PUT,
        path: "/api/items/42".to_string(),
        headers: Some(headers),
        body: Some(BodyType::Json(json_body)),
        rest_params: RouteParams::new(),
    };

    assert_eq!(real_result, expected_result);

    Ok(())
}

#[test]
fn parse_delete_no_body() -> Result<(), ServerError> {
    let raw_reqwest = "DELETE /api/items/42 HTTP/1.1\r\n\
Host: api.example.com\r\n\
X-Debug-Mode: true\r\n\
\r\n"
        .to_string();

    let real_result = parse_request(raw_reqwest)?;

    let headers = vec![
        "Host: api.example.com".to_string(),
        "X-Debug-Mode: true".to_string(),
    ];

    let expected_result = Request {
        method: Method::DELETE,
        path: "/api/items/42".to_string(),
        headers: Some(headers),
        body: None,
        rest_params: RouteParams::new(),
    };

    assert_eq!(real_result, expected_result);

    Ok(())
}

#[test]
fn parse_get_query() -> Result<(), ServerError> {
    let raw_reqwest = "GET /search?q=rust+lang&sort=desc HTTP/2.0\r\n\
Host: www.example.com\r\n\
User-Agent: MyClient/1.0\r\n\
Accept: text/html,application/xhtml+xml\r\n\
Cookie: session=abcd1234; theme=dark\r\n\
\r\n"
        .to_string();

    let real_result = parse_request(raw_reqwest)?;

    let headers = vec![
        "Host: www.example.com".to_string(),
        "User-Agent: MyClient/1.0".to_string(),
        "Accept: text/html,application/xhtml+xml".to_string(),
        "Cookie: session=abcd1234; theme=dark".to_string(),
    ];

    let expected_result = Request {
        method: Method::GET,
        path: "/search?q=rust+lang&sort=desc".to_string(),
        headers: Some(headers),
        body: None,
        rest_params: RouteParams::new(),
    };

    assert_eq!(real_result, expected_result);

    Ok(())
}

#[test]
fn parse_form_request() -> Result<(), ServerError> {
    let raw_reqwest = "POST /login HTTP/1.1\r\n\
Host: auth.example.com\r\n\
Content-Type: application/x-www-form-urlencoded\r\n\
Content-Length: 29\r\n\
Cookie: mobile=true\r\n\
\r\n\
username=foo&password=bar"
        .to_string();

    let real_result = parse_request(raw_reqwest)?;

    let headers = vec![
        "Host: auth.example.com".to_string(),
        "Content-Type: application/x-www-form-urlencoded".to_string(),
        "Content-Length: 29".to_string(),
        "Cookie: mobile=true".to_string(),
    ];

    let expected_result = Request {
        method: Method::POST,
        path: "/login".to_string(),
        headers: Some(headers),
        body: Some(BodyType::Plain("username=foo&password=bar".to_string())),
        rest_params: RouteParams::new(),
    };

    assert_eq!(real_result, expected_result);

    Ok(())
}

#[test]
fn deser_response_test_plain_text() -> Result<(), ServerError> {
    let response: Response = Response {
        response_code: 200,
        headers: Some(vec![
            "Host: api.example.com".to_string(),
            "Location: https://example.com/new-resource".to_string(),
        ]),
        body: Some(BodyType::Plain("Hello world!".to_string())),
    };

    let real_result: String = deser_response(response);

    let expected_result: String = "HTTP/1.1 200 OK\r\n\
        Host: api.example.com\r\n\
        Location: https://example.com/new-resource\r\n\
        Content-Type: text/plain\r\n\
        Content-Length: 12\r\n\
        \r\n\
        Hello world!"
        .to_string();

    assert_eq!(real_result, expected_result);

    Ok(())
}

#[test]
fn deser_response_test_with_json_file() -> Result<(), ServerError> {
    let response: Response = Response {
        response_code: 200,
        headers: Some(vec![
            "Host: api.example.com".to_string(),
            "Location: https://example.com/new-resource".to_string(),
        ]),
        body: Some(BodyType::Json(price_and_stock())),
    };

    let real_result: String = deser_response(response);

    let expected_result: String = "HTTP/1.1 200 OK\r\n\
        Host: api.example.com\r\n\
        Location: https://example.com/new-resource\r\n\
        Content-Type: application/json\r\n\
        Content-Length: 27\r\n\
        \r\n\
        {\"price\":19.99,\"stock\":100}"
        .to_string();

    assert_eq!(real_result, expected_result);

    Ok(())
}

#[test]
fn deser_response_test_with_no_json() -> Result<(), ServerError> {
    let response: Response = Response {
        response_code: 200,
        headers: Some(vec![
            "Host: api.example.com".to_string(),
            "Location: https://example.com/new-resource".to_string(),
        ]),
        body: None,
    };

    let real_result: String = deser_response(response);

    let expected_result: String = "HTTP/1.1 200 OK\r\n\
        Host: api.example.com\r\n\
        Location: https://example.com/new-resource\r\n\
        \r\n"
        .to_string();

    assert_eq!(real_result, expected_result);

    Ok(())
}

#[test]
fn decode_fails_on_the_empty_text_alone() {
    let refused = parse_request(String::new());
    assert!(matches!(refused, Err(ServerError::ParseError(_))));
    assert_eq!(
        refused.unwrap_err().to_string(),
        "Parse error: the request has no request line"
    );
    assert!(parse_request("\n".to_string()).is_ok());
    assert!(parse_request(" ".to_string()).is_ok());
}

#[test]
fn decode_is_repeatable() {
    let raw = "POST /api/users HTTP/1.1\r\nHost: a\r\n\r\n{\"k\":[1,2,3]}";
    assert_eq!(
        parse_request(raw.to_string()).unwrap(),
        parse_request(raw.to_string()).unwrap()
    );
}

#[test]
fn decode_takes_an_unknown_verb_as_other() {
    let request = parse_request("PATCH /x HTTP/1.1\r\n\r\n".to_string()).unwrap();
    assert_eq!(request.method, Method::OTHER);
    assert_eq!(request.path, "/x");
    let lower = parse_request("get /x HTTP/1.1\r\n\r\n".to_string()).unwrap();
    assert_eq!(lower.method, Method::OTHER);
}

#[test]
fn decode_takes_a_missing_word_as_empty() {
    let request = parse_request("GET\r\n\r\n".to_string()).unwrap();
    assert_eq!(request.method, Method::GET);
    assert_eq!(request.path, "");
    assert_eq!(request.headers, None);
    assert_eq!(request.body, None);
    let blank = parse_request("\r\nHost: x\r\n".to_string()).unwrap();
    assert_eq!(blank.method, Method::OTHER);
    assert_eq!(blank.path, "");
    assert_eq!(blank.headers, Some(vec!["Host: x".to_string()]));
}

#[test]
fn decode_tolerates_headers_without_an_end() {
    let request = parse_request("GET / HTTP/1.1\r\nHost: x\r\nAccept: *".to_string()).unwrap();
    assert_eq!(
        request.headers,
        Some(vec!["Host: x".to_string(), "Accept: *".to_string()])
    );
    assert_eq!(request.body, None);
}

#[test]
fn decode_trims_headers_and_accepts_bare_line_feeds() {
    let request = parse_request("GET  /a\tHTTP/1.1 extra\n  Host: x \t\n \t \nbody".to_string()).unwrap();
    assert_eq!(request.path, "/a");
    assert_eq!(request.headers, Some(vec!["Host: x".to_string()]));
    assert_eq!(request.body, Some(BodyType::Plain("body".to_string())));
}

#[test]
fn decode_joins_body_lines_with_crlf() {
    let request = parse_request("PUT /n HTTP/1.1\n\nfirst\n second \r\n\nlast\n".to_string()).unwrap();
    assert_eq!(
        request.body,
        Some(BodyType::Plain("first\r\n second \r\n\r\nlast".to_string()))
    );
    assert_eq!(request.headers, None);
}

#[test]
fn decode_keeps_a_lone_carriage_return() {
    let request = parse_request("GET / HTTP/1.1\n\na\rb\r".to_string()).unwrap();
    assert_eq!(request.body, Some(BodyType::Plain("a\rb\r".to_string())));
}

#[test]
fn decode_parses_a_json_body_with_whitespace() {
    let request = parse_request("POST / HTTP/1.1\r\n\r\n { \"a\" : [ 1 , true , null ] } ".to_string()).unwrap();
    let mut members = serde_json::Map::new();
    members.insert(
        "a".to_string(),
        serde_json::Value::Array(vec![
            serde_json::Value::from(1),
            serde_json::Value::Bool(true),
            serde_json::Value::Null,
        ]),
    );
    assert_eq!(request.body, Some(BodyType::Json(serde_json::Value::Object(members))));
}

#[test]
fn body_is_classified_by_the_result_of_parsing() {
    let text = "{\"k\":1}".to_string();
    let parsed = serde_json::from_str::<serde_json::Value>(&text);
    let value = serde_json::from_str::<serde_json::Value>(&text).unwrap();
    assert_eq!(body_from_parse(text, parsed), BodyType::Json(value));
    let broken = "{\"k\":".to_string();
    let failed = serde_json::from_str::<serde_json::Value>(&broken);
    assert_eq!(
        body_from_parse(broken.clone(), failed),
        BodyType::Plain(broken)
    );
    assert_eq!(body_of(String::new()), None);
    assert_eq!(body_of("12".to_string()), Some(BodyType::Json(serde_json::Value::from(12))));
    assert_eq!(body_of("1 2".to_string()), Some(BodyType::Plain("1 2".to_string())));
}

#[test]
fn encode_hello_world() {
    let response = Response {
        response_code: 200,
        headers: Some(vec!["Host: x".to_string()]),
        body: Some(BodyType::Plain("Hello world!".to_string())),
    };
    assert_eq!(
        deser_response(response),
        "HTTP/1.1 200 OK\r\nHost: x\r\nContent-Type: text/plain\r\nContent-Length: 12\r\n\r\nHello world!"
    );
}

#[test]
fn encode_knows_the_reason_phrases() {
    assert_eq!(response_code_phrase(200), "OK");
    assert_eq!(response_code_phrase(202), "Accepted");
    assert_eq!(response_code_phrase(404), "Not Found");
    assert_eq!(response_code_phrase(409), "Conflict");
    assert_eq!(response_code_phrase(500), "Internal Server Error");
    assert_eq!(response_code_phrase(501), "Not Implemented");
    assert_eq!(response_code_phrase(502), "Bad Gateway");
    assert_eq!(response_code_phrase(400), "");
    assert_eq!(response_code_phrase(0), "");
    assert_eq!(deser_response(Response::only_code(404)), "HTTP/1.1 404 Not Found\r\n\r\n");
    assert_eq!(deser_response(Response::only_code(418)), "HTTP/1.1 418 \r\n\r\n");
    assert_eq!(deser_response(Response::only_code(0)), "HTTP/1.1 0 \r\n\r\n");
    assert_eq!(
        deser_response(Response::only_code(usize::MAX)),
        format!("HTTP/1.1 {} \r\n\r\n", usize::MAX)
    );
}

#[test]
fn encode_counts_the_bytes_of_the_body() {
    let response = Response {
        response_code: 200,
        headers: None,
        body: Some(BodyType::Plain("żółw €".to_string())),
    };
    assert_eq!(
        deser_response(response),
        "HTTP/1.1 200 OK\r\nContent-Type: text/plain\r\nContent-Length: 11\r\n\r\nżółw €"
    );
}

#[test]
fn encode_gives_an_empty_body_no_length() {
    let response = Response {
        response_code: 202,
        headers: Some(vec![]),
        body: Some(BodyType::Plain(String::new())),
    };
    assert_eq!(
        deser_response(response),
        "HTTP/1.1 202 Accepted\r\nContent-Type: text/plain\r\n\r\n"
    );
}

#[test]
fn encode_keeps_the_headers_as_given() {
    let response = Response {
        response_code: 502,
        headers: Some(vec!["b: 1".to_string(), "A: 2".to_string(), "b: 1".to_string()]),
        body: None,
    };
    assert_eq!(
        deser_response(response),
        "HTTP/1.1 502 Bad Gateway\r\nb: 1\r\nA: 2\r\nb: 1\r\n\r\n"
    );
}

#[test]
fn encode_writes_json_without_whitespace() {
    let value = serde_json::from_str::<serde_json::Value>("{ \"b\" : [ 1, 2 ],\n \"a\" : \"x y\" }").unwrap();
    let response = Response { response_code: 200, headers: None, body: Some(BodyType::Json(value)) };
    assert_eq!(
        deser_response(response),
        "HTTP/1.1 200 OK\r\nContent-Type: application/json\r\nContent-Length: 21\r\n\r\n{\"a\":\"x y\",\"b\":[1,2]}"
    );
}

#[test]
fn plain_body_length_is_announced() {
    for length in [1usize, 9, 10, 99, 100, 12345] {
        let response = Response {
            response_code: 200,
            headers: None,
            body: Some(BodyType::Plain("x".repeat(length))),
        };
        let wire = deser_response(response);
        assert!(wire.contains(&format!("Content-Length: {}\r\n", length)));
    }
}
