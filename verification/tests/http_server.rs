use backend::http_server::{accept_line, Server};
use backend::req_res_structs::{BodyType, Method, Response};
use backend::request::Request;
use backend::server_errors::ServerError;

const IP: &str = "127.0.0.1:8080";

type Handler = fn(&Request) -> Response;

fn server_start() -> Server<Handler> {
    let mut server: Server<Handler> = Server::new(IP);

    server.GET("/container/", |_| Response {
        response_code: 200,
        headers: None,
        body: Some(BodyType::Plain("GET CONTAINERS!!!".to_string())),
    });

    server.POST("/container/:id/reboot", |r: &Request| Response {
        response_code: 200,
        headers: None,
        body: Some(BodyType::Plain(format!(
            "Container ID is: {}\nRebooting...\nTEST",
            r.rest_params.get("id").unwrap()
        ))),
    });

    server
}

/// What came back for a request: the status code and the body.
struct Answer {
    status_code: usize,
    body: String,
}

impl Answer {
    fn as_str(&self) -> Option<&str> {
        Some(&self.body)
    }
}

/// Sends a request for `url` to a server with the routes above, the way a
/// connection would: line by line up to the blank line, then the answer.
fn send(method: &str, url: String) -> Answer {
    let server = server_start();
    let target = url.strip_prefix(&format!("http://{IP}")).unwrap();
    let mut head = String::new();
    for line in [
        format!("{method} {target} HTTP/1.1"),
        format!("Host: {IP}"),
        String::new(),
        "never read".to_string(),
    ] {
        if !accept_line(&mut head, &line) {
            break;
        }
    }
    let wire = server.respond(head);
    let (top, body) = wire.split_once("\r\n\r\n").unwrap();
    let status_code = top.split(' ').nth(1).unwrap().parse::<usize>().unwrap();
    Answer { status_code, body: body.to_string() }
}

fn get(url: String) -> Answer {
    send("GET", url)
}

fn post(url: String) -> Answer {
    send("POST", url)
}

#[test]
fn get_containers() {
    let response = get(format!("http://{IP}/container/"));

    assert_eq!(response.status_code, 200);
    assert_eq!(
        response.as_str().unwrap(),
        String::from("GET CONTAINERS!!!")
    )
}

#[test]
fn post_containers_id() {
    let response = post(format!("http://{IP}/container/256/reboot"));

    assert_eq!(response.status_code, 200);
    assert_eq!(
        response.as_str().unwrap(),
        "Container ID is: 256\nRebooting...\nTEST"
    );
}

#[test]
fn get_unknown_path() {
    let response = get(format!("http://{IP}/unknown/path"));
    assert_eq!(response.status_code, 404);
}

#[test]
fn unknown_route_is_answered_with_a_bare_404() {
    let server = server_start();
    let expected = "HTTP/1.1 404 Not Found\r\n\r\n";
    assert_eq!(server.respond("GET /unknown/path HTTP/1.1\r\n".to_string()), expected);
    assert_eq!(server.respond("POST /container/ HTTP/1.1\r\n".to_string()), expected);
    assert_eq!(server.respond("GET /container/1/reboot HTTP/1.1\r\n".to_string()), expected);
    assert_eq!(server.respond("POST /container/256/other HTTP/1.1\r\n".to_string()), expected);
}

#[test]
fn undecodable_text_is_answered_without_a_handler() {
    let mut server: Server<Handler> = Server::new(IP);
    server.add_handler(Method::OTHER, "", |_| Response::only_code(200)).unwrap();
    assert_eq!(server.respond(String::new()), "HTTP/1.1 404 Not Found\r\n\r\n");
    assert_eq!(server.respond("\n".to_string()), "HTTP/1.1 200 OK\r\n\r\n");
}

#[test]
fn second_registration_is_refused_and_the_first_stays() {
    let mut server: Server<Handler> = Server::new(IP);
    let first: Handler = |_| Response::only_code(202);
    let second: Handler = |_| Response::only_code(500);
    assert!(server.add_handler(Method::POST, "/container/:id/start", first).is_ok());
    let refused = server.add_handler(Method::POST, "/container/:id/start", second);
    match refused {
        Err(ServerError::HandlerError(detail)) => assert_eq!(
            detail,
            "POST handler with path '/container/:id/start' already registered!"
        ),
        other => panic!("{other:?}"),
    }
    assert_eq!(server.route_count(), 1);
    assert!(server.has_route(Method::POST, "/container/:id/start"));
    assert!(!server.has_route(Method::GET, "/container/:id/start"));
    assert_eq!(
        server.respond("POST /container/7/start HTTP/1.1\r\n".to_string()),
        "HTTP/1.1 202 Accepted\r\n\r\n"
    );
    assert!(server.add_handler(Method::GET, "/container/:id/start", second).is_ok());
    assert_eq!(server.route_count(), 2);
}

#[test]
fn the_route_registered_first_answers() {
    let mut server: Server<Handler> = Server::new(IP);
    server.GET("/item/:id", |r| Response {
        response_code: 200,
        headers: None,
        body: Some(BodyType::Plain(r.rest_params.get("id").unwrap().clone())),
    });
    server.GET("/item/new", |_| Response::only_code(501));
    server.PUT("/item/new", |_| Response::only_code(202));
    server.DELETE("/item/:id", |_| Response::only_code(409));
    assert_eq!(
        server.respond("GET /item/new HTTP/1.1\r\n".to_string()),
        "HTTP/1.1 200 OK\r\nContent-Type: text/plain\r\nContent-Length: 3\r\n\r\nnew"
    );
    assert_eq!(
        server.respond("PUT /item/new HTTP/1.1\r\n".to_string()),
        "HTTP/1.1 202 Accepted\r\n\r\n"
    );
    assert_eq!(
        server.respond("DELETE /item/new HTTP/1.1\r\n".to_string()),
        "HTTP/1.1 409 Conflict\r\n\r\n"
    );
    assert_eq!(server.find_route(Method::GET, "/item/new"), Some(0));
    assert_eq!(server.find_route(Method::PUT, "/item/new"), Some(2));
    assert_eq!(server.find_route(Method::POST, "/item/new"), None);
    assert_eq!(server.pattern_at(3), "/item/:id");
    assert_eq!(server.addr(), IP);
}

#[test]
fn dispatch_binds_the_parameters_of_the_route() {
    let server = server_start();
    let mut request = Request::default();
    request.method = Method::POST;
    request.path = "/container/256/reboot".to_string();
    assert_eq!(server.dispatch(&mut request), Some(1));
    assert_eq!(request.rest_params.len(), 1);
    assert_eq!(request.rest_params.get("id"), Some(&"256".to_string()));
    let handler = server.handler_at(1);
    assert_eq!(handler(&request).response_code, 200);

    let mut other = Request::default();
    other.method = Method::POST;
    other.path = "/container/256/other".to_string();
    let before = other.clone();
    assert_eq!(server.dispatch(&mut other), None);
    assert_eq!(other, before);
}

#[test]
fn answers_are_stable() {
    let server = server_start();
    for raw in [
        "",
        "GET /container/ HTTP/1.1\r\nHost: x\r\n",
        "POST /container/a%20b/reboot HTTP/1.1\r\n\r\n{\"k\":1}",
        "POST /nowhere HTTP/1.1\r\n",
    ] {
        assert_eq!(server.respond(raw.to_string()), server.respond(raw.to_string()));
    }
}

#[test]
fn lines_are_taken_up_to_the_blank_one() {
    let mut head = String::new();
    assert!(accept_line(&mut head, "GET / HTTP/1.1"));
    assert!(accept_line(&mut head, " Host: x"));
    assert_eq!(head, "GET / HTTP/1.1\r\n Host: x\r\n");
    assert!(!accept_line(&mut head, ""));
    assert!(!accept_line(&mut head, " \t\r"));
    assert_eq!(head, "GET / HTTP/1.1\r\n Host: x\r\n");
}
