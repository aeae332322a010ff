use backend::req_res_structs::Method;
use backend::request::{path_matches, Request, RouteParams};

#[test]
fn parse_id_containers() {
    let path = "/container/:id/reboot";

    let mut request = Request {
        method: Method::GET,
        path: "/container/label/reboot".to_string(),
        headers: None,
        body: None,
        rest_params: RouteParams::new(),
    };

    let mut expected_request = request.clone();
    expected_request
        .rest_params
        .insert("id".to_string(), "label".to_string());

    request.parse_args(path);
    assert!(request.is_similar(path));
    assert_eq!(request, expected_request);
}

#[test]
fn reboot_pattern_captures_the_id() {
    let mut request = Request::default();
    request.path = "/container/256/reboot".to_string();
    assert!(request.is_similar("/container/:id/reboot"));
    request.parse_args("/container/:id/reboot");
    assert_eq!(request.rest_params.len(), 1);
    assert_eq!(request.rest_params.get("id"), Some(&"256".to_string()));
}

#[test]
fn reboot_pattern_refuses_another_last_segment() {
    assert!(!path_matches("/container/:id/reboot", "/container/256/other"));
}

#[test]
fn patterns_need_as_many_segments_as_the_path() {
    assert!(path_matches("/container/", "/container/"));
    assert!(!path_matches("/container/", "/container"));
    assert!(!path_matches("/container/:id", "/container/1/2"));
    assert!(!path_matches("/container/:id/", "/container/1"));
    assert!(path_matches("/container/:id/", "/container//"));
    assert!(path_matches("", ""));
    assert!(path_matches(":all", "anything"));
    assert!(!path_matches("/a", "/A"));
    assert!(!path_matches("/a/:b", "/a/b?q=1/c"));
    assert!(path_matches("/a/:b", "/a/b?q=1"));
    assert!(!path_matches("/a/b", "/a/b?q=1"));
}

#[test]
fn every_capture_is_bound_and_the_later_one_stays() {
    let mut request = Request::default();
    request.path = "/u/7/posts/42/7b".to_string();
    request.parse_args("/u/:user/posts/:post/:user");
    assert_eq!(request.rest_params.len(), 2);
    assert_eq!(request.rest_params.get("user"), Some(&"7b".to_string()));
    assert_eq!(request.rest_params.get("post"), Some(&"42".to_string()));
    assert_eq!(request.rest_params.get("posts"), None);
}

#[test]
fn captures_stop_where_either_side_ends() {
    let mut request = Request::default();
    request.path = "/a/b".to_string();
    request.parse_args("/:x/:y/:z");
    assert_eq!(request.rest_params.len(), 2);
    assert_eq!(request.rest_params.get("x"), Some(&"a".to_string()));
    assert_eq!(request.rest_params.get("y"), Some(&"b".to_string()));
    let mut short = Request::default();
    short.path = "/a/b/c".to_string();
    short.parse_args("/:");
    assert_eq!(short.rest_params.len(), 1);
    assert_eq!(short.rest_params.get(""), Some(&"a".to_string()));
}

#[test]
fn route_params_bind_each_name_once() {
    let mut params = RouteParams::new();
    assert!(params.is_empty());
    assert_eq!(params.insert("a".to_string(), "1".to_string()), None);
    assert_eq!(params.insert("b".to_string(), "2".to_string()), None);
    assert_eq!(params.insert("a".to_string(), "3".to_string()), Some("1".to_string()));
    assert_eq!(params.len(), 2);
    assert!(!params.is_empty());
    assert!(params.contains_key("b"));
    assert!(!params.contains_key("c"));
    assert_eq!(params.get("a"), Some(&"3".to_string()));
    assert_eq!(params.clone(), params);
}

#[test]
fn default_request_is_an_empty_get() {
    let request = Request::default();
    assert_eq!(request.method, Method::GET);
    assert_eq!(request.path, "");
    assert_eq!(request.headers, None);
    assert_eq!(request.body, None);
    assert!(request.rest_params.is_empty());
    assert_eq!(Method::DELETE.to_string(), "DELETE");
    assert_eq!(Method::from_verb("PUT"), Method::PUT);
    assert_eq!(Method::from_verb("put"), Method::OTHER);
}

#[test]
fn route_params_are_equal_in_any_order() {
    let mut forth = RouteParams::new();
    forth.insert("a".to_string(), "1".to_string());
    forth.insert("b".to_string(), "2".to_string());
    let mut back = RouteParams::new();
    back.insert("b".to_string(), "2".to_string());
    back.insert("a".to_string(), "1".to_string());
    assert_eq!(forth, back);
    assert!(forth.is_within(&back));
    back.insert("c".to_string(), "3".to_string());
    assert_ne!(forth, back);
    assert!(forth.is_within(&back));
    assert!(!back.is_within(&forth));
    forth.insert("c".to_string(), "4".to_string());
    assert_ne!(forth, back);
    assert!(!forth.is_within(&back));
}
