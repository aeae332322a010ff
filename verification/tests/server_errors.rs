use backend::server_errors::ServerError;

#[test]
fn errors_read_as_their_kind_and_their_detail() {
    assert_eq!(
        ServerError::InitError("port in use".to_string()).to_string(),
        "Init error: port in use"
    );
    assert_eq!(
        ServerError::ParseError("no line".to_string()).to_string(),
        "Parse error: no line"
    );
    assert_eq!(
        ServerError::HandlerError("twice".to_string()).to_string(),
        "Handler error: twice"
    );
}
