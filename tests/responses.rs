use http_server::server::{bad_request_response, respond};
use http_server::{Handler, Request, Response, Server, StatusCode};

#[test]
fn ok_response_with_body_serializes() {
    let r = Response::new(StatusCode::OK, Some("hi".to_string()));
    assert_eq!(r.serialize(), "HTTP/1.1 200 Ok\r\nContent-Length: 2\r\n\r\nhi");
}

#[test]
fn not_found_without_body_serializes() {
    let r = Response::new(StatusCode::NOT_FOUND, None);
    assert_eq!(r.serialize(), "HTTP/1.1 404 Not Found\r\nContent-Length: 0\r\n\r\n");
}

#[test]
fn bad_request_serializes() {
    assert_eq!(bad_request_response().serialize(), "HTTP/1.1 400 Bad Request\r\nContent-Length: 0\r\n\r\n");
}

#[test]
fn content_length_counts_bytes() {
    let r = Response::new(StatusCode::OK, Some("\u{e9}\u{e9}".to_string()));
    assert_eq!(r.serialize(), "HTTP/1.1 200 Ok\r\nContent-Length: 4\r\n\r\n\u{e9}\u{e9}");
    let long = "x".repeat(1234);
    let r = Response::new(StatusCode::OK, Some(long.clone()));
    assert_eq!(r.serialize(), format!("HTTP/1.1 200 Ok\r\nContent-Length: 1234\r\n\r\n{}", long));
}

#[test]
fn status_codes_and_phrases() {
    assert_eq!(StatusCode::OK.code(), 200);
    assert_eq!(StatusCode::BAD_REQUEST.code(), 400);
    assert_eq!(StatusCode::NOT_FOUND.code(), 404);
    assert_eq!(StatusCode::OK.reason_phrase(), "Ok");
    assert_eq!(StatusCode::BAD_REQUEST.reason_phrase(), "Bad Request");
    assert_eq!(StatusCode::NOT_FOUND.reason_phrase(), "Not Found");
}

struct Fixed {
    calls: usize,
}

impl Handler for Fixed {
    fn handle_request(&mut self, _request: &Request) -> Response {
        self.calls += 1;
        Response::new(StatusCode::OK, Some("fixed".to_string()))
    }
}

#[test]
fn malformed_request_gets_bad_request() {
    let mut h = Fixed { calls: 0 };
    let inputs: [&[u8]; 4] = [b"garbage", b"GET / HTTP/1.0\r\n", b"BREW / HTTP/1.1\r\n", &[0xc3, 0x28, b' ', b' ']];
    for input in inputs {
        let r = respond(&mut h, input);
        assert_eq!(r.status_code, StatusCode::BAD_REQUEST);
        assert_eq!(r.body, None);
    }
    assert_eq!(h.calls, 0);
}

#[test]
fn well_formed_request_reaches_handler() {
    let mut h = Fixed { calls: 0 };
    let r = respond(&mut h, b"GET / HTTP/1.1\r\n\r\n");
    assert_eq!(r.status_code, StatusCode::OK);
    assert_eq!(r.body.as_deref(), Some("fixed"));
    assert_eq!(h.calls, 1);
}

#[test]
fn server_keeps_address() {
    let s = Server::new("0.0.0.0:8080".to_string());
    assert_eq!(s.addr(), "0.0.0.0:8080");
}
