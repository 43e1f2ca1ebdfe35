use http_server::request::get_next_word;
use http_server::{Method, ParseError, QueryString, QueryStringValue, Request};

fn parse(text: &str) -> Result<Request, ParseError> {
    Request::try_from(text.as_bytes())
}

#[test]
fn parses_search_request_with_query() {
    let r = parse("GET /search?name=abc&sort=1 HTTP/1.1\r\n\r\n").unwrap();
    assert_eq!(*r.method(), Method::GET);
    assert_eq!(r.path(), "/search");
    let q = r.query_string().unwrap();
    assert_eq!(q.len(), 2);
    assert_eq!(q.get("name"), Some(&QueryStringValue::Single("abc".to_string())));
    assert_eq!(q.get("sort"), Some(&QueryStringValue::Single("1".to_string())));
    assert_eq!(q.get("other"), None);
}

#[test]
fn parses_every_method_without_query() {
    let tokens = ["GET", "DELETE", "POST", "PUT", "HEAD", "CONNECT", "OPTIONS", "TRACE", "PATCH"];
    for t in tokens {
        let line = format!("{} /a/b.html HTTP/1.1\r\nHost: x\r\n\r\nbody", t);
        let r = parse(&line).unwrap();
        assert_eq!(r.method().token(), t);
        assert_eq!(r.path(), "/a/b.html");
        assert!(r.query_string().is_none());
    }
}

#[test]
fn method_tokens_are_case_sensitive() {
    assert_eq!(Method::parse("GET"), Ok(Method::GET));
    assert!(Method::parse("get").is_err());
    assert!(Method::parse("").is_err());
}

#[test]
fn wrong_protocol_is_refused() {
    assert_eq!(parse("GET / HTTP/1.0\r\n\r\n").err(), Some(ParseError::InvalidProtocol));
    assert_eq!(parse("GET / http/1.1\r\n").err(), Some(ParseError::InvalidProtocol));
}

#[test]
fn too_few_words_are_refused() {
    assert_eq!(parse("GET / HTTP/1.1").err(), Some(ParseError::InvalidRequest));
    assert_eq!(parse("GET /").err(), Some(ParseError::InvalidRequest));
    assert_eq!(parse("GET").err(), Some(ParseError::InvalidRequest));
    assert_eq!(parse("").err(), Some(ParseError::InvalidRequest));
}

#[test]
fn invalid_utf8_is_refused() {
    let bytes: [u8; 6] = [b'G', b'E', b'T', b' ', 0xff, 0xfe];
    assert_eq!(Request::try_from(&bytes).err(), Some(ParseError::InvalidEncoding));
}

#[test]
fn unknown_method_is_refused() {
    assert_eq!(parse("FETCH / HTTP/1.1\r\n\r\n").err(), Some(ParseError::InvalidMethod));
}

#[test]
fn path_must_start_with_slash() {
    assert_eq!(parse("GET index.html HTTP/1.1\r\n").err(), Some(ParseError::InvalidRequest));
    assert_eq!(parse("GET  HTTP/1.1\r\n").err(), Some(ParseError::InvalidRequest));
}

#[test]
fn zero_padded_buffer_parses() {
    let mut buffer = [0u8; 1024];
    let line = b"GET /hello HTTP/1.1\r\n\r\n";
    buffer[..line.len()].copy_from_slice(line);
    let r = Request::try_from(&buffer).unwrap();
    assert_eq!(r.path(), "/hello");
}

#[test]
fn non_ascii_path_is_kept() {
    let r = parse("GET /caf\u{e9}?q=\u{fc} HTTP/1.1\r\n").unwrap();
    assert_eq!(r.path(), "/caf\u{e9}");
    let q = r.query_string().unwrap();
    assert_eq!(q.get("q"), Some(&QueryStringValue::Single("\u{fc}".to_string())));
}

#[test]
fn next_word_splits_at_space_and_line_break() {
    assert_eq!(get_next_word("GET / HTTP/1.1"), Some(("GET", "/ HTTP/1.1")));
    assert_eq!(get_next_word("HTTP/1.1\r\nHost"), Some(("HTTP/1.1", "Host")));
    assert_eq!(get_next_word("HTTP/1.1\r"), Some(("HTTP/1.1", "")));
    assert_eq!(get_next_word("nothing"), None);
}

#[test]
fn repeated_keys_accumulate() {
    let q = QueryString::from_str("a=1&b=2&a=3&a=4");
    assert_eq!(q.len(), 2);
    assert_eq!(
        q.get("a"),
        Some(&QueryStringValue::Multiple(vec!["1".to_string(), "3".to_string(), "4".to_string()]))
    );
    assert_eq!(q.get("b"), Some(&QueryStringValue::Single("2".to_string())));
}

#[test]
fn fragments_without_equals_are_skipped() {
    let q = QueryString::from_str("flag&&x=1&=2&y=");
    assert_eq!(q.len(), 3);
    assert_eq!(q.get("flag"), None);
    assert_eq!(q.get("x"), Some(&QueryStringValue::Single("1".to_string())));
    assert_eq!(q.get(""), Some(&QueryStringValue::Single("2".to_string())));
    assert_eq!(q.get("y"), Some(&QueryStringValue::Single("".to_string())));
}

#[test]
fn value_keeps_later_equals_signs() {
    let q = QueryString::from_str("k=a=b");
    assert_eq!(q.get("k"), Some(&QueryStringValue::Single("a=b".to_string())));
}

#[test]
fn empty_query_has_no_entries() {
    let r = parse("GET /x? HTTP/1.1\r\n").unwrap();
    assert_eq!(r.path(), "/x");
    assert_eq!(r.query_string().unwrap().len(), 0);
}

#[test]
fn parse_error_messages() {
    assert_eq!(ParseError::InvalidRequest.message(), "Invalid Request");
    assert_eq!(ParseError::InvalidEncoding.message(), "InvalidEncoding");
    assert_eq!(ParseError::InvalidProtocol.message(), "Invalid Protocol");
    assert_eq!(ParseError::InvalidMethod.message(), "Invalid Method");
}
