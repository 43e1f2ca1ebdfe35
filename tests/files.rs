use http_server::{Lookup, Request, StatusCode, WebsiteHandler};

fn request(text: &str) -> Request {
    Request::try_from(text.as_bytes()).unwrap()
}

#[test]
fn lookup_routes_pages_and_files() {
    let h = WebsiteHandler::new("/srv/public".to_string());
    assert_eq!(h.lookup(&request("GET / HTTP/1.1\r\n")), Lookup::Page("index.html".to_string()));
    assert_eq!(h.lookup(&request("GET /hello HTTP/1.1\r\n")), Lookup::Page("hello.html".to_string()));
    assert_eq!(h.lookup(&request("GET /style.css HTTP/1.1\r\n")), Lookup::File("/style.css".to_string()));
    assert_eq!(h.lookup(&request("POST / HTTP/1.1\r\n")), Lookup::Missing);
}

#[test]
fn location_joins_root_and_file() {
    let h = WebsiteHandler::new("/srv/public".to_string());
    assert_eq!(h.location("index.html"), "/srv/public/index.html");
    assert_eq!(h.public_path(), "/srv/public");
}

#[test]
fn inside_root_is_by_whole_components() {
    let h = WebsiteHandler::new("/srv/public".to_string());
    assert!(h.is_inside_root("/srv/public"));
    assert!(h.is_inside_root("/srv/public/a.html"));
    assert!(!h.is_inside_root("/srv/publicity/a.html"));
    assert!(!h.is_inside_root("/etc/passwd"));
    assert!(!h.is_inside_root("/srv"));
}

#[test]
fn traversal_outside_root_is_not_found() {
    let h = WebsiteHandler::new("/srv/public".to_string());
    let lookup = h.lookup(&request("GET /../../etc/passwd HTTP/1.1\r\n"));
    assert_eq!(lookup, Lookup::File("/../../etc/passwd".to_string()));
    let r = h.file_response(&lookup, Some("/etc/passwd"), Some("root:x:0:0".to_string()));
    assert_eq!(r.status_code, StatusCode::NOT_FOUND);
    assert_eq!(r.body, None);
}

#[test]
fn file_inside_root_is_served() {
    let h = WebsiteHandler::new("/srv/public".to_string());
    let lookup = Lookup::File("/a.css".to_string());
    let r = h.file_response(&lookup, Some("/srv/public/a.css"), Some("body{}".to_string()));
    assert_eq!(r.status_code, StatusCode::OK);
    assert_eq!(r.body.as_deref(), Some("body{}"));
    let r = h.file_response(&lookup, Some("/srv/public/a.css"), None);
    assert_eq!(r.status_code, StatusCode::NOT_FOUND);
    let r = h.file_response(&lookup, None, None);
    assert_eq!(r.status_code, StatusCode::NOT_FOUND);
}

#[test]
fn pages_and_missing_responses() {
    let h = WebsiteHandler::new("/srv/public".to_string());
    let page = Lookup::Page("index.html".to_string());
    let r = h.file_response(&page, Some("/srv/public/index.html"), Some("<h1>".to_string()));
    assert_eq!(r.status_code, StatusCode::OK);
    assert_eq!(r.body.as_deref(), Some("<h1>"));
    let r = h.file_response(&page, None, None);
    assert_eq!(r.status_code, StatusCode::OK);
    assert_eq!(r.body, None);
    let r = h.file_response(&Lookup::Missing, Some("/srv/public/x"), Some("x".to_string()));
    assert_eq!(r.status_code, StatusCode::NOT_FOUND);
    assert_eq!(r.body, None);
}
