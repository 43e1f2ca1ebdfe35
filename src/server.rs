//! The handler capability and the dispatch of one connection's bytes.
use vstd::prelude::*;

use crate::request::{parse_buffer, ParseError, Request};
use crate::response::Response;
use crate::status_code::StatusCode;

verus! {

/// The response to a buffer that is no request: `400 Bad Request`, no body.
pub fn bad_request_response() -> (r: Response)
    ensures
        r.status_code == StatusCode::BAD_REQUEST,
        r.body is None,
{
    Response::new(StatusCode::BAD_REQUEST, None)
}

/// Turns requests into responses; the server's one extension point.
pub trait Handler {
    fn handle_request(&mut self, request: &Request) -> Response;

    /// The response to a malformed request. Whatever the policy, it is a `400`.
    fn handle_bad_request(&mut self, e: &ParseError) -> (r: Response)
        ensures
            r.status_code == StatusCode::BAD_REQUEST,
    {
        bad_request_response()
    }
}

/// Parses the bytes read from one connection and hands the outcome to `handler`.
/// A buffer that is no request always gets a `400`.
pub fn respond<H: Handler>(handler: &mut H, buffer: &[u8]) -> (r: Response)
    ensures
        parse_buffer(buffer@) is Err ==> r.status_code == StatusCode::BAD_REQUEST,
{
    match Request::try_from(buffer) {
        Ok(request) => handler.handle_request(&request),
        Err(e) => handler.handle_bad_request(&e),
    }
}

/// A server that listens on one address.
pub struct Server {
    addr: String,
}

impl Server {
    pub closed spec fn spec_addr(&self) -> Seq<char> {
        self.addr@
    }

    pub fn new(addr: String) -> (r: Server)
        ensures
            r.spec_addr() == addr@,
    {
        Server { addr }
    }

    /// The address to listen on, `host:port`.
    pub fn addr(&self) -> (r: &str)
        ensures
            r@ == self.spec_addr(),
    {
        self.addr.as_str()
    }
}

} // verus!
