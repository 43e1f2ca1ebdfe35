//! A minimal HTTP/1.1 server library: request-line parsing, query strings,
//! responses and their wire form, and the dispatch of one connection's bytes
//! to a pluggable handler.
use vstd::prelude::*;

pub mod method;
pub mod query_string;
pub mod request;
pub mod response;
pub mod server;
pub mod status_code;
pub mod text;
pub mod website_handler;

pub use method::{Method, MethodError};
pub use query_string::{QueryString, Value as QueryStringValue};
pub use request::{ParseError, Request};
pub use response::Response;
pub use server::{Handler, Server};
pub use status_code::StatusCode;
pub use website_handler::{Lookup, WebsiteHandler};
