//! HTTP request methods.
use vstd::prelude::*;

use crate::text::str_eq;

verus! {

/// The closed set of HTTP verbs the server understands.
#[allow(non_camel_case_types, clippy::upper_case_acronyms)]
#[derive(Clone, Copy, Debug, PartialEq, Eq, Structural)]
pub enum Method {
    GET,
    DELETE,
    POST,
    PUT,
    HEAD,
    CONNECT,
    OPTIONS,
    TRACE,
    PATCH,
}

/// A token that names no method.
#[derive(Clone, Copy, Debug, PartialEq, Eq, Structural)]
pub struct MethodError;

/// The method an upper-case token names; tokens are matched exactly.
pub open spec fn method_of(t: Seq<char>) -> Option<Method> {
    if t == "GET"@ {
        Some(Method::GET)
    } else if t == "DELETE"@ {
        Some(Method::DELETE)
    } else if t == "POST"@ {
        Some(Method::POST)
    } else if t == "PUT"@ {
        Some(Method::PUT)
    } else if t == "HEAD"@ {
        Some(Method::HEAD)
    } else if t == "CONNECT"@ {
        Some(Method::CONNECT)
    } else if t == "OPTIONS"@ {
        Some(Method::OPTIONS)
    } else if t == "TRACE"@ {
        Some(Method::TRACE)
    } else if t == "PATCH"@ {
        Some(Method::PATCH)
    } else {
        None
    }
}

impl Method {
    /// The token that names this method.
    pub open spec fn spec_token(self) -> Seq<char> {
        match self {
            Method::GET => "GET"@,
            Method::DELETE => "DELETE"@,
            Method::POST => "POST"@,
            Method::PUT => "PUT"@,
            Method::HEAD => "HEAD"@,
            Method::CONNECT => "CONNECT"@,
            Method::OPTIONS => "OPTIONS"@,
            Method::TRACE => "TRACE"@,
            Method::PATCH => "PATCH"@,
        }
    }

    /// Reads a method from its token (case-sensitive, exact).
    pub fn parse(token: &str) -> (r: Result<Method, MethodError>)
        ensures
            r matches Ok(m) ==> method_of(token@) == Some(m),
            r is Err ==> method_of(token@) is None,
    {
        if str_eq(token, "GET") {
            Ok(Method::GET)
        } else if str_eq(token, "DELETE") {
            Ok(Method::DELETE)
        } else if str_eq(token, "POST") {
            Ok(Method::POST)
        } else if str_eq(token, "PUT") {
            Ok(Method::PUT)
        } else if str_eq(token, "HEAD") {
            Ok(Method::HEAD)
        } else if str_eq(token, "CONNECT") {
            Ok(Method::CONNECT)
        } else if str_eq(token, "OPTIONS") {
            Ok(Method::OPTIONS)
        } else if str_eq(token, "TRACE") {
            Ok(Method::TRACE)
        } else if str_eq(token, "PATCH") {
            Ok(Method::PATCH)
        } else {
            Err(MethodError)
        }
    }

    /// The token that names this method.
    pub fn token(&self) -> (r: &'static str)
        ensures
            r@ == self.spec_token(),
    {
        match self {
            Method::GET => "GET",
            Method::DELETE => "DELETE",
            Method::POST => "POST",
            Method::PUT => "PUT",
            Method::HEAD => "HEAD",
            Method::CONNECT => "CONNECT",
            Method::OPTIONS => "OPTIONS",
            Method::TRACE => "TRACE",
            Method::PATCH => "PATCH",
        }
    }
}

/// Every method's token names that method again.
pub proof fn lemma_token_names_method(m: Method)
    ensures
        method_of(m.spec_token()) == Some(m),
{
    reveal_strlit("GET");
    reveal_strlit("DELETE");
    reveal_strlit("POST");
    reveal_strlit("PUT");
    reveal_strlit("HEAD");
    reveal_strlit("CONNECT");
    reveal_strlit("OPTIONS");
    reveal_strlit("TRACE");
    reveal_strlit("PATCH");
    assert("GET"@.len() == 3 && "GET"@[0] == 'G' && "GET"@[1] == 'E');
    assert("DELETE"@.len() == 6 && "DELETE"@[0] == 'D' && "DELETE"@[1] == 'E');
    assert("POST"@.len() == 4 && "POST"@[0] == 'P' && "POST"@[1] == 'O');
    assert("PUT"@.len() == 3 && "PUT"@[0] == 'P' && "PUT"@[1] == 'U');
    assert("HEAD"@.len() == 4 && "HEAD"@[0] == 'H' && "HEAD"@[1] == 'E');
    assert("CONNECT"@.len() == 7 && "CONNECT"@[0] == 'C' && "CONNECT"@[1] == 'O');
    assert("OPTIONS"@.len() == 7 && "OPTIONS"@[0] == 'O' && "OPTIONS"@[1] == 'P');
    assert("TRACE"@.len() == 5 && "TRACE"@[0] == 'T' && "TRACE"@[1] == 'R');
    assert("PATCH"@.len() == 5 && "PATCH"@[0] == 'P' && "PATCH"@[1] == 'A');
}

} // verus!
