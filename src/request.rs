//! Parsing a request line into a typed request.
//!
//! Words of the request line end at a space or at a carriage return; after a
//! carriage return the next character (the line feed of `\r\n`) is skipped as
//! well, without checking that it is one. Only the request line is read: the
//! header lines and the body after it are ignored.
use vstd::prelude::*;

use crate::method::{lemma_token_names_method, method_of, Method};
use crate::query_string::{entries_wf, lemma_parse_query_wf, parse_query, QueryString, Values};
use crate::text::{find_char, first_index_of, str_eq};
use vstd::string::StringSliceAdditionalSpecFns;
use vstd::utf8::{decode_utf8, encode_utf8, encode_utf8_decode_utf8, encode_utf8_valid_utf8, valid_utf8};

verus! {

/// Why a buffer is not a request.
#[derive(Clone, Copy, Debug, PartialEq, Eq, Structural)]
pub enum ParseError {
    InvalidRequest,
    InvalidEncoding,
    InvalidProtocol,
    InvalidMethod,
}

impl ParseError {
    pub open spec fn spec_message(self) -> Seq<char> {
        match self {
            ParseError::InvalidRequest => "Invalid Request"@,
            ParseError::InvalidEncoding => "InvalidEncoding"@,
            ParseError::InvalidProtocol => "Invalid Protocol"@,
            ParseError::InvalidMethod => "Invalid Method"@,
        }
    }

    /// A short text that names the error.
    pub fn message(&self) -> (r: &'static str)
        ensures
            r@ == self.spec_message(),
    {
        match self {
            ParseError::InvalidRequest => "Invalid Request",
            ParseError::InvalidEncoding => "InvalidEncoding",
            ParseError::InvalidProtocol => "Invalid Protocol",
            ParseError::InvalidMethod => "Invalid Method",
        }
    }
}

/// A character at which a word of the request line ends.
pub open spec fn is_word_end(c: char) -> bool {
    c == ' ' || c == '\r'
}

/// Whether `i` is the first word end in `s`.
pub open spec fn is_first_word_end(s: Seq<char>, i: int) -> bool {
    &&& 0 <= i < s.len()
    &&& is_word_end(s[i])
    &&& forall|j: int| 0 <= j < i ==> !is_word_end(s[j])
}

/// Where the text after a word that ends at `i` starts: one past a space, two past a
/// carriage return (never past the end).
pub open spec fn rest_start(s: Seq<char>, i: int) -> int {
    if s[i] == ' ' {
        i + 1
    } else if i + 2 <= s.len() {
        i + 2
    } else {
        s.len() as int
    }
}

/// The first word of `s` and the text after it; `None` when no word end occurs.
pub open spec fn next_word(s: Seq<char>) -> Option<(Seq<char>, Seq<char>)> {
    if exists|i: int| is_first_word_end(s, i) {
        let i = choose|i: int| is_first_word_end(s, i);
        Some((s.subrange(0, i), s.subrange(rest_start(s, i), s.len() as int)))
    } else {
        None
    }
}

/// Splits off the first word of `request`.
pub fn get_next_word(request: &str) -> (r: Option<(&str, &str)>)
    ensures
        r matches Some((w, rest)) ==> next_word(request@) == Some((w@, rest@)),
        r is None ==> next_word(request@) is None,
{
    let n = request.unicode_len();
    let mut i: usize = 0;
    while i < n
        invariant
            n == request@.len(),
            i <= n,
            forall|j: int| 0 <= j < i ==> !is_word_end(request@[j]),
        decreases n - i,
    {
        let c = request.get_char(i);
        if c == ' ' || c == '\r' {
            proof {
                assert(is_first_word_end(request@, i as int));
                let k = choose|k: int| is_first_word_end(request@, k);
                if k < i {
                } else if k > i {
                }
            }
            let start = if c == ' ' {
                i + 1
            } else if i < n - 1 {
                i + 2
            } else {
                n
            };
            return Some((request.substring_char(0, i), request.substring_char(start, n)));
        }
        i = i + 1;
    }
    assert(!exists|k: int| is_first_word_end(request@, k));
    None
}

/// A parsed request, as values.
pub struct RequestView {
    pub method: Method,
    pub path: Seq<char>,
    pub query: Option<Seq<(Seq<char>, Values)>>,
}

/// What a request line parses to.
pub open spec fn parse_request_line(t: Seq<char>) -> Result<RequestView, ParseError> {
    match next_word(t) {
        None => Err(ParseError::InvalidRequest),
        Some((m, r1)) => match next_word(r1) {
            None => Err(ParseError::InvalidRequest),
            Some((p, r2)) => match next_word(r2) {
                None => Err(ParseError::InvalidRequest),
                Some((proto, _)) => if proto != "HTTP/1.1"@ {
                    Err(ParseError::InvalidProtocol)
                } else {
                    match method_of(m) {
                        None => Err(ParseError::InvalidMethod),
                        Some(method) => if p.len() == 0 || p[0] != '/' {
                            Err(ParseError::InvalidRequest)
                        } else {
                            match first_index_of(p, '?') {
                                None => Ok(RequestView { method, path: p, query: None }),
                                Some(i) => Ok(
                                    RequestView {
                                        method,
                                        path: p.subrange(0, i),
                                        query: Some(parse_query(p.subrange(i + 1, p.len() as int))),
                                    },
                                ),
                            }
                        },
                    }
                },
            },
        },
    }
}

/// What a buffer parses to: its text's request line, or an encoding error.
pub open spec fn parse_buffer(b: Seq<u8>) -> Result<RequestView, ParseError> {
    if valid_utf8(b) {
        parse_request_line(decode_utf8(b))
    } else {
        Err(ParseError::InvalidEncoding)
    }
}

/// A request that exists has a path that starts with `/`, and a query that binds
/// each key once.
pub open spec fn request_view_wf(v: RequestView) -> bool {
    &&& v.path.len() >= 1
    &&& v.path[0] == '/'
    &&& v.query matches Some(q) ==> entries_wf(q)
}

/// A request: its method, its path, and the query string after `?` if the path had one.
pub struct Request {
    path: String,
    query_string: Option<QueryString>,
    method: Method,
}

impl Request {
    /// A request's path starts with `/`, and its query binds each key once.
    #[verifier::type_invariant]
    spec fn inv(self) -> bool {
        request_view_wf(self@)
    }
}

impl View for Request {
    type V = RequestView;

    closed spec fn view(&self) -> RequestView {
        RequestView {
            method: self.method,
            path: self.path@,
            query: match self.query_string {
                Some(q) => Some(q@),
                None => None,
            },
        }
    }
}

/// Relies on std::str::from_utf8: it succeeds exactly on valid UTF-8, and the text
/// then has those bytes as its encoding.
#[verifier::external_body]
fn utf8_text(b: &[u8]) -> (r: Option<&str>)
    ensures
        r is Some <==> valid_utf8(b@),
        r matches Some(s) ==> s.spec_bytes() == b@,
{
    std::str::from_utf8(b).ok()
}

impl Request {
    pub fn path(&self) -> (r: &str)
        ensures
            r@ == self@.path,
            r@.len() >= 1 && r@[0] == '/',
    {
        proof {
            use_type_invariant(self);
        }
        self.path.as_str()
    }

    pub fn method(&self) -> (r: &Method)
        ensures
            *r == self@.method,
    {
        &self.method
    }

    pub fn query_string(&self) -> (r: Option<&QueryString>)
        ensures
            r matches Some(q) ==> self@.query == Some(q@) && entries_wf(q@),
            r is None ==> self@.query is None,
    {
        proof {
            use_type_invariant(self);
        }
        self.query_string.as_ref()
    }

    /// Parses a request line given as text.
    pub fn parse_text(text: &str) -> (r: Result<Request, ParseError>)
        ensures
            r matches Ok(q) ==> parse_request_line(text@) == Ok::<RequestView, ParseError>(q@) && request_view_wf(q@),
            r matches Err(e) ==> parse_request_line(text@) == Err::<RequestView, ParseError>(e),
    {
        let (method, rest) = match get_next_word(text) {
            Some(w) => w,
            None => return Err(ParseError::InvalidRequest),
        };
        let (path, rest) = match get_next_word(rest) {
            Some(w) => w,
            None => return Err(ParseError::InvalidRequest),
        };
        let (protocol, _) = match get_next_word(rest) {
            Some(w) => w,
            None => return Err(ParseError::InvalidRequest),
        };
        if !str_eq(protocol, "HTTP/1.1") {
            return Err(ParseError::InvalidProtocol);
        }
        let method = match Method::parse(method) {
            Ok(m) => m,
            Err(_) => return Err(ParseError::InvalidMethod),
        };
        let n = path.unicode_len();
        if n == 0 || path.get_char(0) != '/' {
            return Err(ParseError::InvalidRequest);
        }
        match find_char(path, '?') {
            Some(i) => {
                let query = path.substring_char(i + 1, n);
                let query_string = QueryString::from_str(query);
                proof {
                    lemma_parse_query_wf(query@);
                }
                let r = Request {
                    path: path.substring_char(0, i).to_owned(),
                    query_string: Some(query_string),
                    method,
                };
                Ok(r)
            },
            None => Ok(Request { path: path.to_owned(), query_string: None, method }),
        }
    }

    /// Parses the bytes read from a connection.
    pub fn try_from(buffer: &[u8]) -> (r: Result<Request, ParseError>)
        ensures
            r matches Ok(q) ==> parse_buffer(buffer@) == Ok::<RequestView, ParseError>(q@) && request_view_wf(q@),
            r matches Err(e) ==> parse_buffer(buffer@) == Err::<RequestView, ParseError>(e),
    {
        match utf8_text(buffer) {
            Some(text) => {
                proof {
                    encode_utf8_decode_utf8(text@);
                }
                Request::parse_text(text)
            },
            None => Err(ParseError::InvalidEncoding),
        }
    }
}

/// The bytes of a text parse as that text does.
pub proof fn lemma_parse_buffer_of_text(t: Seq<char>)
    ensures
        parse_buffer(encode_utf8(t)) == parse_request_line(t),
{
    encode_utf8_valid_utf8(t);
    encode_utf8_decode_utf8(t);
}

/// Whether `w` holds no character that ends a word.
pub open spec fn no_word_end(w: Seq<char>) -> bool {
    forall|i: int| 0 <= i < w.len() ==> !is_word_end(w[i])
}

/// A word followed by a space splits off with the text after the space.
pub proof fn lemma_next_word_space(w: Seq<char>, rest: Seq<char>)
    requires
        no_word_end(w),
    ensures
        next_word(w + seq![' '] + rest) == Some((w, rest)),
{
    let s = w + seq![' '] + rest;
    let n = w.len() as int;
    assert(is_first_word_end(s, n));
    let k = choose|k: int| is_first_word_end(s, k);
    if k < n {
        assert(s[k] == w[k]);
    } else if k > n {
    }
    assert(s.subrange(0, n) =~= w);
    assert(s.subrange(n + 1, s.len() as int) =~= rest);
}

/// A word followed by `\r\n` splits off with the text after the line break.
pub proof fn lemma_next_word_line_break(w: Seq<char>, rest: Seq<char>)
    requires
        no_word_end(w),
    ensures
        next_word(w + seq!['\r', '\n'] + rest) == Some((w, rest)),
{
    let s = w + seq!['\r', '\n'] + rest;
    let n = w.len() as int;
    assert(is_first_word_end(s, n));
    let k = choose|k: int| is_first_word_end(s, k);
    if k < n {
        assert(s[k] == w[k]);
    } else if k > n {
    }
    assert(s.subrange(0, n) =~= w);
    assert(s.subrange(n + 2, s.len() as int) =~= rest);
}

/// Text without a word end holds no word.
pub proof fn lemma_next_word_none(w: Seq<char>)
    requires
        no_word_end(w),
    ensures
        next_word(w) is None,
{
    if exists|k: int| is_first_word_end(w, k) {
        let k = choose|k: int| is_first_word_end(w, k);
        assert(!is_word_end(w[k]));
    }
}

/// The request line `<method> <path> HTTP/1.1\r\n...`.
pub open spec fn request_line(method: Seq<char>, target: Seq<char>, protocol: Seq<char>, tail: Seq<char>) -> Seq<char> {
    method + seq![' '] + target + seq![' '] + protocol + seq!['\r', '\n'] + tail
}

/// Splits a request line into its three words.
proof fn lemma_request_line_words(method: Seq<char>, target: Seq<char>, protocol: Seq<char>, tail: Seq<char>)
    requires
        no_word_end(method),
        no_word_end(target),
        no_word_end(protocol),
    ensures
        next_word(request_line(method, target, protocol, tail)) == Some((method, target + seq![' '] + protocol + seq!['\r', '\n'] + tail)),
        next_word(target + seq![' '] + protocol + seq!['\r', '\n'] + tail) == Some((target, protocol + seq!['\r', '\n'] + tail)),
        next_word(protocol + seq!['\r', '\n'] + tail) == Some((protocol, tail)),
{
    let r2 = protocol + seq!['\r', '\n'] + tail;
    let r1 = target + seq![' '] + r2;
    lemma_next_word_space(method, r1);
    assert(request_line(method, target, protocol, tail) =~= method + seq![' '] + r1);
    lemma_next_word_space(target, r2);
    assert(target + seq![' '] + protocol + seq!['\r', '\n'] + tail =~= target + seq![' '] + r2);
    lemma_next_word_line_break(protocol, tail);
}

proof fn lemma_protocol_token()
    ensures
        no_word_end("HTTP/1.1"@),
{
    reveal_strlit("HTTP/1.1");
}

proof fn lemma_method_token(m: Method)
    ensures
        no_word_end(m.spec_token()),
        method_of(m.spec_token()) == Some(m),
{
    reveal_strlit("GET");
    reveal_strlit("DELETE");
    reveal_strlit("POST");
    reveal_strlit("PUT");
    reveal_strlit("HEAD");
    reveal_strlit("CONNECT");
    reveal_strlit("OPTIONS");
    reveal_strlit("TRACE");
    reveal_strlit("PATCH");
    lemma_token_names_method(m);
}

/// A well-formed request line whose path has no `?` parses to its method and its
/// path, with no query string.
pub proof fn lemma_parse_well_formed(m: Method, path: Seq<char>, tail: Seq<char>)
    requires
        path.len() >= 1,
        path[0] == '/',
        no_word_end(path),
        !path.contains('?'),
    ensures
        parse_request_line(request_line(m.spec_token(), path, "HTTP/1.1"@, tail)) == Ok::<RequestView, ParseError>(
            RequestView { method: m, path, query: None },
        ),
{
    lemma_method_token(m);
    lemma_protocol_token();
    lemma_request_line_words(m.spec_token(), path, "HTTP/1.1"@, tail);
    if exists|i: int| 0 <= i < path.len() && path[i] == '?' {
        let i = choose|i: int| 0 <= i < path.len() && path[i] == '?';
        assert(path.contains('?'));
    }
}

/// In a request line whose target holds a `?`, the path is what precedes the first
/// `?` and the query string is parsed from all that follows it.
pub proof fn lemma_parse_with_query(m: Method, path: Seq<char>, query: Seq<char>, tail: Seq<char>)
    requires
        path.len() >= 1,
        path[0] == '/',
        no_word_end(path),
        !path.contains('?'),
        no_word_end(query),
    ensures
        parse_request_line(request_line(m.spec_token(), path + seq!['?'] + query, "HTTP/1.1"@, tail))
            == Ok::<RequestView, ParseError>(
            RequestView { method: m, path, query: Some(parse_query(query)) },
        ),
{
    let target = path + seq!['?'] + query;
    lemma_method_token(m);
    lemma_protocol_token();
    assert forall|i: int| 0 <= i < target.len() implies !is_word_end(target[i]) by {
        if i < path.len() {
            assert(target[i] == path[i]);
        } else if i > path.len() {
            assert(target[i] == query[i - path.len() - 1]);
        }
    }
    lemma_request_line_words(m.spec_token(), target, "HTTP/1.1"@, tail);
    let n = path.len() as int;
    assert(target[n] == '?');
    let k = choose|k: int| 0 <= k < target.len() && target[k] == '?' && forall|j: int| 0 <= j < k ==> target[j] != '?';
    assert forall|j: int| 0 <= j < n implies target[j] != '?' by {
        assert(target[j] == path[j]);
        if path[j] == '?' {
            assert(path.contains('?'));
        }
    }
    if k < n {
        assert(target[k] == path[k]);
        assert(path.contains('?'));
    }
    assert(k == n);
    assert(target.subrange(0, n) =~= path);
    assert(target.subrange(n + 1, target.len() as int) =~= query);
}

/// A request line of three words whose third is not `HTTP/1.1` is refused for its
/// protocol.
pub proof fn lemma_parse_wrong_protocol(method: Seq<char>, target: Seq<char>, protocol: Seq<char>, tail: Seq<char>)
    requires
        no_word_end(method),
        no_word_end(target),
        no_word_end(protocol),
        protocol != "HTTP/1.1"@,
    ensures
        parse_request_line(request_line(method, target, protocol, tail)) == Err::<RequestView, ParseError>(
            ParseError::InvalidProtocol,
        ),
{
    lemma_request_line_words(method, target, protocol, tail);
}

/// A request line of three words with protocol `HTTP/1.1` whose first word names no
/// method is refused for its method.
pub proof fn lemma_parse_unknown_method(method: Seq<char>, target: Seq<char>, tail: Seq<char>)
    requires
        no_word_end(method),
        no_word_end(target),
        method_of(method) is None,
    ensures
        parse_request_line(request_line(method, target, "HTTP/1.1"@, tail)) == Err::<RequestView, ParseError>(
            ParseError::InvalidMethod,
        ),
{
    lemma_protocol_token();
    lemma_request_line_words(method, target, "HTTP/1.1"@, tail);
}

/// Text that holds fewer than three words is refused as no request.
pub proof fn lemma_parse_too_few_words(first: Seq<char>, second: Seq<char>)
    requires
        no_word_end(first),
        no_word_end(second),
    ensures
        parse_request_line(first) == Err::<RequestView, ParseError>(ParseError::InvalidRequest),
        parse_request_line(first + seq![' '] + second) == Err::<RequestView, ParseError>(
            ParseError::InvalidRequest,
        ),
{
    lemma_next_word_none(first);
    lemma_next_word_space(first, second);
    lemma_next_word_none(second);
}

} // verus!
