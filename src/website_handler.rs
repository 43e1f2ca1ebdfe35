//! The decisions of a handler that serves files from a root directory.
//!
//! Resolving a location on disk and reading it happen outside this module; the
//! handler decides which file a request names, whether a resolved location stays
//! under the root, and what the response is.
use vstd::prelude::*;

use crate::method::Method;
use crate::request::Request;
use crate::response::Response;
use crate::status_code::StatusCode;
use crate::text::str_eq;
use vstd::string::StringExecFns;

verus! {

/// What a request asks of the file handler.
#[derive(Debug, PartialEq, Eq)]
pub enum Lookup {
    /// A page with a fixed file name under the root.
    Page(String),
    /// The file at the request's path under the root.
    File(String),
    /// Nothing this handler serves.
    Missing,
}

/// Whether `p` lies under `root`: `root` is a prefix of `p` that ends at a path
/// separator or at the end of `p`.
pub open spec fn inside_root(root: Seq<char>, p: Seq<char>) -> bool {
    &&& root.len() <= p.len()
    &&& p.subrange(0, root.len() as int) == root
    &&& p.len() == root.len() || p[root.len() as int] == '/' || (root.len() > 0 && root.last()
        == '/')
}

/// Serves the files under one directory.
pub struct WebsiteHandler {
    public_path: String,
}

impl WebsiteHandler {
    pub closed spec fn root(&self) -> Seq<char> {
        self.public_path@
    }

    pub fn new(public_path: String) -> (r: WebsiteHandler)
        ensures
            r.root() == public_path@,
    {
        WebsiteHandler { public_path }
    }

    /// The directory the files are served from.
    pub fn public_path(&self) -> (r: &str)
        ensures
            r@ == self.root(),
    {
        self.public_path.as_str()
    }

    /// Which file a request names: `/` is the index page, `/hello` the greeting
    /// page, any other path of a `GET` the file at that path; other methods get nothing.
    pub fn lookup(&self, request: &Request) -> (r: Lookup)
        ensures
            request@.method != Method::GET ==> r == Lookup::Missing,
            request@.method == Method::GET && request@.path == "/"@ ==> (r matches Lookup::Page(f)
                && f@ == "index.html"@),
            request@.method == Method::GET && request@.path == "/hello"@ ==> (r matches Lookup::Page(
                f,
            ) && f@ == "hello.html"@),
            request@.method == Method::GET && request@.path != "/"@ && request@.path != "/hello"@
                ==> (r matches Lookup::File(f) && f@ == request@.path),
    {
        proof {
            reveal_strlit("/");
            reveal_strlit("/hello");
            assert("/"@.len() == 1 && "/hello"@.len() == 6);
        }
        match request.method() {
            Method::GET => {
                let path = request.path();
                if str_eq(path, "/") {
                    Lookup::Page(String::from_str("index.html"))
                } else if str_eq(path, "/hello") {
                    Lookup::Page(String::from_str("hello.html"))
                } else {
                    Lookup::File(String::from_str(path))
                }
            },
            _ => Lookup::Missing,
        }
    }

    /// Where a file name points under the root: `<root>/<file>`.
    pub fn location(&self, file: &str) -> (r: String)
        ensures
            r@ == self.root() + "/"@ + file@,
    {
        let mut r = String::from_str(self.public_path.as_str());
        r.append("/");
        r.append(file);
        r
    }

    /// Whether a resolved location lies under the root.
    pub fn is_inside_root(&self, resolved: &str) -> (r: bool)
        ensures
            r == inside_root(self.root(), resolved@),
    {
        let root = self.public_path.as_str();
        let n = root.unicode_len();
        let m = resolved.unicode_len();
        if n > m {
            return false;
        }
        let mut i: usize = 0;
        while i < n
            invariant
                root@ == self.root(),
                n == root@.len(),
                m == resolved@.len(),
                n <= m,
                i <= n,
                forall|j: int| 0 <= j < i ==> resolved@[j] == root@[j],
            decreases n - i,
        {
            if root.get_char(i) != resolved.get_char(i) {
                assert(resolved@.subrange(0, n as int)[i as int] != root@[i as int]);
                assert(resolved@.subrange(0, n as int) != root@);
                return false;
            }
            i = i + 1;
        }
        assert(resolved@.subrange(0, n as int) =~= root@);
        n == m || resolved.get_char(n) == '/' || (n > 0 && root.get_char(n - 1) == '/')
    }

    /// The response to a lookup, given the location it resolved to (`None` where it
    /// did not resolve) and the file's contents (`None` where none were read).
    /// A location outside the root is never served: a page is then empty and any
    /// other file is `404 Not Found`, whatever the contents.
    pub fn file_response(&self, lookup: &Lookup, resolved: Option<&str>, contents: Option<String>) -> (r: Response)
        ensures
            ({
                let allowed = resolved matches Some(p) && inside_root(self.root(), p@);
                &&& lookup is Missing ==> r.status_code == StatusCode::NOT_FOUND && r.body is None
                &&& lookup is Page ==> r.status_code == StatusCode::OK && r.body == (if allowed {
                    contents
                } else {
                    None
                })
                &&& lookup is File ==> if allowed && contents is Some {
                    r.status_code == StatusCode::OK && r.body == contents
                } else {
                    r.status_code == StatusCode::NOT_FOUND && r.body is None
                }
            }),
    {
        let allowed = match resolved {
            Some(p) => self.is_inside_root(p),
            None => false,
        };
        match lookup {
            Lookup::Missing => Response::new(StatusCode::NOT_FOUND, None),
            Lookup::Page(_) => {
                if allowed {
                    Response::new(StatusCode::OK, contents)
                } else {
                    Response::new(StatusCode::OK, None)
                }
            },
            Lookup::File(_) => {
                if allowed && contents.is_some() {
                    Response::new(StatusCode::OK, contents)
                } else {
                    Response::new(StatusCode::NOT_FOUND, None)
                }
            },
        }
    }
}

} // verus!
