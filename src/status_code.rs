//! HTTP status codes.
use vstd::prelude::*;

verus! {

/// The status codes the server sends.
#[allow(non_camel_case_types, clippy::upper_case_acronyms)]
#[derive(Clone, Copy, Debug, PartialEq, Eq, Structural)]
pub enum StatusCode {
    OK,
    BAD_REQUEST,
    NOT_FOUND,
}

impl StatusCode {
    pub open spec fn spec_code(self) -> u16 {
        match self {
            StatusCode::OK => 200,
            StatusCode::BAD_REQUEST => 400,
            StatusCode::NOT_FOUND => 404,
        }
    }

    pub open spec fn spec_reason_phrase(self) -> Seq<char> {
        match self {
            StatusCode::OK => "Ok"@,
            StatusCode::BAD_REQUEST => "Bad Request"@,
            StatusCode::NOT_FOUND => "Not Found"@,
        }
    }

    /// The numeric code.
    pub fn code(&self) -> (r: u16)
        ensures
            r == self.spec_code(),
    {
        match self {
            StatusCode::OK => 200,
            StatusCode::BAD_REQUEST => 400,
            StatusCode::NOT_FOUND => 404,
        }
    }

    /// The reason phrase that follows the code in a status line.
    pub fn reason_phrase(&self) -> (r: &'static str)
        ensures
            r@ == self.spec_reason_phrase(),
    {
        match self {
            StatusCode::OK => "Ok",
            StatusCode::BAD_REQUEST => "Bad Request",
            StatusCode::NOT_FOUND => "Not Found",
        }
    }
}

} // verus!
