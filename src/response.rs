//! Responses and their wire form.
use vstd::prelude::*;

use crate::status_code::StatusCode;
use vstd::string::{StringExecFns, StringSliceAdditionalSpecFns};
use vstd::utf8::encode_utf8;

verus! {

/// The decimal digit `d` (below ten).
pub open spec fn digit_char(d: nat) -> char {
    if d == 0 {
        '0'
    } else if d == 1 {
        '1'
    } else if d == 2 {
        '2'
    } else if d == 3 {
        '3'
    } else if d == 4 {
        '4'
    } else if d == 5 {
        '5'
    } else if d == 6 {
        '6'
    } else if d == 7 {
        '7'
    } else if d == 8 {
        '8'
    } else {
        '9'
    }
}

/// `n` written in decimal, without leading zeros.
pub open spec fn decimal(n: nat) -> Seq<char>
    decreases n,
{
    if n < 10 {
        seq![digit_char(n)]
    } else {
        decimal(n / 10).push(digit_char(n % 10))
    }
}

/// The bytes a body takes on the wire.
pub open spec fn body_bytes(body: Option<Seq<char>>) -> Seq<u8> {
    match body {
        Some(b) => encode_utf8(b),
        None => Seq::empty(),
    }
}

/// The full text of a response: status line, content length, blank line, body.
pub open spec fn wire_text(status: StatusCode, body: Option<Seq<char>>) -> Seq<char> {
    "HTTP/1.1 "@ + decimal(status.spec_code() as nat) + " "@ + status.spec_reason_phrase()
        + "\r\nContent-Length: "@ + decimal(body_bytes(body).len()) + "\r\n\r\n"@ + match body {
        Some(b) => b,
        None => Seq::empty(),
    }
}

/// A status code and an optional body.
#[derive(Debug)]
pub struct Response {
    pub status_code: StatusCode,
    pub body: Option<String>,
}

impl Response {
    pub open spec fn spec_body(&self) -> Option<Seq<char>> {
        match self.body {
            Some(b) => Some(b@),
            None => None,
        }
    }

    pub fn new(status_code: StatusCode, body: Option<String>) -> (r: Response)
        ensures
            r.status_code == status_code,
            r.body == body,
    {
        Response { status_code, body }
    }

    /// The text to write to the connection.
    pub fn serialize(&self) -> (r: String)
        ensures
            r@ == wire_text(self.status_code, self.spec_body()),
    {
        let mut out = String::from_str("HTTP/1.1 ");
        append_decimal(&mut out, self.status_code.code() as u64);
        out.append(" ");
        out.append(self.status_code.reason_phrase());
        out.append("\r\nContent-Length: ");
        let len = match &self.body {
            Some(b) => b.as_str().as_bytes().len(),
            None => 0,
        };
        append_decimal(&mut out, len as u64);
        out.append("\r\n\r\n");
        if let Some(b) = &self.body {
            out.append(b.as_str());
        }
        proof {
            assert(out@ =~= wire_text(self.status_code, self.spec_body()));
        }
        out
    }
}

/// The one-character text of digit `d`.
fn digit_str(d: u64) -> (r: &'static str)
    requires
        d < 10,
    ensures
        r@ == seq![digit_char(d as nat)],
{
    proof {
        reveal_strlit("0");
        reveal_strlit("1");
        reveal_strlit("2");
        reveal_strlit("3");
        reveal_strlit("4");
        reveal_strlit("5");
        reveal_strlit("6");
        reveal_strlit("7");
        reveal_strlit("8");
        reveal_strlit("9");
    }
    let r = if d == 0 {
        "0"
    } else if d == 1 {
        "1"
    } else if d == 2 {
        "2"
    } else if d == 3 {
        "3"
    } else if d == 4 {
        "4"
    } else if d == 5 {
        "5"
    } else if d == 6 {
        "6"
    } else if d == 7 {
        "7"
    } else if d == 8 {
        "8"
    } else {
        "9"
    };
    assert(r@ =~= seq![digit_char(d as nat)]);
    r
}

/// Appends `n` in decimal.
fn append_decimal(out: &mut String, n: u64)
    ensures
        final(out)@ == old(out)@ + decimal(n as nat),
    decreases n,
{
    if n >= 10 {
        append_decimal(out, n / 10);
    }
    out.append(digit_str(n % 10));
    proof {
        if n >= 10 {
            assert(old(out)@ + decimal(n as nat) =~= old(out)@ + decimal((n / 10) as nat) + seq![
                digit_char((n % 10) as nat),
            ]);
        } else {
            assert(old(out)@ + decimal(n as nat) =~= old(out)@ + seq![digit_char(n as nat)]);
        }
    }
}

} // verus!
