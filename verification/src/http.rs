//! HTTP status codes.

use vstd::prelude::*;

use crate::numerals::decimal;

verus! {

/// The reason phrase with which `reqwest::StatusCode` shows a code, or what it
/// shows for a code that has none.
pub uninterp spec fn reason_phrase(code: u16) -> Seq<char>;

/// A status code as it is shown: the code, a space and the reason phrase.
pub open spec fn status_line(code: u16) -> Seq<char> {
    decimal(code as nat) + " "@ + reason_phrase(code)
}

/// `Display` of `reqwest::StatusCode`: the code in decimal, one space, and a
/// phrase that depends on the code alone. Which phrase belongs to which code is
/// left unsaid. The codes are those that `StatusCode::from_u16` takes.
#[verifier::external_body]
fn show_status(code: u16) -> (shown: String)
    requires
        100 <= code <= 999,
    ensures
        shown@ == decimal(code as nat) + " "@ + reason_phrase(code),
{
    reqwest::StatusCode::from_u16(code).unwrap().to_string()
}

/// The status code of an HTTP response: a number of three digits.
#[derive(Debug, Clone, Copy, PartialEq, Eq, Structural)]
pub struct HttpStatus {
    code: u16,
}

impl View for HttpStatus {
    type V = u16;

    closed spec fn view(&self) -> u16 {
        self.code
    }
}

impl HttpStatus {
    #[verifier::type_invariant]
    spec fn has_three_digits(self) -> bool {
        100 <= self.code <= 999
    }

    /// The status with the given code, where there is one.
    pub fn from_u16(code: u16) -> (status: Option<HttpStatus>)
        ensures
            status is Some == (100 <= code <= 999),
            status matches Some(s) ==> s@ == code,
    {
        if 100 <= code && code <= 999 {
            Some(HttpStatus { code })
        } else {
            None
        }
    }

    /// The code.
    pub fn as_u16(&self) -> (code: u16)
        ensures
            code == self@,
            100 <= code <= 999,
    {
        proof {
            use_type_invariant(self);
        }
        self.code
    }

    /// Whether the request was carried out.
    pub fn is_success(&self) -> (success: bool)
        ensures
            success == is_success(self@),
    {
        200 <= self.code && self.code < 300
    }

    /// Whether the server failed.
    pub fn is_server_error(&self) -> (failed: bool)
        ensures
            failed == is_server_error(self@),
    {
        500 <= self.code && self.code < 600
    }

    /// The code and its reason phrase.
    pub fn line(&self) -> (line: String)
        ensures
            line@ == status_line(self@),
    {
        proof {
            use_type_invariant(self);
        }
        show_status(self.code)
    }
}

/// The codes of requests that were carried out.
pub open spec fn is_success(code: u16) -> bool {
    200 <= code < 300
}

/// The codes of failures of the server.
pub open spec fn is_server_error(code: u16) -> bool {
    500 <= code < 600
}

pub const BAD_REQUEST: u16 = 400;
pub const UNAUTHORIZED: u16 = 401;
pub const FORBIDDEN: u16 = 403;
pub const NOT_FOUND: u16 = 404;
pub const CONFLICT: u16 = 409;
pub const PRECONDITION_FAILED: u16 = 412;
pub const TOO_MANY_REQUESTS: u16 = 429;

} // verus!
