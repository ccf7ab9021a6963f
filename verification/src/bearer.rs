//! Reading the bearer token off an authorization header.

use vstd::prelude::*;
use vstd::string::StrSliceExecFns;
use crate::text::{owned, same_text};

verus! {

/// Why a request carries no usable token.
#[derive(Debug, PartialEq, Eq)]
pub enum HeaderRejection {
    /// The request has no authorization header.
    Missing,
    /// The header does not start with the bearer scheme.
    InvalidFormat,
}

/// The token of a header that starts with the bearer scheme: what follows
/// the scheme and its blank.
pub open spec fn bearer_of(header: Seq<char>) -> Option<Seq<char>> {
    if header.len() >= 7 && header.subrange(0, 7) == "Bearer "@ {
        Some(header.subrange(7, header.len() as int))
    } else {
        None
    }
}

impl HeaderRejection {
    pub open spec fn status(self) -> u16 {
        401
    }

    pub fn status_code(&self) -> (code: u16)
        ensures
            code == self.status(),
    {
        401
    }

    pub fn message(&self) -> (text: String)
        ensures
            text@ == match self {
                HeaderRejection::Missing => "Missing Authorization header"@,
                HeaderRejection::InvalidFormat => "Invalid Authorization header format"@,
            },
    {
        match self {
            HeaderRejection::Missing => owned("Missing Authorization header"),
            HeaderRejection::InvalidFormat => owned("Invalid Authorization header format"),
        }
    }
}

/// The bearer token of an authorization header, or why there is none.
pub fn bearer_token(header: Option<&str>) -> (r: Result<String, HeaderRejection>)
    ensures
        match header {
            None => r == Err::<String, HeaderRejection>(HeaderRejection::Missing),
            Some(h) => match bearer_of(h@) {
                Some(token) => r matches Ok(found) && found@ == token,
                None => r == Err::<String, HeaderRejection>(HeaderRejection::InvalidFormat),
            },
        },
{
    match header {
        None => Err(HeaderRejection::Missing),
        Some(h) => {
            let n = h.unicode_len();
            if n >= 7 && same_text(h.substring_char(0, 7), "Bearer ") {
                Ok(owned(h.substring_char(7, n)))
            } else {
                Err(HeaderRejection::InvalidFormat)
            }
        },
    }
}

} // verus!
