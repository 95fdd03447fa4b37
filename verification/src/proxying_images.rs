//! The upstream file API as the core sees it: the typed error a fetch can
//! end in. The HTTP call itself lives outside the library; callers hand the
//! outcome back to [`crate::processing::Processor::resolve_upstream`].

use vstd::prelude::*;
use crate::types::{digit_chars, u64_to_string};

verus! {

/// A failed upstream fetch: why, and the HTTP status if one was received.
/// A transport failure carries no status.
#[derive(Debug)]
pub struct FileApiError {
    pub reason: String,
    pub http_error_code: Option<u32>,
}

impl FileApiError {
    pub fn new(reason: String, http_error_code: Option<u32>) -> (r: Self)
        ensures
            r.reason@ == reason@,
            r.http_error_code == http_error_code,
    {
        FileApiError { reason, http_error_code }
    }

    /// Whether the upstream definitely answered that the image does not
    /// exist; everything else is an upstream failure.
    pub fn is_not_found(&self) -> (r: bool)
        ensures
            r == (self.http_error_code == Some(404u32)),
    {
        match self.http_error_code {
            Option::Some(code) => code == 404,
            Option::None => false,
        }
    }
}

/// The detail line reported for an upstream failure that was not a plain
/// absence: the reason and the numeric status, or `None` for a transport
/// failure.
pub open spec fn spec_upstream_detail(reason: Seq<char>, code: Option<u32>) -> Seq<char> {
    "err: "@ + reason + "; status: "@ + (match code {
        Option::Some(c) => digit_chars(c as int),
        Option::None => "None"@,
    })
}

/// Renders an upstream failure as its detail line.
pub fn upstream_error_detail(err: &FileApiError) -> (r: String)
    ensures
        r@ == spec_upstream_detail(err.reason@, err.http_error_code),
{
    let mut s = String::from_str("err: ");
    s.append(err.reason.as_str());
    s.append("; status: ");
    match err.http_error_code {
        Option::Some(c) => {
            let d = u64_to_string(c as u64);
            s.append(d.as_str());
        },
        Option::None => {
            s.append("None");
        },
    }
    proof {
        assert(s@ =~= spec_upstream_detail(err.reason@, err.http_error_code));
    }
    s
}

} // verus!
