//! What the readiness probe reports of the store.

use vstd::prelude::*;
use crate::text::owned;

verus! {

/// The state of the store as a probe found it.
#[derive(Debug)]
pub struct DatabaseStatus {
    pub status: String,
    pub response_time_ms: Option<u64>,
}

impl DatabaseStatus {
    /// The status of a store that answered a probe after `probe`
    /// milliseconds, or did not answer (`None`).
    pub fn from_probe(probe: Option<u64>) -> (r: Self)
        ensures
            r.response_time_ms == probe,
            r.status@ == if probe is Some {
                "healthy"@
            } else {
                "unhealthy"@
            },
    {
        match probe {
            Some(ms) => DatabaseStatus { status: owned("healthy"), response_time_ms: Some(ms) },
            None => DatabaseStatus { status: owned("unhealthy"), response_time_ms: None },
        }
    }

    /// The readiness that follows from the status, and the HTTP status it is
    /// answered with: ready and 200 for a healthy store, else 503.
    pub fn readiness(&self) -> (r: (String, u16))
        ensures
            self.status@ == "healthy"@ ==> r.0@ == "ready"@ && r.1 == 200,
            self.status@ != "healthy"@ ==> r.0@ == "not_ready"@ && r.1 == 503,
    {
        if crate::text::same_text(self.status.as_str(), "healthy") {
            (owned("ready"), 200)
        } else {
            (owned("not_ready"), 503)
        }
    }
}

} // verus!
