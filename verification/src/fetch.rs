//! The decisions of a conditional fetch.
//!
//! Transport itself is a collaborator's job: a caller issues the requests,
//! hands each response's status back, and acts on the decision returned
//! here. A batch of downloads is issued concurrently; results stay
//! index-aligned with the input whatever order the transfers finish in.

use vstd::prelude::*;

verus! {

/// One fetch request: a source locator and a destination path. Many may
/// be in flight at once; the pair is the request's only identity.
#[derive(Clone, Debug)]
pub struct Download {
    pub from: String,
    pub to: String,
}

impl Download {
    /// Builds a request from its source and destination.
    pub fn from_to(from: &str, to: &str) -> (r: Download)
        ensures
            r.from@ == from@,
            r.to@ == to@,
    {
        Download { from: from.to_owned(), to: to.to_owned() }
    }
}

/// What a fetch does with a response.
#[derive(Clone, Copy, Debug, PartialEq, Eq, Structural)]
pub enum FetchAction {
    /// The destination is already current: success with no new content.
    AlreadyCurrent,
    /// Stream the body into a temporary file and move it into place.
    Store,
    /// A hard failure to surface with the URL and the status.
    Fail,
}

/// The decision for a response status: not-modified keeps the cached
/// destination, a success stores the body, anything else fails hard.
pub open spec fn action_for_status(status: u16) -> FetchAction {
    if status == 304 {
        FetchAction::AlreadyCurrent
    } else if 200 <= status && status < 300 {
        FetchAction::Store
    } else {
        FetchAction::Fail
    }
}

/// Decides what to do with a response, from its status code alone.
pub fn classify_status(status: u16) -> (r: FetchAction)
    ensures
        r == action_for_status(status),
{
    if status == 304 {
        FetchAction::AlreadyCurrent
    } else if 200 <= status && status < 300 {
        FetchAction::Store
    } else {
        FetchAction::Fail
    }
}

} // verus!
