//! The request of a search.

use vstd::prelude::*;

verus! {

/// How many ranked records a search returns when the request names no limit.
pub const DEFAULT_LIMIT: usize = 10;

/// A search: the query text, required, and how many ranked records to
/// return.
pub struct SearchRequest {
    pub query: Option<String>,
    pub limit: Option<usize>,
}

impl SearchRequest {
    /// The limit the request names, or the default.
    pub fn effective_limit(&self) -> (r: usize)
        ensures
            r == match self.limit {
                Some(l) => l,
                None => DEFAULT_LIMIT,
            },
    {
        match self.limit {
            Some(l) => l,
            None => DEFAULT_LIMIT,
        }
    }
}

} // verus!
