//! The response of a search: either the success triple or an error, never
//! both.

use crate::email::Email;
use vstd::prelude::*;

verus! {

pub struct SearchResponse {
    /// How many documents the searched snapshot holds.
    pub index_num_docs: Option<u64>,
    /// How many documents match the query, whatever the limit.
    pub query_num_docs: Option<usize>,
    /// The hydrated records, in rank order.
    pub emails: Option<Vec<Email>>,
    pub error: Option<String>,
}

impl SearchResponse {
    /// Whether this is the error response with the given message.
    pub open spec fn is_error_with(&self, message: Seq<char>) -> bool {
        &&& self.index_num_docs is None
        &&& self.query_num_docs is None
        &&& self.emails is None
        &&& self.error is Some
        &&& self.error.unwrap()@ == message
    }

    /// The error response with the given message.
    pub fn error(error: &str) -> (r: SearchResponse)
        ensures
            r.is_error_with(error@),
    {
        SearchResponse {
            index_num_docs: None,
            query_num_docs: None,
            emails: None,
            error: Some(error.to_string()),
        }
    }

    /// The success response: the snapshot's document count, the number of
    /// matches, and the records.
    pub fn success(total: u64, count: usize, emails: Vec<Email>) -> (r: SearchResponse)
        ensures
            r.index_num_docs == Some(total),
            r.query_num_docs == Some(count),
            r.emails == Some(emails),
            r.error is None,
    {
        SearchResponse {
            index_num_docs: Some(total),
            query_num_docs: Some(count),
            emails: Some(emails),
            error: None,
        }
    }
}

} // verus!
