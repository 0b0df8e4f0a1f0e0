//! The query pipeline's decisions: when to reload the read snapshot, what
//! to do with a request before the index is touched, and how the response
//! is assembled from what the index and the store returned.

use crate::attribute_helper::{strings_view, AttributeMap};
use crate::hydrate::{decoded_rows, emails_view, hydrate, hydrate_rows, rows_view};
use crate::search_request::SearchRequest;
use crate::search_response::SearchResponse;
use vstd::prelude::*;

verus! {

/// How long an email index reader serves from one snapshot before it
/// reloads, in milliseconds.
pub const EMAIL_RELOAD_INTERVAL_MS: u64 = 3000;

/// The same for a message index reader.
pub const MESSAGE_RELOAD_INTERVAL_MS: u64 = 30000;

/// Whether a reader whose snapshot is `elapsed_ms` old must reload before
/// it serves a query: only once the interval has passed.
pub fn should_reload(elapsed_ms: u64, interval_ms: u64) -> (r: bool)
    ensures
        r == (elapsed_ms > interval_ms),
{
    elapsed_ms > interval_ms
}

/// A request that may go to the index: its query text and limit.
pub struct PreparedQuery {
    pub text: String,
    pub limit: usize,
}

/// Checks a request before the index is touched: without a query the
/// answer is the error response "query is required"; otherwise the query
/// text and the limit, defaulted, go on.
pub fn prepare_search(request: &SearchRequest) -> (r: Result<PreparedQuery, SearchResponse>)
    ensures
        r is Err <==> request.query is None,
        match r {
            Ok(p) => p.text@ == request.query.unwrap()@ && p.limit == match request.limit {
                Some(l) => l,
                None => crate::search_request::DEFAULT_LIMIT,
            },
            Err(resp) => resp.is_error_with("query is required"@),
        },
{
    match &request.query {
        None => Err(SearchResponse::error("query is required")),
        Some(text) => Ok(PreparedQuery { text: text.clone(), limit: request.effective_limit() }),
    }
}

/// The success response of a query: the snapshot's document count, the
/// number of matches, and the records hydrated from the rows the store
/// returned, in the rank order of `ranked_ids`.
pub fn assemble_response(total: u64, count: usize, ranked_ids: &Vec<String>, rows: &Vec<AttributeMap>) -> (r: SearchResponse)
    ensures
        r.index_num_docs == Some(total),
        r.query_num_docs == Some(count),
        r.error is None,
        r.emails is Some,
        emails_view(r.emails.unwrap()@) == hydrate(strings_view(ranked_ids@), decoded_rows(rows_view(rows@))),
{
    SearchResponse::success(total, count, hydrate_rows(ranked_ids, rows))
}

} // verus!
