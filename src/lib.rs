//! Full-text projection of key-value store records kept current from a
//! change stream: attribute decoding, batch planning against an index,
//! and ordered hydration of ranked search results.

pub mod attribute_helper;
pub mod change;
pub mod decimal;
pub mod document;
pub mod email;
pub mod hydrate;
pub mod index_model;
pub mod message;
pub mod message_hydrate;
pub mod schema;
pub mod search;
pub mod search_request;
pub mod search_response;
