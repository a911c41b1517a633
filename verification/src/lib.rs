//! A search-suggestion adapter: it builds the request URL for a remote
//! autocomplete endpoint, scrapes candidate suggestions out of the raw XML
//! response, and normalizes them — sorted, deduplicated, with an optional
//! guarantee that the literal query appears first — into search results.
//!
//! The network round trip and the "open a browser" action are left to the
//! host; everything that decides or computes lives here, verified.

pub mod adapter;
pub mod config;
pub mod laws;
pub mod normalize;
pub mod search_result;
pub mod strcmp;
pub mod urls;
pub mod xml;
