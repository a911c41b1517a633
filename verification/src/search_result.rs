//! The output unit of a search: a title, plus room for extra information
//! that this adapter never fills in.

use vstd::prelude::*;
use vstd::string::*;

verus! {

/// One search result. Its identity — for sorting and deduplication — is its
/// title alone.
pub struct SearchResult {
    pub title: String,
    pub extra_info: Option<String>,
}

impl SearchResult {
    /// A result carrying only a title.
    pub fn new(title: &str) -> (r: SearchResult)
        ensures
            r.title@ == title@,
            r.extra_info is None,
    {
        SearchResult { title: String::from_str(title), extra_info: None }
    }

    /// The title of the result.
    pub fn title(&self) -> (r: &str)
        ensures
            r@ == self.title@,
    {
        self.title.as_str()
    }
}

} // verus!
