//! Building the outbound URLs: the suggestion request for a query, and the
//! web search a chosen result opens.

use vstd::prelude::*;
use vstd::string::*;

verus! {

/// What `urlencoding::encode` returns for `s`: its percent-encoding, a pure
/// function of the input characters.
pub uninterp spec fn url_encoded(s: Seq<char>) -> Seq<char>;

/// Relies on urlencoding::encode: percent-encodes every byte except
/// alphanumerics and `-`, `_`, `.`, `~`; the result depends on the input
/// alone.
#[verifier::external_body]
fn encode_component(s: &str) -> (r: String)
    ensures
        r@ == url_encoded(s@),
{
    urlencoding::encode(s).into_owned()
}

/// The suggestion endpoint for a query.
pub open spec fn suggest_url_of(q: Seq<char>) -> Seq<char> {
    "https://google.com/complete/search?q="@ + url_encoded(q) + "&output=toolbar&hl=en"@
}

/// The web-search URL for a chosen result's title.
pub open spec fn search_url_of(title: Seq<char>) -> Seq<char> {
    "https://google.com/search?q="@ + url_encoded(title)
}

/// Builds the suggestion-endpoint URL, percent-encoding the query into the
/// fixed template.
pub fn build_suggest_url(query: &str) -> (r: String)
    ensures
        r@ == suggest_url_of(query@),
{
    let mut url = String::from_str("https://google.com/complete/search?q=");
    let enc = encode_component(query);
    url.append(enc.as_str());
    url.append("&output=toolbar&hl=en");
    proof {
        assert(url@ =~= suggest_url_of(query@));
    }
    url
}

/// Builds the web-search URL that acting on a result opens, percent-encoding
/// its title into the fixed template.
pub fn build_search_url(title: &str) -> (r: String)
    ensures
        r@ == search_url_of(title@),
{
    let mut url = String::from_str("https://google.com/search?q=");
    let enc = encode_component(title);
    url.append(enc.as_str());
    url
}

} // verus!
