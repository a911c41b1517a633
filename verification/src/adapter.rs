//! The adapter itself: the state the host talks to, and the pipeline from a
//! raw provider response to the final ordered result list.

use vstd::prelude::*;
use vstd::string::*;
use crate::config::{Config, default_config, is_default_config, spec_include_query};
use crate::normalize::{normalize, is_normalized, str_views, title_views};
use crate::search_result::SearchResult;
use crate::urls::{build_search_url, search_url_of};
use crate::xml::{parse_suggestions, spec_suggestions};

verus! {

/// One colored character of the adapter's display label.
#[derive(Clone, Copy, Debug, PartialEq, Eq, Structural)]
pub struct ColoredChar {
    pub character: char,
    pub red: u8,
    pub green: u8,
    pub blue: u8,
    pub alpha: u8,
}

impl ColoredChar {
    /// A character with an RGBA color.
    pub fn new_rgba(character: char, red: u8, green: u8, blue: u8, alpha: u8) -> (r: ColoredChar)
        ensures
            r == (ColoredChar { character, red, green, blue, alpha }),
    {
        ColoredChar { character, red, green, blue, alpha }
    }
}

/// The candidates a fetched response stands for: none when the fetch itself
/// failed — a suggestion lookup is best-effort and never fails the search.
pub open spec fn response_candidates(response: Option<&str>) -> Seq<Seq<char>> {
    match response {
        Some(raw) => spec_suggestions(raw@),
        None => Seq::<Seq<char>>::empty(),
    }
}

/// The suggestion adapter. It holds the active configuration; the host owns
/// the network client and the browser, and pushes configuration in.
pub struct Google {
    pub config: Config,
}

impl Google {
    /// A fresh adapter, on the default configuration.
    pub fn new() -> (r: Google)
        ensures
            is_default_config(r.config),
    {
        Google { config: default_config() }
    }

    /// The adapter's name.
    pub fn name(&self) -> (r: &'static str)
        ensures
            r@ == "Google-Search"@,
    {
        "Google-Search"
    }

    /// The adapter's colored display label.
    pub fn colored_name(&self) -> (r: Vec<ColoredChar>)
        ensures
            r@ =~= seq![
                (ColoredChar { character: 'G', red: 66, green: 133, blue: 244, alpha: 255 }),
                (ColoredChar { character: 'o', red: 219, green: 68, blue: 55, alpha: 255 }),
                (ColoredChar { character: 'o', red: 244, green: 180, blue: 0, alpha: 255 }),
                (ColoredChar { character: 'g', red: 66, green: 133, blue: 244, alpha: 255 }),
                (ColoredChar { character: 'l', red: 15, green: 157, blue: 88, alpha: 255 }),
                (ColoredChar { character: 'e', red: 219, green: 68, blue: 55, alpha: 255 }),
            ],
    {
        let mut label: Vec<ColoredChar> = Vec::new();
        label.push(ColoredChar::new_rgba('G', 66, 133, 244, 255));
        label.push(ColoredChar::new_rgba('o', 219, 68, 55, 255));
        label.push(ColoredChar::new_rgba('o', 244, 180, 0, 255));
        label.push(ColoredChar::new_rgba('g', 66, 133, 244, 255));
        label.push(ColoredChar::new_rgba('l', 15, 157, 88, 255));
        label.push(ColoredChar::new_rgba('e', 219, 68, 55, 255));
        label
    }

    /// The whole search pipeline after the fetch: scrape candidates out of
    /// the raw response — an absent or malformed one yields none — then
    /// sort, deduplicate, and apply the query-inclusion policy.
    pub fn search(&self, query: &str, response: Option<&str>) -> (r: Vec<SearchResult>)
        ensures
            is_normalized(
                response_candidates(response),
                query@,
                spec_include_query(self.config),
                title_views(r@),
            ),
            forall|k: int| 0 <= k < r@.len() ==> (#[trigger] r@[k].extra_info) is None,
    {
        let candidates: Vec<String> = match response {
            Some(raw) => parse_suggestions(raw),
            None => Vec::new(),
        };
        proof {
            assert(str_views(candidates@) =~= response_candidates(response));
        }
        let with_query = self.config.include_query();
        normalize(&candidates, query, with_query)
    }

    /// The URL that acting on a chosen result opens: a web search for its
    /// title. The host passes it to the browser.
    pub fn execute_url(&self, result: &SearchResult) -> (r: String)
        ensures
            r@ == search_url_of(result.title@),
    {
        build_search_url(result.title())
    }

    /// The default configuration, offered to the host for editing.
    pub fn get_config_entries(&self) -> (r: Config)
        ensures
            is_default_config(r),
    {
        default_config()
    }

    /// Replaces the active configuration wholesale; nothing is merged.
    pub fn lazy_load_config(&mut self, config: Config)
        ensures
            final(self).config == config,
    {
        self.config = config;
    }
}

} // verus!
