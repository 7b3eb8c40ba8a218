//! Deciding how a request string is resolved: one that parses as a URL is
//! fetched directly, anything else goes through search.

use vstd::prelude::*;

verus! {

/// Whether a request string names its source directly or must be searched
/// for.
#[derive(Debug, Clone, Copy, PartialEq, Eq, Structural)]
pub enum ResolveMode {
    DirectUrl,
    Search,
}

/// Whether a string parses as a URL; the exact grammar belongs to the url
/// crate and depends on the characters alone.
pub uninterp spec fn url_like(s: Seq<char>) -> bool;

/// Relies on url's `Url::parse`: returns whether `s` parses as an absolute
/// URL, a pure function of the string.
#[verifier::external_body]
fn parses_as_url(s: &str) -> (r: bool)
    ensures
        r == url_like(s@),
{
    url::Url::parse(s).is_ok()
}

/// How `search_or_url` is to be resolved: a direct fetch exactly when it is
/// a URL, a search otherwise.
pub fn resolve_mode(search_or_url: &str) -> (m: ResolveMode)
    ensures
        m == ResolveMode::DirectUrl <==> url_like(search_or_url@),
{
    if parses_as_url(search_or_url) {
        ResolveMode::DirectUrl
    } else {
        ResolveMode::Search
    }
}

} // verus!
