//! Which search a request asks for, and which page of it.
use vstd::prelude::*;

use crate::errors::RespError;

verus! {

/// The kinds of search a request can ask for.
pub enum SearchRoute {
    /// Only tags: the articles that carry all of them.
    ByTags(Vec<String>),
    /// Free text, with the tags a hit must also carry, if any.
    ByText(String, Option<Vec<String>>),
    /// Neither: the empty search page.
    Blank,
}

/// A query text counts only when it is not empty.
pub fn nonempty_query(q: Option<String>) -> (r: Option<String>)
    ensures
        match q {
            Some(s) => if s@.len() > 0 { r == Some(s) } else { r is None },
            None => r is None,
        },
{
    match q {
        Some(s) => if s.as_str().is_empty() {
            None
        } else {
            Some(s)
        },
        None => None,
    }
}

/// Picks the search and the page for the given parameters. A page number
/// without a query text or tags is a bad request; without a page number the
/// first page is meant. Text wins over tags alone: with both, tags filter the
/// text search.
pub fn route_search(tags: Option<Vec<String>>, q: Option<String>, page: Option<usize>) -> (r: Result<(SearchRoute, usize), RespError>)
    ensures
        (r is Err) <==> (page is Some && tags is None && q is None),
        r matches Err(e) ==> e is BadRequest,
        r matches Ok((route, p)) ==> {
            &&& p == (match page { Some(n) => n, None => 1 })
            &&& match (tags, q) {
                (Some(ts), None) => route == SearchRoute::ByTags(ts),
                (ts, Some(text)) => route == SearchRoute::ByText(text, ts),
                (None, None) => route is Blank,
            }
        },
{
    let no_params = tags.is_none() && q.is_none();
    let p = match page {
        Some(n) => {
            if no_params {
                return Err(RespError::BadRequest);
            }
            n
        },
        None => 1,
    };
    let route = match (tags, q) {
        (Some(ts), None) => SearchRoute::ByTags(ts),
        (ts, Some(text)) => SearchRoute::ByText(text, ts),
        (None, None) => SearchRoute::Blank,
    };
    Ok((route, p))
}

} // verus!
