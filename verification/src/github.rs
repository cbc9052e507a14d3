//! Overlays found through the GitHub search API.
use crate::text::{decimal, decimal_string};
use crate::types::{RemoteOrigin, RemoteRepo, RemoteRepoView, SyncKind, SyncType};
use vstd::prelude::*;

verus! {

broadcast use vstd::string::group_string_axioms;

/// Results per page that the search asks for.
pub const PER_PAGE: usize = 100;

/// The last page that is fetched.
pub const MAX_PAGE: u32 = 10;

pub open spec fn spec_search_url(page: u32) -> Seq<char> {
    "https://api.github.com/search/repositories?q=topic:gentoo-overlay&per_page=100&page="@
        + decimal(page as nat)
}

/// The search request for one page of overlays with topic `gentoo-overlay`.
pub fn search_url(page: u32) -> (r: String)
    ensures
        r@ == spec_search_url(page),
{
    let mut r = String::from_str(
        "https://api.github.com/search/repositories?q=topic:gentoo-overlay&per_page=100&page=",
    );
    let n = decimal_string(page as u64);
    r.append(n.as_str());
    r
}

/// The page to fetch after `page` returned `count` results: none after a
/// short page or after the last page.
pub open spec fn spec_next_page(page: u32, count: usize) -> Option<u32> {
    if count < PER_PAGE || page + 1 > MAX_PAGE {
        None
    } else {
        Some((page + 1) as u32)
    }
}

pub fn next_page(page: u32, count: usize) -> (r: Option<u32>)
    ensures
        r == spec_next_page(page, count),
{
    if count < PER_PAGE || page >= MAX_PAGE {
        None
    } else {
        Some(page + 1)
    }
}

/// Pagination never goes past the last page, and moves one page at a time.
pub proof fn law_pages_bounded(page: u32, count: usize)
    ensures
        spec_next_page(page, count) matches Some(p) ==> p == page + 1 && p <= MAX_PAGE,
{
}

/// The overlay that a search result describes.
pub open spec fn spec_github_repo(
    name: Seq<char>,
    description: Option<Seq<char>>,
    html_url: Seq<char>,
    clone_url: Seq<char>,
    login: Seq<char>,
) -> RemoteRepoView {
    RemoteRepoView {
        name,
        description: match description {
            Some(d) => d,
            None => Seq::empty(),
        },
        homepage: html_url,
        owner: login,
        sources: seq![(SyncKind::Git, clone_url)],
        quality: "unknown"@,
        status: "unofficial"@,
        origin: RemoteOrigin::Github,
    }
}

/// The overlay that a search result describes.
pub fn github_repo(
    name: String,
    description: Option<String>,
    html_url: String,
    clone_url: String,
    login: String,
) -> (r: RemoteRepo)
    ensures
        r@ == spec_github_repo(name@, description.deep_view(), html_url@, clone_url@, login@),
{
    let ghost cu = clone_url@;
    let mut sources: Vec<(SyncType, String)> = Vec::new();
    sources.push((SyncType::Git, clone_url));
    let r = RemoteRepo {
        name,
        description: match description {
            Some(d) => d,
            None => String::new(),
        },
        homepage: html_url,
        owner: login,
        sources,
        quality: String::from_str("unknown"),
        status: String::from_str("unofficial"),
        origin: RemoteOrigin::Github,
    };
    assert(r.sources.deep_view() =~= seq![(SyncKind::Git, cu)]);
    r
}

} // verus!
