//! The workspaces collection: its data model, the URL a page of it is
//! fetched from, the continuation plan that drives pagination, and the
//! assembly of pages into one ordered result.
use vstd::prelude::*;

use crate::base_url;
use crate::error::FilterError;
use crate::str_concat;

verus! {

/// The attributes of a workspace.
#[derive(Clone, Debug, PartialEq)]
pub struct Attributes {
    pub name: String,
}

/// A workspace: identity is `id`, immutable once fetched within a run.
#[derive(Clone, Debug, PartialEq)]
pub struct Workspace {
    pub id: String,
    pub attributes: Attributes,
}

/// The pagination block of a page's metadata; the absence of `next_page`
/// means "no more pages".
#[derive(Clone, Copy, Debug, PartialEq)]
pub struct Pagination {
    pub current_page: u32,
    pub page_size: u32,
    pub prev_page: Option<u32>,
    pub next_page: Option<u32>,
    pub total_pages: u32,
    pub total_count: u32,
}

/// The metadata of a page; its absence altogether means "no more pages".
#[derive(Clone, Copy, Debug, PartialEq)]
pub struct Meta {
    pub pagination: Pagination,
}

/// One decoded page of the workspaces collection.
#[derive(Clone, Debug)]
pub struct WorkspacesResponseOuter {
    pub data: Vec<Workspace>,
    pub meta: Option<Meta>,
}

/// The inclusive range of pages still to fetch after the first response,
/// or nothing where that response is already the whole result. With
/// `max_depth == 0` the fetch is unbounded and runs to `total_pages`; a
/// positive `max_depth` caps the number of pages followed.
pub open spec fn spec_continuation(meta: Option<Meta>, max_depth: u32) -> Option<(u32, u32)> {
    match meta {
        None => None,
        Some(m) => match m.pagination.next_page {
            None => None,
            Some(next_page) => {
                if max_depth == 1 {
                    None
                } else {
                    let last = if max_depth == 0 || max_depth >= m.pagination.total_pages {
                        m.pagination.total_pages
                    } else {
                        max_depth
                    };
                    if next_page <= last {
                        Some((next_page, last))
                    } else {
                        None
                    }
                }
            },
        },
    }
}

/// Decides, from the first response's metadata, which pages remain to be
/// requested: every page from `next_page` through the lesser of
/// `total_pages` and the depth bound, in increasing order.
pub fn continuation(meta: &Option<Meta>, max_depth: u32) -> (r: Option<(u32, u32)>)
    ensures
        r == spec_continuation(*meta, max_depth),
{
    match meta {
        None => None,
        Some(m) => match m.pagination.next_page {
            None => None,
            Some(next_page) => {
                if max_depth == 1 {
                    None
                } else {
                    let last = if max_depth == 0 || max_depth >= m.pagination.total_pages {
                        m.pagination.total_pages
                    } else {
                        max_depth
                    };
                    if next_page <= last {
                        Some((next_page, last))
                    } else {
                        None
                    }
                }
            },
        },
    }
}

/// The items of a sequence of pages, each page seen as its items.
pub open spec fn pages_view(pages: Seq<Vec<Workspace>>) -> Seq<Seq<Workspace>> {
    pages.map_values(|p: Vec<Workspace>| p@)
}

/// Concatenates the continuation pages onto the first page's items,
/// preserving page order and within-page order exactly.
pub fn assemble_pages(first: Vec<Workspace>, rest: Vec<Vec<Workspace>>) -> (r: Vec<Workspace>)
    ensures
        r@ == first@ + pages_view(rest@).flatten(),
{
    let ghost all = rest@;
    let mut out = first;
    let mut rest = rest;
    let ghost done: int = 0;
    while rest.len() > 0
        invariant
            0 <= done <= all.len(),
            rest@ == all.subrange(done, all.len() as int),
            out@ == first@ + pages_view(all.subrange(0, done)).flatten(),
        decreases rest@.len(),
    {
        let mut page = rest.remove(0);
        proof {
            assert(page == all[done]);
            assert(rest@ =~= all.subrange(done + 1, all.len() as int));
        }
        let ghost out_pre = out@;
        out.append(&mut page);
        proof {
            let prefix = all.subrange(0, done);
            let prefix1 = all.subrange(0, done + 1);
            assert(prefix1 =~= prefix.push(all[done]));
            assert(pages_view(prefix1) =~= pages_view(prefix).push(all[done]@));
            pages_view(prefix).lemma_flatten_push(all[done]@);
            assert(out@ =~= first@ + pages_view(prefix1).flatten());
            done = done + 1;
        }
    }
    proof {
        assert(all.subrange(0, all.len() as int) =~= all);
    }
    out
}

/// What one run of the fetcher yields over a paged collection: the first
/// requested page's items, then the items of every page the continuation
/// plan names, in increasing page order. `pages[k]` stands for page `k + 1`
/// of the collection.
pub open spec fn fetch_result(
    pages: Seq<Seq<Workspace>>,
    first_page: int,
    plan: Option<(u32, u32)>,
) -> Seq<Workspace> {
    match plan {
        None => pages[first_page - 1],
        Some(range) => pages[first_page - 1] + pages.subrange(
            range.0 as int - 1,
            range.1 as int,
        ).flatten(),
    }
}

/// Pagination completeness: over a collection of `pages.len()` pages whose
/// first response reports that total and points at page 2, an unbounded
/// fetch that starts at page 1 yields the concatenation of all pages' items
/// in page order.
pub proof fn lemma_pagination_completeness(pages: Seq<Seq<Workspace>>, meta: Meta)
    requires
        1 <= pages.len() <= u32::MAX,
        meta.pagination.total_pages == pages.len(),
        meta.pagination.next_page == (if pages.len() >= 2 {
            Some(2u32)
        } else {
            None::<u32>
        }),
    ensures
        fetch_result(pages, 1, spec_continuation(Some(meta), 0)) == pages.flatten(),
{
    if pages.len() == 1 {
        pages.lemma_flatten_one_element();
        assert(fetch_result(pages, 1, spec_continuation(Some(meta), 0)) == pages.first());
    } else {
        assert(spec_continuation(Some(meta), 0) == Some((2u32, meta.pagination.total_pages)));
        assert(pages.subrange(1, pages.len() as int) =~= pages.drop_first());
        assert(pages.flatten() == pages.first() + pages.drop_first().flatten());
        assert(pages[0] == pages.first());
    }
}

/// Pagination bound: with a positive depth bound below the page count, the
/// fetch yields exactly the items of the first `max_depth` pages and no
/// other.
pub proof fn lemma_pagination_bound(pages: Seq<Seq<Workspace>>, meta: Meta, max_depth: u32)
    requires
        2 <= pages.len() <= u32::MAX,
        1 <= max_depth < pages.len(),
        meta.pagination.total_pages == pages.len(),
        meta.pagination.next_page == Some(2u32),
    ensures
        fetch_result(pages, 1, spec_continuation(Some(meta), max_depth)) == pages.subrange(
            0,
            max_depth as int,
        ).flatten(),
{
    let p = pages.subrange(0, max_depth as int);
    if max_depth == 1 {
        assert(spec_continuation(Some(meta), max_depth) is None);
        p.lemma_flatten_one_element();
        assert(p.first() == pages[0]);
    } else {
        assert(spec_continuation(Some(meta), max_depth) == Some((2u32, max_depth)));
        assert(p.first() == pages[0]);
        assert(p.drop_first() =~= pages.subrange(1, max_depth as int));
        assert(p.flatten() == p.first() + p.drop_first().flatten());
    }
}

/// Resumed fetch: the start page is whatever page was requested first, and
/// the continuation cursor is the `next_page` of that page's response: an
/// unbounded fetch yields the items of every page from the start page
/// through the last, in page order, wherever it started.
pub proof fn lemma_pagination_resume(pages: Seq<Seq<Workspace>>, meta: Meta, first_page: int)
    requires
        1 <= pages.len() <= u32::MAX,
        1 <= first_page < pages.len(),
        meta.pagination.total_pages == pages.len(),
        meta.pagination.next_page == Some((first_page + 1) as u32),
    ensures
        fetch_result(pages, first_page, spec_continuation(Some(meta), 0)) == pages.subrange(
            first_page - 1,
            pages.len() as int,
        ).flatten(),
{
    let p = pages.subrange(first_page - 1, pages.len() as int);
    assert(spec_continuation(Some(meta), 0) == Some(
        ((first_page + 1) as u32, meta.pagination.total_pages),
    ));
    assert(p.first() == pages[first_page - 1]);
    assert(p.drop_first() =~= pages.subrange(first_page, pages.len() as int));
    assert(p.flatten() == p.first() + p.drop_first().flatten());
}

/// Single-page shortcut: a response with no metadata, or none that names a
/// next page, yields exactly the requested page's items, whatever the depth
/// bound.
pub proof fn lemma_single_page_shortcut(
    pages: Seq<Seq<Workspace>>,
    first_page: int,
    meta: Option<Meta>,
    max_depth: u32,
)
    requires
        1 <= first_page <= pages.len(),
        match meta {
            None => true,
            Some(m) => m.pagination.next_page is None,
        },
    ensures
        fetch_result(pages, first_page, spec_continuation(meta, max_depth)) == pages[first_page
            - 1],
{
}

/// What `url::Url::parse_with_params` makes of a base text and (key, value)
/// query pairs: the normalized URL with the pairs appended to its query, or
/// nothing where the base text is not an acceptable absolute URL.
pub uninterp spec fn parsed_url_with_params(
    base: Seq<char>,
    params: Seq<(Seq<char>, Seq<char>)>,
) -> Option<Seq<char>>;

/// The texts of a sequence of (key, value) pairs.
pub open spec fn params_view(params: Seq<(String, String)>) -> Seq<(Seq<char>, Seq<char>)> {
    params.map_values(|p: (String, String)| (p.0@, p.1@))
}

/// Relies on `url::Url::parse_with_params`: the outcome is a function of
/// the base text and the (key, value) pairs alone; the parser either
/// accepts the base text or rejects it.
#[verifier::external_body]
fn parse_url_with_params(base: &str, params: &Vec<(String, String)>) -> (r: Option<String>)
    ensures
        match r {
            Some(u) => parsed_url_with_params(base@, params_view(params@)) == Some(u@),
            None => parsed_url_with_params(base@, params_view(params@)) is None,
        },
{
    match url::Url::parse_with_params(base, params.iter().map(|p| (p.0.as_str(), p.1.as_str()))) {
        Ok(u) => Some(String::from(u)),
        Err(_) => None,
    }
}

/// The endpoint text of an organization's workspaces collection.
pub open spec fn workspaces_endpoint(org: Seq<char>) -> Seq<char> {
    base_url() + "/organizations/"@ + org + "/workspaces/"@
}

/// The query parameters of one workspaces page request: the page number,
/// the page size, and the server-side name search where one was asked.
pub open spec fn page_params(
    page_number: Seq<char>,
    page_size: Seq<char>,
    name: Option<Seq<char>>,
) -> Seq<(Seq<char>, Seq<char>)> {
    let base = seq![("page[number]"@, page_number), ("page[size]"@, page_size)];
    match name {
        None => base,
        Some(n) => base.push(("search[name]"@, n)),
    }
}

/// The text of an optional text.
pub open spec fn opt_text(s: Option<String>) -> Option<Seq<char>> {
    match s {
        None => None,
        Some(t) => Some(t@),
    }
}

/// Builds the URL of one page of an organization's workspaces collection,
/// with the page number and size as query parameters and the name search
/// appended where one was asked; a malformed endpoint is a fatal error.
pub fn workspace_page_url(
    org: &str,
    page_number: &str,
    page_size: &str,
    name: &Option<String>,
) -> (r: Result<String, FilterError>)
    ensures
        ({
            let u = parsed_url_with_params(
                workspaces_endpoint(org@),
                page_params(page_number@, page_size@, opt_text(*name)),
            );
            match r {
                Ok(t) => u == Some(t@),
                Err(e) => u is None && e is Url,
            }
        }),
{
    let endpoint0 = str_concat(crate::base_url_str(), "/organizations/");
    let endpoint1 = str_concat(endpoint0.as_str(), org);
    let endpoint = str_concat(endpoint1.as_str(), "/workspaces/");
    assert(endpoint@ == workspaces_endpoint(org@));
    let mut params: Vec<(String, String)> = Vec::new();
    params.push(("page[number]".to_owned(), page_number.to_owned()));
    params.push(("page[size]".to_owned(), page_size.to_owned()));
    match name {
        Some(n) => params.push(("search[name]".to_owned(), n.clone())),
        None => {},
    }
    proof {
        assert(params_view(params@) =~= page_params(page_number@, page_size@, opt_text(*name)));
    }
    match parse_url_with_params(endpoint.as_str(), &params) {
        Some(u) => Ok(u),
        None => Err(FilterError::Url("could not build the workspaces URL".to_owned())),
    }
}

} // verus!
