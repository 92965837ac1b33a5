//! Pagination: which pages a crawl visits.
use vstd::prelude::*;

use crate::config::Pagination;
use crate::html::{self, Css, Document, css_parses, doc_select, elem_attr};
use crate::pattern::{Pattern, regex_compiles, regex_replace_first};
use crate::text::{
    chars_of, contains, decimal, decimal_chars, extend_chars, find_from, opt_view, str_equal,
    string_of,
};
use crate::util::{resolve_spec, resolve_url};

verus! {

/// The pages to visit: a fixed list, or the start page followed by "next" links (found
/// with the selector `next`, at most `max` pages in all).
pub enum PagePlan {
    Fixed(Vec<String>),
    FollowNext { next: String, max: usize },
}

/// The URL of page `page` of a query-parameter pagination.
pub open spec fn query_page_url(start: Seq<char>, param: Seq<char>, page: nat) -> Seq<char> {
    let sep = if contains(start, "?"@) {
        "&"@
    } else {
        "?"@
    };
    start + sep + param + "="@ + decimal(page)
}

/// The pattern of a trailing `/<number>/` path segment.
pub open spec fn path_page_pattern() -> Seq<char> {
    "/\\d+/$"@
}

/// The first page of a path pagination: the start URL without its trailing `/<number>/`.
pub open spec fn path_base(start: Seq<char>) -> Seq<char> {
    if regex_compiles(path_page_pattern()) {
        regex_replace_first(path_page_pattern(), start, "/"@)
    } else {
        start
    }
}

/// The URL of page `page` of a path pagination: the base for page 1, else `base<page>/`.
pub open spec fn path_page_url(start: Seq<char>, page: nat) -> Seq<char> {
    if page == 1 {
        path_base(start)
    } else {
        path_base(start) + decimal(page) + "/"@
    }
}

/// The pages of `start..=end` under `url_of`.
pub open spec fn page_range(start: nat, end: nat, url_of: spec_fn(nat) -> Seq<char>) -> Seq<Seq<char>> {
    if start <= end {
        Seq::new((end - start + 1) as nat, |k: int| url_of((start + k) as nat))
    } else {
        Seq::empty()
    }
}

/// The pages `start..=end` of a query-parameter pagination.
pub open spec fn query_pages(start_url: Seq<char>, param: Seq<char>, start: nat, end: nat) -> Seq<Seq<char>> {
    page_range(start, end, |n: nat| query_page_url(start_url, param, n))
}

/// The pages `start..=end` of a path pagination.
pub open spec fn path_pages(start_url: Seq<char>, start: nat, end: nat) -> Seq<Seq<char>> {
    page_range(start, end, |n: nat| path_page_url(start_url, n))
}

/// The fixed pages of a pagination, or `None` for a `next_link` pagination: `query` and
/// `path` give pages `start..=end` when their bounds (and `param`) are set; anything else,
/// or no pagination, gives the start page alone.
pub open spec fn fixed_pages(start_url: Seq<char>, pg: Option<Pagination>) -> Option<Seq<Seq<char>>> {
    match pg {
        None => Some(seq![start_url]),
        Some(p) => if p.kind@ == "query"@ {
            match (p.param, p.start, p.end) {
                (Some(param), Some(s), Some(e)) => Some(query_pages(start_url, param@, s as nat, e as nat)),
                _ => Some(seq![start_url]),
            }
        } else if p.kind@ == "path"@ {
            match (p.start, p.end) {
                (Some(s), Some(e)) => Some(path_pages(start_url, s as nat, e as nat)),
                _ => Some(seq![start_url]),
            }
        } else if p.kind@ == "next_link"@ {
            None
        } else {
            Some(seq![start_url])
        },
    }
}

fn query_url(start: &str, has_q: bool, param: &str, page: usize) -> (r: String)
    requires
        has_q == contains(start@, "?"@),
    ensures
        r@ == query_page_url(start@, param@, page as nat),
{
    let mut v = chars_of(start);
    if has_q {
        v.push('&');
    } else {
        v.push('?');
    }
    extend_chars(&mut v, &chars_of(param));
    v.push('=');
    extend_chars(&mut v, &decimal_chars(page as u64));
    proof {
        reveal_strlit("&");
        reveal_strlit("?");
        reveal_strlit("=");
    }
    string_of(v.as_slice())
}

fn path_url(base: &str, page: usize) -> (r: String)
    ensures
        r@ == (if page == 1 {
            base@
        } else {
            base@ + decimal(page as nat) + "/"@
        }),
{
    if page == 1 {
        return String::from_str(base);
    }
    let mut v = chars_of(base);
    extend_chars(&mut v, &decimal_chars(page as u64));
    v.push('/');
    proof {
        reveal_strlit("/");
    }
    string_of(v.as_slice())
}

/// Plans the pages of a crawl that starts at `start_url` (see `fixed_pages`); a `next_link`
/// pagination follows the selector `next` (default `a.next`) for at most `max` pages
/// (default 10).
pub fn plan_pages(start_url: &str, pg: Option<&Pagination>) -> (r: PagePlan)
    ensures
        match r {
            PagePlan::Fixed(v) => fixed_pages(
                start_url@,
                match pg {
                    Some(p) => Some(*p),
                    None => None,
                },
            ) == Some(v@.map_values(|s: String| s@)),
            PagePlan::FollowNext { next, max } => match pg {
                Some(p) => p.kind@ == "next_link"@ && next@ == (match p.next {
                    Some(n) => n@,
                    None => "a.next"@,
                }) && max == (match p.max {
                    Some(m) => m,
                    None => 10,
                }),
                None => false,
            },
        },
{
    let single = || -> (v: Vec<String>)
        ensures
            v@.map_values(|s: String| s@) == seq![start_url@],
    {
        let mut v: Vec<String> = Vec::new();
        v.push(String::from_str(start_url));
        assert(v@.map_values(|s: String| s@) =~= seq![start_url@]);
        v
    };
    let p = match pg {
        None => return PagePlan::Fixed(single()),
        Some(p) => p,
    };
    if str_equal(p.kind.as_str(), "query") {
        match (&p.param, p.start, p.end) {
            (Some(param), Some(s), Some(e)) => {
                let has_q = match find_from(&chars_of(start_url), &chars_of("?"), 0) {
                    Some(_) => true,
                    None => false,
                };
                let mut urls: Vec<String> = Vec::new();
                if s <= e {
                    let mut page = s;
                    loop
                        invariant_except_break
                            s <= page <= e,
                            has_q == contains(start_url@, "?"@),
                            urls@.map_values(|x: String| x@) == Seq::new(
                                (page - s) as nat,
                                |k: int| query_page_url(start_url@, param@, (s + k) as nat),
                            ),
                        ensures
                            urls@.map_values(|x: String| x@) == Seq::new(
                                (e + 1 - s) as nat,
                                |k: int| query_page_url(start_url@, param@, (s + k) as nat),
                            ),
                        decreases e - page,
                    {
                        let ghost before = urls@;
                        let x = query_url(start_url, has_q, param.as_str(), page);
                        urls.push(x);
                        assert(urls@ =~= before.push(x));
                        assert(x@ == query_page_url(start_url@, param@, (s + (page - s)) as nat));
                        assert(urls@.map_values(|x: String| x@) =~= before.map_values(|x: String| x@).push(x@));
                        assert(urls@.map_values(|x: String| x@) =~= Seq::new(
                            (page + 1 - s) as nat,
                            |k: int| query_page_url(start_url@, param@, (s + k) as nat),
                        ));
                        if page == e {
                            break;
                        }
                        page = page + 1;
                    }
                }
                assert(urls@.map_values(|x: String| x@) =~= query_pages(start_url@, param@, s as nat, e as nat));
                PagePlan::Fixed(urls)
            },
            _ => PagePlan::Fixed(single()),
        }
    } else if str_equal(p.kind.as_str(), "path") {
        match (p.start, p.end) {
            (Some(s), Some(e)) => {
                let base = match Pattern::compile("/\\d+/$") {
                    Some(re) => re.replace_first(start_url, "/"),
                    None => String::from_str(start_url),
                };
                assert(base@ == path_base(start_url@));
                let mut urls: Vec<String> = Vec::new();
                if s <= e {
                    let mut page = s;
                    loop
                        invariant_except_break
                            s <= page <= e,
                            base@ == path_base(start_url@),
                            urls@.map_values(|x: String| x@) == Seq::new(
                                (page - s) as nat,
                                |k: int| path_page_url(start_url@, (s + k) as nat),
                            ),
                        ensures
                            urls@.map_values(|x: String| x@) == Seq::new(
                                (e + 1 - s) as nat,
                                |k: int| path_page_url(start_url@, (s + k) as nat),
                            ),
                        decreases e - page,
                    {
                        let ghost before = urls@;
                        let x = path_url(base.as_str(), page);
                        urls.push(x);
                        assert(urls@ =~= before.push(x));
                        assert(x@ == path_page_url(start_url@, (s + (page - s)) as nat));
                        assert(urls@.map_values(|x: String| x@) =~= before.map_values(|x: String| x@).push(x@));
                        assert(urls@.map_values(|x: String| x@) =~= Seq::new(
                            (page + 1 - s) as nat,
                            |k: int| path_page_url(start_url@, (s + k) as nat),
                        ));
                        if page == e {
                            break;
                        }
                        page = page + 1;
                    }
                }
                assert(urls@.map_values(|x: String| x@) =~= path_pages(start_url@, s as nat, e as nat));
                PagePlan::Fixed(urls)
            },
            _ => PagePlan::Fixed(single()),
        }
    } else if str_equal(p.kind.as_str(), "next_link") {
        let next = match &p.next {
            Some(n) => n.clone(),
            None => String::from_str("a.next"),
        };
        let max = match p.max {
            Some(m) => m,
            None => 10,
        };
        PagePlan::FollowNext { next, max }
    } else {
        PagePlan::Fixed(single())
    }
}

/// The `href` of the first element among `elems` that has one.
pub open spec fn first_href(html: Seq<char>, elems: Seq<usize>) -> Option<Seq<char>>
    decreases elems.len(),
{
    if elems.len() == 0 {
        None
    } else {
        match elem_attr(html, elems[0], "href"@) {
            Some(h) => Some(h),
            None => first_href(html, elems.drop_first()),
        }
    }
}

/// The next-page link of a page: the first `href` among the elements that `next` selects,
/// resolved against the page's URL `cur`.
pub open spec fn next_link_spec(html: Seq<char>, next: Seq<char>, cur: Seq<char>) -> Option<Seq<char>> {
    if css_parses(next) {
        match first_href(html, doc_select(html, next)) {
            Some(h) => Some(resolve_spec(h, cur)),
            None => None,
        }
    } else {
        None
    }
}

/// The link to the next page in `doc` (the page at `cur`), if any.
pub fn next_link(doc: &Document, next: &str, cur: &str) -> (r: Option<String>)
    ensures
        opt_view(r) == next_link_spec(doc@, next@, cur@),
{
    let css = match Css::parse(next) {
        Some(c) => c,
        None => return None,
    };
    let elems = html::select(doc, &css);
    let ghost all = elems@;
    let mut i: usize = 0;
    assert(all.skip(0) =~= all);
    while i < elems.len()
        invariant
            i <= elems@.len(),
            all == elems@,
            all == doc_select(doc@, next@),
            css_parses(next@),
            first_href(doc@, all) == first_href(doc@, all.skip(i as int)),
        decreases elems.len() - i,
    {
        assert(all.skip(i as int).drop_first() =~= all.skip(i + 1));
        assert(all.skip(i as int)[0] == elems@[i as int]);
        match html::attr(doc, elems[i], "href") {
            Some(h) => return Some(resolve_url(h.as_str(), cur)),
            None => {},
        }
        i = i + 1;
    }
    None
}

/// Whether a following step accepts the candidate next page: it exists, is not empty and
/// has not been visited.
pub open spec fn accepts_next(visited: Seq<Seq<char>>, next: Option<Seq<char>>) -> bool {
    match next {
        Some(n) => n.len() > 0 && !visited.contains(n),
        None => false,
    }
}

/// One step of following next links: appends the candidate to the visited pages when it
/// is accepted (see `accepts_next`); the crawl stops otherwise.
pub fn follow_step(visited: &mut Vec<String>, next: Option<String>) -> (r: bool)
    ensures
        r == accepts_next(old(visited)@.map_values(|s: String| s@), opt_view(next)),
        final(visited)@.map_values(|s: String| s@) == if r {
            old(visited)@.map_values(|s: String| s@).push(opt_view(next)->0)
        } else {
            old(visited)@.map_values(|s: String| s@)
        },
{
    let n = match next {
        Some(n) => n,
        None => return false,
    };
    if n.unicode_len() == 0 {
        return false;
    }
    let ghost vv = visited@.map_values(|s: String| s@);
    let mut i: usize = 0;
    while i < visited.len()
        invariant
            i <= visited@.len(),
            vv == visited@.map_values(|s: String| s@),
            visited@ == old(visited)@,
            opt_view(next) == Some(n@),
            forall|k: int| 0 <= k < i ==> vv[k] != n@,
        decreases visited.len() - i,
    {
        if str_equal(visited[i].as_str(), n.as_str()) {
            assert(vv[i as int] == n@);
            assert(vv.contains(n@));
            return false;
        }
        i = i + 1;
    }
    assert(!vv.contains(n@));
    let ghost before = visited@;
    visited.push(n);
    assert(visited@.map_values(|s: String| s@) =~= vv.push(n@));
    true
}

} // verus!

verus! {

/// The most pages a next-link crawl visits for the setting `max`: `max` itself, but never
/// fewer than the start page.
pub open spec fn page_cap(max: usize) -> nat {
    if max == 0 {
        1
    } else {
        max as nat
    }
}

/// Whether a next-link crawl that has visited `visited` pages may fetch another: fewer than
/// `max` pages so far.
pub fn next_page_due(visited: &Vec<String>, max: usize) -> (r: bool)
    ensures
        r == (visited@.len() < max),
{
    visited.len() < max
}

/// One step of a next-link crawl, after the last visited page was fetched as `doc`: when fewer
/// than `max` pages are visited, the page's next link (selector `next`) is followed if it is
/// accepted (see `accepts_next`), and appended to the visited pages. The visited pages never
/// grow past `page_cap(max)`.
pub fn follow_page(visited: &mut Vec<String>, doc: &Document, next: &str, max: usize) -> (r: bool)
    requires
        old(visited)@.len() >= 1,
    ensures
        ({
            let before = old(visited)@.map_values(|s: String| s@);
            let cand = next_link_spec(doc@, next@, before.last());
            &&& r == (before.len() < max && accepts_next(before, cand))
            &&& final(visited)@.map_values(|s: String| s@) == if r {
                before.push(cand->0)
            } else {
                before
            }
            &&& before.len() <= page_cap(max) ==> final(visited)@.len() <= page_cap(max)
        }),
{
    let ghost before = visited@.map_values(|s: String| s@);
    if visited.len() >= max {
        return false;
    }
    let last = visited.len() - 1;
    assert(before.last() == visited@[last as int]@);
    let cand = next_link(doc, next, visited[last].as_str());
    let r = follow_step(visited, cand);
    assert(visited@.map_values(|s: String| s@).len() == visited@.len());
    r
}

} // verus!
