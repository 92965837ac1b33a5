use snatch::config::Pagination;
use snatch::html::Document;
use snatch::pages::{follow_page, follow_step, next_link, next_page_due, plan_pages, PagePlan};

fn s(x: &str) -> String {
    x.to_string()
}

fn strings(v: &[&str]) -> Vec<String> {
    v.iter().map(|x| x.to_string()).collect()
}

fn pagination(kind: &str, param: Option<&str>, start: Option<usize>, end: Option<usize>) -> Pagination {
    Pagination { kind: s(kind), param: param.map(s), start, end, next: None, max: None }
}

fn fixed(plan: PagePlan) -> Vec<String> {
    match plan {
        PagePlan::Fixed(v) => v,
        PagePlan::FollowNext { .. } => panic!("a fixed list"),
    }
}

#[test]
fn without_pagination_only_the_start_page() {
    assert_eq!(fixed(plan_pages("https://e.com/a", None)), strings(&["https://e.com/a"]));
    let p = pagination("bogus", None, Some(1), Some(2));
    assert_eq!(fixed(plan_pages("https://e.com/a", Some(&p))), strings(&["https://e.com/a"]));
}

#[test]
fn query_pagination_numbers_pages() {
    let p = pagination("query", Some("page"), Some(1), Some(3));
    assert_eq!(
        fixed(plan_pages("https://e.com/list", Some(&p))),
        strings(&["https://e.com/list?page=1", "https://e.com/list?page=2", "https://e.com/list?page=3"])
    );
    assert_eq!(
        fixed(plan_pages("https://e.com/l?x=1", Some(&p))),
        strings(&["https://e.com/l?x=1&page=1", "https://e.com/l?x=1&page=2", "https://e.com/l?x=1&page=3"])
    );
    let backwards = pagination("query", Some("page"), Some(3), Some(1));
    assert!(fixed(plan_pages("https://e.com/list", Some(&backwards))).is_empty());
    let incomplete = pagination("query", None, Some(1), Some(3));
    assert_eq!(fixed(plan_pages("https://e.com/list", Some(&incomplete))), strings(&["https://e.com/list"]));
}

#[test]
fn path_pagination_rewrites_trailing_number() {
    let p = pagination("path", None, Some(1), Some(3));
    assert_eq!(
        fixed(plan_pages("https://e.com/list/3/", Some(&p))),
        strings(&["https://e.com/list/", "https://e.com/list/2/", "https://e.com/list/3/"])
    );
    let p = pagination("path", None, Some(2), Some(2));
    assert_eq!(fixed(plan_pages("https://e.com/list/", Some(&p))), strings(&["https://e.com/list/2/"]));
}

#[test]
fn next_link_pagination_defaults() {
    let p = pagination("next_link", None, None, None);
    match plan_pages("https://e.com/", Some(&p)) {
        PagePlan::FollowNext { next, max } => assert_eq!((next.as_str(), max), ("a.next", 10)),
        PagePlan::Fixed(_) => panic!("follows links"),
    }
    let mut p = pagination("next_link", None, None, None);
    p.next = Some(s(".pager .n"));
    p.max = Some(3);
    match plan_pages("https://e.com/", Some(&p)) {
        PagePlan::FollowNext { next, max } => assert_eq!((next.as_str(), max), (".pager .n", 3)),
        PagePlan::Fixed(_) => panic!("follows links"),
    }
}

#[test]
fn next_link_takes_first_href() {
    let doc = Document::parse(r#"<a class="next">no href</a><a class="next" href="?p=2">2</a><a class="next" href="/3">3</a>"#);
    assert_eq!(next_link(&doc, "a.next", "https://e.com/l"), Some(s("https://e.com/l?p=2")));
    assert_eq!(next_link(&doc, "a.prev", "https://e.com/l"), None);
    assert_eq!(next_link(&doc, "((", "https://e.com/l"), None);
}

#[test]
fn following_never_revisits_a_page() {
    let mut visited = strings(&["https://e.com/1"]);
    assert!(follow_step(&mut visited, Some(s("https://e.com/2"))));
    assert!(!follow_step(&mut visited, Some(s("https://e.com/1"))));
    assert!(!follow_step(&mut visited, Some(s(""))));
    assert!(!follow_step(&mut visited, None));
    assert_eq!(visited, strings(&["https://e.com/1", "https://e.com/2"]));
}

#[test]
fn next_link_crawl_stops_at_max_pages() {
    let page = |n: usize| Document::parse(&format!(r#"<a class="next" href="/p{}">next</a>"#, n + 1));
    let mut visited = strings(&["https://e.com/p1"]);
    let mut steps = 0;
    while next_page_due(&visited, 3) {
        let n = visited.len();
        assert!(follow_page(&mut visited, &page(n), "a.next", 3));
        steps += 1;
    }
    assert_eq!(steps, 2);
    assert_eq!(visited, strings(&["https://e.com/p1", "https://e.com/p2", "https://e.com/p3"]));
    assert!(!follow_page(&mut visited, &page(3), "a.next", 3));
    assert_eq!(visited.len(), 3);
    let mut one = strings(&["https://e.com/p1"]);
    assert!(!next_page_due(&one, 0));
    assert!(!follow_page(&mut one, &page(1), "a.next", 0));
    assert!(!follow_page(&mut one, &page(1), "a.missing", 5));
    let back = Document::parse(r#"<a class="next" href="/p1">again</a>"#);
    assert!(!follow_page(&mut one, &back, "a.next", 5));
    assert_eq!(one, strings(&["https://e.com/p1"]));
}
