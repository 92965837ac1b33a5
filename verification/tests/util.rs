use snatch::config::Source;
use snatch::html::Document;
use snatch::util::{
    build_headers, env_var_names, expand_env, extract_title, filename_from_url, find_matching_source,
    home_relative, is_url, parse_srcset_best, resolve_url, sanitize_filename,
};

fn density(d: &str) -> u64 {
    (d.parse::<f64>().unwrap_or(1.0) * 1000.0) as u64
}

fn pairs(v: &[(&str, &str)]) -> Vec<(String, String)> {
    v.iter().map(|(a, b)| (a.to_string(), b.to_string())).collect()
}

fn source(name: &str, domains: &[&str], match_: Option<&str>) -> Source {
    Source {
        name: name.to_string(),
        kind: "image".to_string(),
        domains: domains.iter().map(|d| d.to_string()).collect(),
        match_: match_.map(|m| m.to_string()),
        enabled: true,
        format: None,
        headers: Vec::new(),
        output: None,
        delay_ms: None,
        pagination: None,
        data: None,
        text: None,
        image: None,
    }
}

#[test]
fn expand_env_substitutes_and_keeps_literals() {
    let env = pairs(&[("SNATCH_TEST_VAR", "secret123")]);
    assert_eq!(expand_env("a=${SNATCH_TEST_VAR};b", &env), "a=secret123;b");
    assert_eq!(expand_env("no vars", &env), "no vars");
    assert_eq!(expand_env("${SNATCH_UNSET_9z}!", &env), "!"); // unset -> empty
    assert_eq!(expand_env("unclosed ${X", &env), "unclosed ${X"); // left literal
}

#[test]
fn build_headers_drops_ua_and_expands_env() {
    let env = pairs(&[("SNATCH_TEST_COOKIE", "sid=1")]);
    let raw = pairs(&[("User-Agent", "spoofed"), ("Cookie", "x=${SNATCH_TEST_COOKIE}")]);
    let out = build_headers(&raw, &env);
    assert!(!out.iter().any(|(k, _)| k.eq_ignore_ascii_case("user-agent")));
    assert!(out.iter().any(|(k, v)| k == "Cookie" && v == "x=sid=1"));
}

#[test]
fn build_headers_keeps_order_and_drops_every_case_of_user_agent() {
    let env = pairs(&[("T", "tok")]);
    let raw = pairs(&[("uSeR-aGeNt", "x"), ("Referer", "https://r/"), ("Authorization", "Bearer ${T}")]);
    let out = build_headers(&raw, &env);
    assert_eq!(out, pairs(&[("Referer", "https://r/"), ("Authorization", "Bearer tok")]));
}

#[test]
fn expand_env_several_references_and_empty_name() {
    let env = pairs(&[("A", "1"), ("B", "22")]);
    assert_eq!(expand_env("${A}-${B}-${A}", &env), "1-22-1");
    assert_eq!(expand_env("x${}y", &env), "xy");
    assert_eq!(expand_env("$A {B}", &env), "$A {B}");
    assert_eq!(expand_env("a${B}b${C", &env), "a22b${C");
}

#[test]
fn env_var_names_lists_closed_references() {
    assert_eq!(env_var_names("a${X}b${Y_2}c${Z"), vec!["X".to_string(), "Y_2".to_string()]);
    assert!(env_var_names("plain").is_empty());
}

#[test]
fn is_url_needs_scheme_and_dot() {
    assert!(is_url("  https://example.com/a  "));
    assert!(is_url("http://a.b"));
    assert!(!is_url("http://localhost"));
    assert!(!is_url("ftp://a.b"));
    assert!(!is_url("example.com"));
}

#[test]
fn sanitize_filename_replaces_trims_and_bounds() {
    assert_eq!(sanitize_filename("a/b:c*d?e\"f<g>h|i\\j"), "a_b_c_d_e_f_g_h_i_j");
    assert_eq!(sanitize_filename("a\tb"), "a_b");
    assert_eq!(sanitize_filename("  ..x..  "), "x");
    assert_eq!(sanitize_filename(" . x . "), " x ");
    assert_eq!(sanitize_filename(""), "untitled");
    assert_eq!(sanitize_filename(" ... "), "untitled");
    let long: String = "é".repeat(150);
    assert_eq!(sanitize_filename(&long), "é".repeat(100));
}

#[test]
fn filename_from_url_indexes_and_cleans() {
    assert_eq!(filename_from_url("https://e.com/img/cat.png?x=1", 3), "0003_cat.png");
    assert_eq!(filename_from_url("https://e.com/a/b.c.jpg", 12), "0012_b_c.jpg");
    assert_eq!(filename_from_url("https://e.com/a b.gif", 7), "0007_a_b.gif");
    assert_eq!(filename_from_url("https://e.com/x.jpg", 0), "0000.jpg");
    assert_eq!(filename_from_url("https://e.com/img/", 5), "0005.jpg");
    assert_eq!(filename_from_url("https://e.com/photo", 7), "0007.jpg");
    assert_eq!(filename_from_url("https://e.com/é.png", 1), "0001_é.png");
    assert_eq!(filename_from_url("https://e.com/pp.png", 12345), "12345_pp.png");
}

#[test]
fn resolve_url_absolute_protocol_relative_and_joined() {
    assert_eq!(resolve_url("https://x.org/y", "https://e.com/"), "https://x.org/y");
    assert_eq!(resolve_url("//cdn.e.com/a.png", "https://e.com/"), "https://cdn.e.com/a.png");
    assert_eq!(resolve_url("/p1", "https://e.com/dir/"), "https://e.com/p1");
    assert_eq!(resolve_url("q.html", "https://e.com/dir/page"), "https://e.com/dir/q.html");
    assert_eq!(resolve_url("x", "not a url"), "");
}

#[test]
fn parse_srcset_best_picks_largest_descriptor() {
    assert_eq!(parse_srcset_best("a.jpg 1x, b.jpg 2x", &density), "b.jpg");
    assert_eq!(parse_srcset_best("a.jpg 100w, b.jpg 50w", &density), "a.jpg");
    assert_eq!(parse_srcset_best("a.jpg, b.jpg", &density), "b.jpg");
    assert_eq!(parse_srcset_best("a.jpg 1.5x, b.jpg 1x", &density), "a.jpg");
    assert_eq!(parse_srcset_best("", &density), "");
}

#[test]
fn extract_title_trims_or_defaults() {
    assert_eq!(extract_title(&Document::parse("<html><head><title>  Hi there </title></head></html>")), "Hi there");
    assert_eq!(extract_title(&Document::parse("<p>no title</p>")), "untitled");
}

#[test]
fn find_matching_source_first_accepting_source_wins() {
    let sources = vec![
        source("A", &["example.com"], Some("/A/")),
        source("B", &["Example.com"], None),
        source("C", &["other.org"], None),
    ];
    let hit = |u: &str| find_matching_source(&sources, u).map(|s| s.name.clone());
    assert_eq!(hit("https://www.Example.com/b/1"), Some("B".to_string()));
    assert_eq!(hit("https://example.com/a/x"), Some("A".to_string()));
    assert_eq!(hit("https://sub.other.org/"), Some("C".to_string()));
    assert_eq!(hit("https://notexample.com/"), None);
    assert_eq!(hit("not a url"), None);
}

#[test]
fn home_relative_splits_components() {
    assert_eq!(home_relative("~/Desktop/Snatch"), Some(vec!["Desktop".to_string(), "Snatch".to_string()]));
    assert_eq!(home_relative("~"), Some(vec![]));
    assert_eq!(home_relative("~//a//"), Some(vec!["a".to_string()]));
    assert_eq!(home_relative("/abs/path"), None);
    assert_eq!(home_relative("~user/x"), None);
}
