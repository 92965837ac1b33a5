use snatch::config::{Column, Field};
use snatch::crawler::{extract_column, extract_fields, parse_get};
use snatch::html::{select, Css, Document};

/// The density weight of a `srcset` `x` descriptor, as the dashboard computes it.
fn density(d: &str) -> u64 {
    (d.parse::<f64>().unwrap_or(1.0) * 1000.0) as u64
}

fn field(selector: &str, get: &str) -> Field {
    Field { selector: selector.into(), get: get.into(), regex: None, replace: None, engine: None }
}

#[test]
fn get_text_and_attr() {
    let doc = Document::parse(r#"<div id="c"><a href="/x.html">Hi <b>there</b></a></div>"#);
    let t = extract_fields(&doc, &vec![field("a", "text")], None, "https://e.com/", &vec![], &density);
    assert_eq!(t, vec!["Hi there"]);
    let h = extract_fields(&doc, &vec![field("a", "@href")], None, "https://e.com/", &vec![], &density);
    assert_eq!(h, vec!["https://e.com/x.html"]);
}

#[test]
fn get_attr_prefix_disambiguates() {
    let (k, is_attr) = parse_get("@src");
    assert_eq!((k, is_attr), ("src", true));
    let (k, is_attr) = parse_get("text");
    assert_eq!((k, is_attr), ("text", false));
}

#[test]
fn regex_purifies_field() {
    let doc = Document::parse(r#"<span class="p">Price $1,299.00</span>"#);
    let mut f = field(".p", "text");
    f.regex = Some(r"[^0-9.]".into());
    f.replace = Some("".into());
    assert_eq!(extract_fields(&doc, &vec![f], None, "https://e.com/", &vec![], &density), vec!["1299.00"]);
}

#[test]
fn data_column_relative_to_row() {
    let doc = Document::parse(r#"<ul><li class="r"><a href="/p1">One</a></li><li class="r"><a href="/p2">Two</a></li></ul>"#);
    let sel = Css::parse("li.r").unwrap();
    let name_col = Column { name: "name".into(), selector: Some("a".into()), get: "text".into(), regex: None, replace: None };
    let url_col = Column { name: "url".into(), selector: Some("a".into()), get: "@href".into(), regex: None, replace: None };
    let rows: Vec<Vec<String>> = select(&doc, &sel)
        .into_iter()
        .map(|r| vec![extract_column(&doc, r, &name_col, "https://e.com/", &density), extract_column(&doc, r, &url_col, "https://e.com/", &density)])
        .collect();
    assert_eq!(rows, vec![vec!["One".to_string(), "https://e.com/p1".into()], vec!["Two".into(), "https://e.com/p2".into()]]);
}
