use snatch::config::{
    enabled_sources, source_files, Chapters, Column, DataRules, Field, ImageDetail, ImageRules, Sections, Source,
    TextRules,
};
use snatch::crawler::{
    extract_combined, doc_get, doc_text, el_get, el_text, format_section, finish_text, join_strings, preprocess_text_html, purify,
    scoped, strip_noise, Extracted,
};
use snatch::extract::{
    chapter_part, chapter_toc, crawl_mode, detail_images, finish_chapters, finish_images, image_page, keep_page_title, links, DataCrawl,
    Mode, TextCrawl,
};
use snatch::html::{select, Css, Document};
use snatch::order::{lex_less, sort_dedup};

fn density(d: &str) -> u64 {
    (d.parse::<f64>().unwrap_or(1.0) * 1000.0) as u64
}

fn s(x: &str) -> String {
    x.to_string()
}

fn strings(v: &[&str]) -> Vec<String> {
    v.iter().map(|x| x.to_string()).collect()
}

fn field(selector: &str, get: &str) -> Field {
    Field { selector: s(selector), get: s(get), regex: None, replace: None, engine: None }
}

fn text_rules() -> TextRules {
    TextRules {
        title: None,
        author: None,
        date: None,
        content: None,
        get: None,
        sections: None,
        chapters: None,
        convert: None,
        strip: vec![],
    }
}

fn source(kind: &str) -> Source {
    Source {
        name: s("S"),
        kind: s(kind),
        domains: vec![s("e.com")],
        match_: None,
        enabled: true,
        format: None,
        headers: vec![],
        output: None,
        delay_ms: None,
        pagination: None,
        data: None,
        text: None,
        image: None,
    }
}

fn text_of(r: Result<(String, Extracted), String>) -> (String, String) {
    match r {
        Ok((t, Extracted::Text(body))) => (t, body),
        Ok(_) => panic!("a text result"),
        Err(e) => panic!("unexpected error {}", e),
    }
}

#[test]
fn crawl_mode_by_type_and_rules() {
    assert!(crawl_mode(&source("data")) == Err(s("data source missing [data]")));
    assert!(crawl_mode(&source("text")) == Err(s("text source missing [text]")));
    assert!(crawl_mode(&source("image")) == Err(s("image source missing [image]")));
    assert!(crawl_mode(&source("video")) == Err(s("unknown source type 'video'")));
    let mut d = source("data");
    d.data = Some(DataRules { container: None, row: s("li"), columns: vec![] });
    assert!(crawl_mode(&d) == Ok(Mode::Data));
    let mut t = source("text");
    t.text = Some(text_rules());
    assert!(crawl_mode(&t) == Ok(Mode::Text));
    let mut rules = text_rules();
    rules.chapters = Some(Chapters { links: s("a"), title: None, content: s("#c"), get: None });
    t.text = Some(rules);
    assert!(crawl_mode(&t) == Ok(Mode::Chapters));
}

#[test]
fn source_output_defaults_by_type() {
    assert_eq!(source("data").output(), "csv");
    assert_eq!(source("text").output(), "txt");
    assert_eq!(source("image").output(), "files");
    let mut x = source("image");
    x.output = Some(s("csv"));
    assert_eq!(x.output(), "csv");
}

#[test]
fn source_files_filters_and_sorts() {
    let names = strings(&["b.toml", "a.toml", "notes.txt", ".toml", "c.TOML", "x.toml.bak", "a.toml"]);
    assert_eq!(source_files(names), strings(&["a.toml", "b.toml"]));
}

#[test]
fn enabled_sources_keep_order() {
    let mut a = source("data");
    a.name = s("a");
    let mut b = source("data");
    b.name = s("b");
    b.enabled = false;
    let mut c = source("data");
    c.name = s("c");
    let kept: Vec<String> = enabled_sources(vec![a, b, c]).into_iter().map(|x| x.name).collect();
    assert_eq!(kept, strings(&["a", "c"]));
}

#[test]
fn scoped_and_purify() {
    assert_eq!(scoped(Some(&s("#main")), "img"), "#main img");
    assert_eq!(scoped(None, "img"), "img");
    assert_eq!(purify(s("a1b22"), Some(&s(r"\d+")), "#"), "a#b#");
    assert_eq!(purify(s("a1b22"), Some(&s("(")), "#"), "a1b22");
    assert_eq!(purify(s("a1b22"), None, "#"), "a1b22");
}

#[test]
fn getters_over_document_and_elements() {
    let doc = Document::parse(
        r#"<div class="p"><h2> T1 </h2><a href="/a" data-x="data:abc" srcset="s1.jpg 1x, s2.jpg 2x">L</a></div><p>  </p>"#,
    );
    assert_eq!(doc_text(&doc, Some(&s("h2"))), Some(s("T1")));
    assert_eq!(doc_text(&doc, Some(&s("p"))), None);
    assert_eq!(doc_text(&doc, None), None);
    assert_eq!(doc_text(&doc, Some(&s("(("))), None);
    assert_eq!(doc_get(&doc, "a", "@href", "https://e.com/x/", &density), Some(s("https://e.com/a")));
    assert_eq!(doc_get(&doc, "a", "@data-x", "https://e.com/", &density), None);
    assert_eq!(doc_get(&doc, "a", "@missing", "https://e.com/", &density), None);
    assert_eq!(doc_get(&doc, "a", "@srcset", "https://e.com/", &density), Some(s("https://e.com/s2.jpg")));
    assert_eq!(doc_get(&doc, "div.p", "innerHtml", "https://e.com/", &density).map(|h| h.starts_with("<h2>")), Some(true));
    assert_eq!(doc_get(&doc, "a", "outerHtml", "https://e.com/", &density).map(|h| h.starts_with("<a ")), Some(true));
    assert_eq!(doc_get(&doc, "a", "bogus", "https://e.com/", &density), None);
    let div = select(&doc, &Css::parse("div.p").unwrap())[0];
    assert_eq!(el_text(&doc, div, "h2"), Some(s("T1")));
    assert_eq!(el_text(&doc, div, "span"), None);
    assert_eq!(el_get(&doc, div, "a", "text", "https://e.com/", &density), Some(s("L")));
}

#[test]
fn own_text_skips_child_elements() {
    let doc = Document::parse(r#"<p class="x">a <b>b</b> c</p>"#);
    assert_eq!(doc_get(&doc, "p.x", "ownText", "https://e.com/", &density), Some(s("a  c")));
}

#[test]
fn preprocess_turns_breaks_into_newlines_and_drops_blocks() {
    let h = "<p>a</p><p>b</p><br>c<br/>d<br />e<style>x{}</style><script>var s;</script>f";
    assert_eq!(preprocess_text_html(h), "<p>a\n\nb</p>\nc\nd\nef");
    assert_eq!(strip_noise("<b>k</b><script type=\"t\">\n1\n</script><style>\n</style>z"), "<b>k</b>z");
}

#[test]
fn format_section_heads_with_title_and_date() {
    assert_eq!(format_section(Some(s(" T ")), Some(s(" 2024 ")), "body"), "【T  2024】\nbody");
    assert_eq!(format_section(None, Some(s("d")), "body"), "【d】\nbody");
    assert_eq!(format_section(Some(s("  ")), None, "body"), "body");
    assert_eq!(format_section(None, None, "body"), "body");
}

#[test]
fn finish_text_headers_strip_and_convert() {
    let mut t = text_rules();
    t.strip = strings(&["AD"]);
    let (title, body) = text_of(finish_text(s("T"), s("A"), s(""), &strings(&["one AD", "two"]), &t, "\n\n"));
    assert_eq!(title, "T");
    assert_eq!(body, "T\nA\n\none \n\ntwo");
    t.convert = Some(s("simplify"));
    let (title, body) = text_of(finish_text(s("漢字"), s(""), s("D"), &strings(&["體育"]), &t, "\n"));
    assert_eq!(title, "汉字");
    assert_eq!(body, "汉字\nD\n\n体育");
    assert!(finish_text(s("T"), s(""), s(""), &strings(&["AD", " "]), &t, "").err() == Some(s("nothing extracted")));
    assert!(finish_text(s("T"), s(""), s(""), &vec![], &text_rules(), "\n").err() == Some(s("nothing extracted")));
}

#[test]
fn join_strings_puts_separator_between() {
    assert_eq!(join_strings(&strings(&["a", "b", "c"]), ", ").into_iter().collect::<String>(), "a, b, c");
    assert!(join_strings(&vec![], ",").is_empty());
}

#[test]
fn data_crawl_collects_rows_over_pages() {
    let data = DataRules {
        container: Some(s("ul")),
        row: s("li"),
        columns: vec![
            Column { name: s("name"), selector: Some(s("a")), get: s("text"), regex: None, replace: None },
            Column { name: s("url"), selector: Some(s("a")), get: s("@href"), regex: None, replace: None },
            Column { name: s("id"), selector: None, get: s("@id"), regex: Some(s(r"^https://e\.com/(d/)?r")), replace: Some(s("#")) },
        ],
    };
    let p1 = Document::parse(r#"<title>List / 1</title><ul><li id="r1"><a href="/p1">One</a></li></ul><li><a>x</a></li>"#);
    let p2 = Document::parse(r#"<title>Other</title><ul><li id="r2"><a href="p2">Two</a></li><li><b>none</b></li></ul>"#);
    let mut c = DataCrawl::new();
    assert_eq!(c.on_page(&p1, &data, "https://e.com/", &density), 1);
    assert_eq!(c.on_page(&p2, &data, "https://e.com/d/", &density), 2);
    match c.finish(&data, "DLL/Files") {
        Ok((t, Extracted::Data { headers, rows })) => {
            assert_eq!(t, "DLL_Files");
            assert_eq!(headers, strings(&["name", "url", "id"]));
            assert_eq!(
                rows,
                vec![
                    strings(&["One", "https://e.com/p1", "#1"]),
                    strings(&["Two", "https://e.com/d/p2", "#2"]),
                    strings(&["", "", ""]),
                ]
            );
        }
        _ => panic!("rows were found"),
    }
    assert!(DataCrawl::new().finish(&data, "S").err() == Some(s("nothing extracted")));
}

#[test]
fn image_pages_direct_and_detail() {
    let listing = Document::parse(
        r#"<div id="g"><img src="/b.png"><img src="data:x"><img class="ad" src="/ad.png"><a class="d" href="/d2">2</a><a class="d" href="/d1">1</a><a class="d" href="/d2">2</a></div><img src="/out.png">"#,
    );
    let mut img = ImageRules {
        container: Some(s("#g")),
        images: vec![field("img", "@src")],
        exclude: strings(&[".ad"]),
        detail: None,
        combine: None,
    };
    let p = image_page(&listing, &img, "https://e.com/", &density);
    assert_eq!(p.direct, strings(&["https://e.com/b.png"]));
    assert!(p.details.is_empty());
    let detail = ImageDetail { link: s("a.d"), container: None, images: vec![field("img", "@src")], exclude: vec![], combine: None };
    img.detail = Some(detail.clone());
    let p = image_page(&listing, &img, "https://e.com/", &density);
    assert!(p.direct.is_empty());
    assert_eq!(p.details, strings(&["https://e.com/d1", "https://e.com/d2"]));
    let dpage = Document::parse(r#"<div id="g"><img src="x1.jpg"></div><img src="x2.jpg">"#);
    assert_eq!(detail_images(&dpage, &img, &detail, "https://e.com/d1/", &density), strings(&["https://e.com/d1/x1.jpg"]));
    match finish_images(s("T"), strings(&["b", "a", "b"])) {
        Ok((t, Extracted::Images(v))) => {
            assert_eq!(t, "T");
            assert_eq!(v, strings(&["a", "b"]));
        }
        _ => panic!("images were found"),
    }
    assert!(finish_images(s("T"), vec![]).err() == Some(s("nothing extracted")));
}

#[test]
fn links_resolve_and_skip_missing_hrefs() {
    let doc = Document::parse(r#"<a href="/x">x</a><a>no</a><a href="y">y</a>"#);
    assert_eq!(links(&doc, "a", "https://e.com/d/"), strings(&["https://e.com/x", "https://e.com/d/y"]));
    assert!(links(&doc, "((", "https://e.com/").is_empty());
}

#[test]
fn text_crawl_single_and_sections() {
    let mut t = text_rules();
    t.title = Some(s("h1"));
    t.author = Some(s(".by"));
    t.content = Some(s("#c"));
    let mut c = TextCrawl::new();
    c.on_page(r#"<h1>Story</h1><span class="by">Ann</span><div id="c">Part<br>one</div>"#, &t, "https://e.com/1", &density);
    c.on_page(r#"<h1>Ignored</h1><div id="c">  </div>"#, &t, "https://e.com/2", &density);
    c.on_page(r#"<div id="c">two</div>"#, &t, "https://e.com/3", &density);
    assert_eq!((c.title.as_str(), c.author.as_str(), c.date.as_str()), ("Story", "Ann", ""));
    assert_eq!(c.parts, strings(&["Part\none", "two"]));
    let (title, body) = text_of(c.finish(&t));
    assert_eq!(title, "Story");
    assert_eq!(body, "Story\nAnn\n\nPart\none\n\ntwo");

    let mut t = text_rules();
    t.sections = Some(Sections { each: s(".post"), title: Some(s(".t")), date: None, content: s(".b"), get: None });
    let mut c = TextCrawl::new();
    c.on_page(
        r#"<title>Thread</title><div class="post"><i class="t">P1</i><p class="b">hi</p></div><div class="post"><p class="b"> </p></div><div class="post"><p class="b">yo</p></div>"#,
        &t,
        "https://e.com/",
        &density,
    );
    let (title, body) = text_of(c.finish(&t));
    assert_eq!(title, "Thread");
    assert_eq!(body, "Thread\n\n【P1】\nhi\n\n----------\n\nyo");
}

#[test]
fn chapters_toc_parts_and_finish() {
    let t = text_rules();
    let ch = Chapters { links: s(".toc a"), title: Some(s("h2")), content: s("#c"), get: None };
    match chapter_toc(r#"<title>Book</title><div class="toc"><a href="c1">1</a><a href="/c2">2</a></div>"#, &t, &ch, "https://e.com/b/") {
        Ok((title, ls)) => {
            assert_eq!(title, "Book");
            assert_eq!(ls, strings(&["https://e.com/b/c1", "https://e.com/c2"]));
        }
        Err(e) => panic!("{}", e),
    }
    assert!(chapter_toc("<title>Book</title>", &t, &ch, "https://e.com/").err() == Some(s("no chapters found")));
    assert_eq!(chapter_part(r#"<h2>One</h2><div id="c">first<br>line</div>"#, &ch, "https://e.com/c1", &density), Some(s("One\n\nfirst\nline")));
    assert_eq!(chapter_part(r#"<div id="c">plain</div>"#, &ch, "https://e.com/c1", &density), Some(s("plain")));
    assert_eq!(chapter_part(r#"<h2>T</h2><div id="c"> </div>"#, &ch, "https://e.com/c1", &density), None);
    let (title, body) = text_of(finish_chapters(s("Book"), &strings(&["a", "b"]), &t));
    assert_eq!(title, "Book");
    assert_eq!(body, "Book\n\na\n\n\nb");
}

#[test]
fn sort_dedup_and_order() {
    assert_eq!(sort_dedup(strings(&["b", "a", "ab", "b", ""])), strings(&["", "a", "ab", "b"]));
    assert!(lex_less(&"ab".chars().collect(), &"b".chars().collect()));
    assert!(lex_less(&"a".chars().collect(), &"ab".chars().collect()));
    assert!(!lex_less(&"a".chars().collect(), &"a".chars().collect()));
}

#[test]
fn image_title_is_kept_from_the_first_page() {
    let first = keep_page_title(String::new(), &Document::parse("<title>Gallery: one</title>"));
    assert_eq!(first, "Gallery_ one");
    let again = keep_page_title(first, &Document::parse("<title>Other</title>"));
    assert_eq!(again, "Gallery_ one");
    assert_eq!(keep_page_title(String::new(), &Document::parse("<p>x</p>")), "untitled");
}

#[test]
fn data_title_is_the_source_name() {
    let data = DataRules {
        container: None,
        row: s("a"),
        columns: vec![Column { name: s("name"), selector: None, get: s("text"), regex: None, replace: None }],
    };
    let page = Document::parse("<title>Index A</title><a href='/x.dll.html'>x</a>");
    let mut c = DataCrawl::new();
    c.on_page(&page, &data, "https://e.com/", &density);
    match c.finish(&data, "DLL-Files") {
        Ok((t, Extracted::Data { headers, rows })) => {
            assert_eq!(t, "DLL-Files");
            assert_eq!(headers, strings(&["name"]));
            assert_eq!(rows, vec![strings(&["x"])]);
        }
        _ => panic!("a row was found"),
    }
}

#[test]
fn combine_first_falls_back_between_fields() {
    let page = Document::parse("<title>G</title><img data-src='/a.jpg' src='/p.gif'><img src='/q.gif'>");
    let fields = vec![field("img", "@data-src"), field("img", "@src")];
    let first = s("first");
    let merge = s("merge");
    assert_eq!(extract_combined(&page, &fields, None, "https://e.com/g", &vec![], Some(&first), &density), strings(&["https://e.com/a.jpg"]));
    assert_eq!(
        extract_combined(&page, &fields, None, "https://e.com/g", &vec![], Some(&merge), &density),
        strings(&["https://e.com/a.jpg", "https://e.com/p.gif", "https://e.com/q.gif"])
    );
    assert_eq!(extract_combined(&page, &fields, None, "https://e.com/g", &vec![], None, &density).len(), 3);
    let fallback = vec![field("img", "@data-lazy"), field("img", "@src")];
    assert_eq!(
        extract_combined(&page, &fallback, None, "https://e.com/g", &vec![], Some(&first), &density),
        strings(&["https://e.com/p.gif", "https://e.com/q.gif"])
    );
    assert!(extract_combined(&page, &vec![field("img", "@nope")], None, "https://e.com/g", &vec![], Some(&first), &density).is_empty());
    let img = ImageRules { container: None, images: fields.clone(), exclude: vec![], detail: None, combine: Some(first.clone()) };
    let p = image_page(&page, &img, "https://e.com/g", &density);
    assert_eq!(p.direct, strings(&["https://e.com/a.jpg"]));
    match finish_images(keep_page_title(String::new(), &page), p.direct) {
        Ok((t, Extracted::Images(v))) => {
            assert_eq!(t, "G");
            assert_eq!(v, strings(&["https://e.com/a.jpg"]));
        }
        _ => panic!("an image was found"),
    }
    let detail = ImageDetail { link: s("a"), container: None, images: fields, exclude: vec![], combine: Some(first) };
    assert_eq!(detail_images(&page, &img, &detail, "https://e.com/g", &density), strings(&["https://e.com/a.jpg"]));
}
