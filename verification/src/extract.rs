//! The extractors of the three source types, as steps over fetched pages: the caller
//! fetches each page (or reports it missing) and hands its HTML to a step; the steps
//! accumulate the result and a final step builds the `Extracted` payload.
use vstd::prelude::*;

use crate::config::{Chapters, Column, DataRules, ImageDetail, ImageRules, Sections, Source, TextRules};
use crate::crawler::{
    Extracted, column_spec, combined_values, extract_combined, doc_get, doc_get_spec, doc_text, doc_text_spec, el_get, el_get_spec,
    el_text, el_text_spec, extract_column, finish_spec, finish_text,
    format_section, is_text_result, preprocess_spec, preprocess_text_html, scoped, scoped_spec,
    section_spec, str_views, text_result_view,
};
use crate::html::{self, Css, Document, css_parses, doc_select, elem_attr};
use crate::order::{sort_dedup, strictly_sorted, strs};
use crate::text::{chars_of, extend_chars, opt_view, str_equal, string_of, trim, trim_str};
use crate::util::{
    density_of, density_ok, extract_title, resolve_spec, resolve_url, sanitize_filename,
    sanitize_spec, title_spec,
};

verus! {

/// How a source is extracted.
#[derive(PartialEq, Eq, Structural)]
pub enum Mode {
    Data,
    Text,
    Chapters,
    Image,
}

/// The mode of a source by its type and rules, or why it cannot be crawled.
pub open spec fn mode_spec(source: Source) -> Result<Mode, Seq<char>> {
    if source.kind@ == "data"@ {
        if source.data is Some {
            Ok(Mode::Data)
        } else {
            Err("data source missing [data]"@)
        }
    } else if source.kind@ == "text"@ {
        match source.text {
            Some(t) => if t.chapters is Some {
                Ok(Mode::Chapters)
            } else {
                Ok(Mode::Text)
            },
            None => Err("text source missing [text]"@),
        }
    } else if source.kind@ == "image"@ {
        if source.image is Some {
            Ok(Mode::Image)
        } else {
            Err("image source missing [image]"@)
        }
    } else {
        Err("unknown source type '"@ + source.kind@ + "'"@)
    }
}

/// Decides how `source` is crawled (see `mode_spec`).
pub fn crawl_mode(source: &Source) -> (r: Result<Mode, String>)
    ensures
        match r {
            Ok(m) => mode_spec(*source) == Ok::<Mode, Seq<char>>(m),
            Err(e) => mode_spec(*source) == Err::<Mode, Seq<char>>(e@),
        },
{
    if str_equal(source.kind.as_str(), "data") {
        if source.data.is_some() {
            Ok(Mode::Data)
        } else {
            Err(String::from_str("data source missing [data]"))
        }
    } else if str_equal(source.kind.as_str(), "text") {
        match &source.text {
            Some(t) => if t.chapters.is_some() {
                Ok(Mode::Chapters)
            } else {
                Ok(Mode::Text)
            },
            None => Err(String::from_str("text source missing [text]")),
        }
    } else if str_equal(source.kind.as_str(), "image") {
        if source.image.is_some() {
            Ok(Mode::Image)
        } else {
            Err(String::from_str("image source missing [image]"))
        }
    } else {
        let mut m = String::from_str("unknown source type '");
        m.append(source.kind.as_str());
        m.append("'");
        Err(m)
    }
}

/// The views of a list of rows.
pub open spec fn rows_view(v: Seq<Vec<String>>) -> Seq<Seq<Seq<char>>> {
    v.map_values(|r: Vec<String>| str_views(r@))
}

/// The column values of one row element.
pub open spec fn row_spec(
    html: Seq<char>,
    row: usize,
    columns: Seq<Column>,
    base: Seq<char>,
    dens: spec_fn(Seq<char>) -> u64,
) -> Seq<Seq<char>> {
    columns.map_values(|c: Column| column_spec(html, row, c, base, dens))
}

/// The rows of a data page: one per element that the row selector (scoped to the container)
/// selects, in page order; none when the selector does not parse.
pub open spec fn rows_spec(
    html: Seq<char>,
    data: DataRules,
    base: Seq<char>,
    dens: spec_fn(Seq<char>) -> u64,
) -> Seq<Seq<Seq<char>>> {
    let sel = scoped_spec(opt_view(data.container), data.row@);
    if css_parses(sel) {
        doc_select(html, sel).map_values(|r: usize| row_spec(html, r, data.columns@, base, dens))
    } else {
        Seq::empty()
    }
}

/// The first non-empty title wins: `cur`, else the sanitized title that `page` offers.
pub open spec fn keep_title(cur: Seq<char>, page: Seq<char>) -> Seq<char> {
    if cur.len() == 0 {
        sanitize_spec(page)
    } else {
        cur
    }
}

/// A data crawl in progress: the rows so far. (A data result is named after its source, not
/// after the pages it came from.)
pub struct DataCrawl {
    pub rows: Vec<Vec<String>>,
}

fn row_values<D: Fn(&str) -> u64>(
    doc: &Document,
    row: usize,
    columns: &Vec<Column>,
    base: &str,
    density: &D,
) -> (r: Vec<String>)
    requires
        density_ok(*density),
    ensures
        str_views(r@) == row_spec(doc@, row, columns@, base@, |t: Seq<char>| density_of(*density, t)),
{
    let ghost dens = |t: Seq<char>| density_of(*density, t);
    let mut out: Vec<String> = Vec::new();
    for j in 0..columns.len()
        invariant
            density_ok(*density),
            dens == (|t: Seq<char>| density_of(*density, t)),
            str_views(out@) == row_spec(doc@, row, columns@.take(j as int), base@, dens),
    {
        let ghost before = out@;
        let v = extract_column(doc, row, &columns[j], base, density);
        out.push(v);
        assert(out@ =~= before.push(v));
        assert(str_views(out@) =~= str_views(before).push(v@));
        assert(columns@.take(j + 1) =~= columns@.take(j as int).push(columns@[j as int]));
        assert(str_views(out@) =~= row_spec(doc@, row, columns@.take(j + 1), base@, dens));
    }
    assert(columns@.take(columns@.len() as int) =~= columns@);
    out
}

impl DataCrawl {
    /// A data crawl before any page.
    pub fn new() -> (r: DataCrawl)
        ensures
            r.rows@.len() == 0,
    {
        DataCrawl { rows: Vec::new() }
    }

    /// Takes in one fetched page (at `page_url`): its rows.
    /// Returns the number of rows the page gave.
    pub fn on_page<D: Fn(&str) -> u64>(
        &mut self,
        doc: &Document,
        data: &DataRules,
        page_url: &str,
        density: &D,
    ) -> (n: usize)
        requires
            density_ok(*density),
        ensures
            rows_view(final(self).rows@) == rows_view(old(self).rows@) + rows_spec(
                doc@,
                *data,
                page_url@,
                |t: Seq<char>| density_of(*density, t),
            ),
            n == rows_spec(doc@, *data, page_url@, |t: Seq<char>| density_of(*density, t)).len(),
    {
        let ghost dens = |t: Seq<char>| density_of(*density, t);
        let sel = scoped(data.container.as_ref(), data.row.as_str());
        assert(sel@ == scoped_spec(opt_view(data.container), data.row@));
        let css = match Css::parse(sel.as_str()) {
            Some(c) => c,
            None => {
                assert(rows_view(self.rows@) =~= rows_view(self.rows@) + Seq::<Seq<Seq<char>>>::empty());
                return 0;
            },
        };
        let found = html::select(doc, &css);
        let ghost start = rows_view(self.rows@);
        let ghost expect = found@.map_values(|r: usize| row_spec(doc@, r, data.columns@, page_url@, dens));
        for k in 0..found.len()
            invariant
                density_ok(*density),
                dens == (|t: Seq<char>| density_of(*density, t)),
                expect == found@.map_values(|r: usize| row_spec(doc@, r, data.columns@, page_url@, dens)),
                rows_view(self.rows@) == start + expect.take(k as int),
        {
            let ghost before = self.rows@;
            let row = row_values(doc, found[k], &data.columns, page_url, density);
            self.rows.push(row);
            assert(rows_view(self.rows@) =~= rows_view(before).push(str_views(row@)));
            assert(expect.take(k + 1) =~= expect.take(k as int).push(expect[k as int]));
        }
        assert(expect.take(found@.len() as int) =~= expect);
        found.len()
    }

    /// The result: `nothing extracted` without rows, else the title (the source's `name`,
    /// sanitized), the column names and the rows.
    pub fn finish(self, data: &DataRules, name: &str) -> (r: Result<(String, Extracted), String>)
        ensures
            match r {
                Ok((t, Extracted::Data { headers, rows })) => self.rows@.len() > 0 && t@ == sanitize_spec(name@)
                    && str_views(headers@) == data.columns@.map_values(|c: Column| c.name@)
                    && rows == self.rows,
                Ok(_) => false,
                Err(e) => self.rows@.len() == 0 && e@ == "nothing extracted"@,
            },
    {
        if self.rows.len() == 0 {
            return Err(String::from_str("nothing extracted"));
        }
        let mut headers: Vec<String> = Vec::new();
        for j in 0..data.columns.len()
            invariant
                str_views(headers@) == data.columns@.take(j as int).map_values(|c: Column| c.name@),
        {
            let ghost before = headers@;
            let nm = data.columns[j].name.clone();
            headers.push(nm);
            assert(headers@ =~= before.push(nm));
            assert(data.columns@.take(j + 1) =~= data.columns@.take(j as int).push(data.columns@[j as int]));
            assert(str_views(headers@) =~= str_views(before).push(nm@));
            assert(nm@ == data.columns@[j as int].name@);
            assert(data.columns@.take(j + 1).map_values(|c: Column| c.name@) =~= data.columns@.take(j as int).map_values(|c: Column| c.name@).push(data.columns@[j as int].name@));
            assert(str_views(headers@) =~= data.columns@.take(j + 1).map_values(|c: Column| c.name@));
        }
        assert(data.columns@.take(data.columns@.len() as int) =~= data.columns@);
        Ok((sanitize_filename(name), Extracted::Data { headers, rows: self.rows }))
    }
}

/// The resolved, non-empty `href`s of the elements `elems`, in order.
pub open spec fn hrefs_spec(html: Seq<char>, elems: Seq<usize>, base: Seq<char>) -> Seq<Seq<char>>
    decreases elems.len(),
{
    if elems.len() == 0 {
        Seq::empty()
    } else {
        let prev = hrefs_spec(html, elems.drop_last(), base);
        match elem_attr(html, elems.last(), "href"@) {
            Some(h) => {
                let u = resolve_spec(h, base);
                if u.len() > 0 {
                    prev.push(u)
                } else {
                    prev
                }
            },
            None => prev,
        }
    }
}

/// The resolved, non-empty `href`s of the elements that `selector` selects (none when it
/// does not parse).
pub open spec fn links_spec(html: Seq<char>, selector: Seq<char>, base: Seq<char>) -> Seq<Seq<char>> {
    if css_parses(selector) {
        hrefs_spec(html, doc_select(html, selector), base)
    } else {
        Seq::empty()
    }
}

/// The resolved, non-empty `href`s of the elements that `selector` selects, in page order.
pub fn links(doc: &Document, selector: &str, base: &str) -> (r: Vec<String>)
    ensures
        str_views(r@) == links_spec(doc@, selector@, base@),
{
    let css = match Css::parse(selector) {
        Some(c) => c,
        None => {
            let e: Vec<String> = Vec::new();
            assert(str_views(e@) =~= Seq::<Seq<char>>::empty());
            return e;
        },
    };
    let elems = html::select(doc, &css);
    let mut out: Vec<String> = Vec::new();
    for k in 0..elems.len()
        invariant
            str_views(out@) == hrefs_spec(doc@, elems@.take(k as int), base@),
    {
        assert(elems@.take(k + 1).drop_last() =~= elems@.take(k as int));
        match html::attr(doc, elems[k], "href") {
            Some(h) => {
                let u = resolve_url(h.as_str(), base);
                if u.unicode_len() > 0 {
                    let ghost before = out@;
                    out.push(u);
                    assert(str_views(out@) =~= str_views(before).push(u@));
                }
            },
            None => {},
        }
    }
    assert(elems@.take(elems@.len() as int) =~= elems@);
    out
}

/// What an image listing page gives: the images found on it directly, and the detail
/// pages still to visit.
pub struct ImagePage {
    pub direct: Vec<String>,
    pub details: Vec<String>,
}

/// Takes in one fetched listing page of an image source. With detail pages configured, the
/// page gives the detail links (sorted, without duplicates) and no images; otherwise it gives
/// the images of its fields, combined as the rules' `combine` says (`first`: the first field
/// that yields images; otherwise all of them).
pub fn image_page<D: Fn(&str) -> u64>(doc: &Document, img: &ImageRules, page_url: &str, density: &D) -> (r: ImagePage)
    requires
        density_ok(*density),
    ensures
        match img.detail {
            Some(d) => r.direct@.len() == 0 && strictly_sorted(strs(r.details@)) && strs(r.details@).to_set()
                == links_spec(doc@, scoped_spec(opt_view(img.container), d.link@), page_url@).to_set(),
            None => r.details@.len() == 0 && str_views(r.direct@) == combined_values(
                doc@,
                img.images@,
                opt_view(img.container),
                page_url@,
                str_views(img.exclude@),
                opt_view(img.combine),
                |t: Seq<char>| density_of(*density, t),
            ),
        },
{
    match &img.detail {
        Some(d) => {
            let sel = scoped(img.container.as_ref(), d.link.as_str());
            assert(sel@ == scoped_spec(opt_view(img.container), d.link@));
            let found = links(doc, sel.as_str(), page_url);
            assert(str_views(found@) == strs(found@));
            ImagePage { direct: Vec::new(), details: sort_dedup(found) }
        },
        None => {
            let cont = img.container.as_ref();
            assert(opt_view(img.container) == (match cont {
                Some(c) => Some(c@),
                None => None,
            }));
            let comb = img.combine.as_ref();
            assert(opt_view(img.combine) == (match comb {
                Some(c) => Some(c@),
                None => None,
            }));
            let direct = extract_combined(doc, &img.images, cont, page_url, &img.exclude, comb, density);
            ImagePage { direct, details: Vec::new() }
        },
    }
}

/// The container that applies on detail pages: the detail's own, else the listing's.
pub open spec fn detail_container(img: ImageRules, d: ImageDetail) -> Option<Seq<char>> {
    match d.container {
        Some(c) => Some(c@),
        None => opt_view(img.container),
    }
}

/// The images of one fetched detail page (at `url`), combined as the detail's `combine` says.
pub fn detail_images<D: Fn(&str) -> u64>(
    doc: &Document,
    img: &ImageRules,
    d: &ImageDetail,
    url: &str,
    density: &D,
) -> (r: Vec<String>)
    requires
        density_ok(*density),
    ensures
        str_views(r@) == combined_values(
            doc@,
            d.images@,
            detail_container(*img, *d),
            url@,
            str_views(d.exclude@),
            opt_view(d.combine),
            |t: Seq<char>| density_of(*density, t),
        ),
{
    let cont = match &d.container {
        Some(c) => Some(c),
        None => img.container.as_ref(),
    };
    let comb = d.combine.as_ref();
    assert(opt_view(d.combine) == (match comb {
        Some(c) => Some(c@),
        None => None,
    }));
    extract_combined(doc, &d.images, cont, url, &d.exclude, comb, density)
}

/// The result of an image crawl: the images sorted without duplicates, or
/// `nothing extracted` when there are none.
pub fn finish_images(title: String, images: Vec<String>) -> (r: Result<(String, Extracted), String>)
    ensures
        match r {
            Ok((t, Extracted::Images(v))) => t == title && images@.len() > 0 && strictly_sorted(strs(v@))
                && strs(v@).to_set() == strs(images@).to_set(),
            Ok(_) => false,
            Err(e) => images@.len() == 0 && e@ == "nothing extracted"@,
        },
{
    let n = images.len();
    let sorted = sort_dedup(images);
    if n == 0 {
        return Err(String::from_str("nothing extracted"));
    }
    proof {
        if sorted@.len() == 0 {
            assert(strs(images@).contains(strs(images@)[0]));
            assert(strs(sorted@).to_set().contains(strs(images@)[0]));
        }
    }
    Ok((title, Extracted::Images(sorted)))
}

} // verus!

verus! {

/// The `get` of a text rule: as given, else `text`.
pub open spec fn get_or_text(g: Option<Seq<char>>) -> Seq<char> {
    match g {
        Some(x) => x,
        None => "text"@,
    }
}

/// The trimmed text of the first match of an optional selector below `el`.
pub open spec fn sub_text(html: Seq<char>, el: usize, selector: Option<Seq<char>>) -> Option<Seq<char>> {
    match selector {
        Some(s) => el_text_spec(html, el, s),
        None => None,
    }
}

/// The sections among the elements `elems`: each element's body (its `content` via `get`,
/// trimmed) with its optional title and date; elements with an empty body are skipped.
pub open spec fn sections_parts(
    html: Seq<char>,
    elems: Seq<usize>,
    sec: Sections,
    base: Seq<char>,
    dens: spec_fn(Seq<char>) -> u64,
) -> Seq<Seq<char>>
    decreases elems.len(),
{
    if elems.len() == 0 {
        Seq::empty()
    } else {
        let prev = sections_parts(html, elems.drop_last(), sec, base, dens);
        let el = elems.last();
        let body = match el_get_spec(html, el, sec.content@, get_or_text(opt_view(sec.get)), base, dens) {
            Some(b) => b,
            None => Seq::empty(),
        };
        if trim(body).len() == 0 {
            prev
        } else {
            prev.push(
                section_spec(
                    sub_text(html, el, opt_view(sec.title)),
                    sub_text(html, el, opt_view(sec.date)),
                    trim(body),
                ),
            )
        }
    }
}

/// The parts of one text page: its sections when the rules have sections (none when the
/// `each` selector does not parse), else its non-empty content (trimmed), if any.
pub open spec fn text_page_parts(
    html: Seq<char>,
    t: TextRules,
    base: Seq<char>,
    dens: spec_fn(Seq<char>) -> u64,
) -> Seq<Seq<char>> {
    match t.sections {
        Some(sec) => if css_parses(sec.each@) {
            sections_parts(html, doc_select(html, sec.each@), sec, base, dens)
        } else {
            Seq::empty()
        },
        None => match t.content {
            Some(c) => match doc_get_spec(html, c@, get_or_text(opt_view(t.get)), base, dens) {
                Some(b) => if trim(b).len() > 0 {
                    seq![trim(b)]
                } else {
                    Seq::empty()
                },
                None => Seq::empty(),
            },
            None => Seq::empty(),
        },
    }
}

/// The title a text page offers: the rule's title selector, else the document title.
pub open spec fn page_title(html: Seq<char>, selector: Option<Seq<char>>) -> Seq<char> {
    match doc_text_spec(html, selector) {
        Some(x) => x,
        None => title_spec(html),
    }
}

/// The first metadata value found wins.
pub open spec fn keep_meta(cur: Seq<char>, page: Option<Seq<char>>) -> Seq<char> {
    if cur.len() == 0 {
        match page {
            Some(x) => x,
            None => cur,
        }
    } else {
        cur
    }
}

/// A text crawl in progress: title, author and date (each from the first page that has
/// it) and the parts so far.
pub struct TextCrawl {
    pub title: String,
    pub author: String,
    pub date: String,
    pub parts: Vec<String>,
}

fn section_list<D: Fn(&str) -> u64>(doc: &Document, sec: &Sections, base: &str, density: &D) -> (r: Vec<String>)
    requires
        density_ok(*density),
    ensures
        str_views(r@) == (if css_parses(sec.each@) {
            sections_parts(doc@, doc_select(doc@, sec.each@), *sec, base@, |t: Seq<char>| density_of(*density, t))
        } else {
            Seq::empty()
        }),
{
    let ghost dens = |t: Seq<char>| density_of(*density, t);
    let mut out: Vec<String> = Vec::new();
    let css = match Css::parse(sec.each.as_str()) {
        Some(c) => c,
        None => {
            assert(str_views(out@) =~= Seq::<Seq<char>>::empty());
            return out;
        },
    };
    let elems = html::select(doc, &css);
    let get: &str = match &sec.get {
        Some(g) => g.as_str(),
        None => "text",
    };
    assert(get@ == get_or_text(opt_view(sec.get)));
    for k in 0..elems.len()
        invariant
            density_ok(*density),
            dens == (|t: Seq<char>| density_of(*density, t)),
            get@ == get_or_text(opt_view(sec.get)),
            str_views(out@) == sections_parts(doc@, elems@.take(k as int), *sec, base@, dens),
    {
        assert(elems@.take(k + 1).drop_last() =~= elems@.take(k as int));
        let el = elems[k];
        let body = match el_get(doc, el, sec.content.as_str(), get, base, density) {
            Some(b) => b,
            None => String::new(),
        };
        let tb = trim_str(body.as_str());
        if tb.unicode_len() > 0 {
            let st = match &sec.title {
                Some(s) => el_text(doc, el, s.as_str()),
                None => None,
            };
            let sd = match &sec.date {
                Some(s) => el_text(doc, el, s.as_str()),
                None => None,
            };
            let part = format_section(st, sd, tb.as_str());
            let ghost before = out@;
            out.push(part);
            assert(str_views(out@) =~= str_views(before).push(part@));
        }
    }
    assert(elems@.take(elems@.len() as int) =~= elems@);
    out
}

fn content_part<D: Fn(&str) -> u64>(doc: &Document, t: &TextRules, base: &str, density: &D) -> (r: Vec<String>)
    requires
        density_ok(*density),
        t.sections is None,
    ensures
        str_views(r@) == text_page_parts(doc@, *t, base@, |x: Seq<char>| density_of(*density, x)),
{
    let mut out: Vec<String> = Vec::new();
    match &t.content {
        Some(c) => {
            let get: &str = match &t.get {
                Some(g) => g.as_str(),
                None => "text",
            };
            match doc_get(doc, c.as_str(), get, base, density) {
                Some(b) => {
                    let tb = trim_str(b.as_str());
                    if tb.unicode_len() > 0 {
                        out.push(tb);
                        assert(str_views(out@) =~= seq![tb@]);
                    } else {
                        assert(str_views(out@) =~= Seq::<Seq<char>>::empty());
                    }
                },
                None => {
                    assert(str_views(out@) =~= Seq::<Seq<char>>::empty());
                },
            }
        },
        None => {
            assert(str_views(out@) =~= Seq::<Seq<char>>::empty());
        },
    }
    out
}

impl TextCrawl {
    /// A text crawl before any page.
    pub fn new() -> (r: TextCrawl)
        ensures
            r.title@ == Seq::<char>::empty(),
            r.author@ == Seq::<char>::empty(),
            r.date@ == Seq::<char>::empty(),
            r.parts@.len() == 0,
    {
        TextCrawl { title: String::new(), author: String::new(), date: String::new(), parts: Vec::new() }
    }

    /// Takes in one fetched page (at `page_url`), after preprocessing its HTML: the first
    /// title, author and date found, and the page's parts.
    pub fn on_page<D: Fn(&str) -> u64>(&mut self, html: &str, t: &TextRules, page_url: &str, density: &D)
        requires
            density_ok(*density),
        ensures
            ({
                let h = preprocess_spec(html@);
                &&& final(self).title@ == keep_title(old(self).title@, page_title(h, opt_view(t.title)))
                &&& final(self).author@ == keep_meta(old(self).author@, doc_text_spec(h, opt_view(t.author)))
                &&& final(self).date@ == keep_meta(old(self).date@, doc_text_spec(h, opt_view(t.date)))
                &&& str_views(final(self).parts@) == str_views(old(self).parts@) + text_page_parts(
                    h,
                    *t,
                    page_url@,
                    |x: Seq<char>| density_of(*density, x),
                )
            }),
    {
        let pre = preprocess_text_html(html);
        let doc = Document::parse(pre.as_str());
        if self.title.unicode_len() == 0 {
            let tt = match doc_text(&doc, t.title.as_ref()) {
                Some(x) => x,
                None => extract_title(&doc),
            };
            self.title = sanitize_filename(tt.as_str());
        }
        if self.author.unicode_len() == 0 {
            match doc_text(&doc, t.author.as_ref()) {
                Some(a) => self.author = a,
                None => {},
            }
        }
        if self.date.unicode_len() == 0 {
            match doc_text(&doc, t.date.as_ref()) {
                Some(d) => self.date = d,
                None => {},
            }
        }
        let page_parts = match &t.sections {
            Some(sec) => section_list(&doc, sec, page_url, density),
            None => content_part(&doc, t, page_url, density),
        };
        let ghost before = self.parts@;
        let ghost t0 = self.title;
        let ghost a0 = self.author;
        let ghost d0 = self.date;
        let mut k: usize = 0;
        while k < page_parts.len()
            invariant
                k <= page_parts@.len(),
                self.title == t0,
                self.author == a0,
                self.date == d0,
                str_views(self.parts@) == str_views(before) + str_views(page_parts@).take(k as int),
            decreases page_parts.len() - k,
        {
            let ghost b2 = self.parts@;
            let x = page_parts[k].clone();
            self.parts.push(x);
            assert(self.parts@ =~= b2.push(x));
            assert(str_views(self.parts@) =~= str_views(b2).push(x@));
            assert(str_views(page_parts@).take(k + 1) =~= str_views(page_parts@).take(k as int).push(x@));
            assert(str_views(self.parts@) =~= str_views(before) + str_views(page_parts@).take(k + 1));
            k = k + 1;
        }
        assert(str_views(page_parts@).take(page_parts@.len() as int) =~= str_views(page_parts@));
    }

    /// The text document: parts joined by a divider for sections, by a blank line otherwise.
    pub fn finish(self, t: &TextRules) -> (r: Result<(String, Extracted), String>)
        ensures
            is_text_result(r),
            text_result_view(r) == finish_spec(
                self.title@,
                self.author@,
                self.date@,
                str_views(self.parts@),
                str_views(t.strip@),
                opt_view(t.convert),
                if t.sections is Some {
                    "\n\n----------\n\n"@
                } else {
                    "\n\n"@
                },
            ),
    {
        let sep: &str = if t.sections.is_some() {
            "\n\n----------\n\n"
        } else {
            "\n\n"
        };
        finish_text(self.title, self.author, self.date, &self.parts, t, sep)
    }
}

/// A table-of-contents page: the work's title and the chapter links, in page order, or
/// `no chapters found`.
pub open spec fn toc_spec(html: Seq<char>, t: TextRules, ch: Chapters, url: Seq<char>) -> Result<(Seq<char>, Seq<Seq<char>>), Seq<char>> {
    let title = sanitize_spec(page_title(html, opt_view(t.title)));
    let links = links_spec(html, ch.links@, url);
    if links.len() == 0 {
        Err("no chapters found"@)
    } else {
        Ok((title, links))
    }
}

/// Reads the table of contents at `url` (see `toc_spec`).
pub fn chapter_toc(html: &str, t: &TextRules, ch: &Chapters, url: &str) -> (r: Result<(String, Vec<String>), String>)
    ensures
        match r {
            Ok((title, ls)) => toc_spec(html@, *t, *ch, url@) == Ok::<(Seq<char>, Seq<Seq<char>>), Seq<char>>(
                (title@, str_views(ls@)),
            ),
            Err(e) => toc_spec(html@, *t, *ch, url@) == Err::<(Seq<char>, Seq<Seq<char>>), Seq<char>>(e@),
        },
{
    let doc = Document::parse(html);
    let tt = match doc_text(&doc, t.title.as_ref()) {
        Some(x) => x,
        None => extract_title(&doc),
    };
    let title = sanitize_filename(tt.as_str());
    let ls = links(&doc, ch.links.as_str(), url);
    if ls.len() == 0 {
        return Err(String::from_str("no chapters found"));
    }
    Ok((title, ls))
}

/// One chapter page (at `link`), after preprocessing: its body (`content` via `get`,
/// trimmed), headed by its title and a blank line when the title selector finds one;
/// `None` when the body is empty.
pub open spec fn chapter_spec(
    html: Seq<char>,
    ch: Chapters,
    link: Seq<char>,
    dens: spec_fn(Seq<char>) -> u64,
) -> Option<Seq<char>> {
    let h = preprocess_spec(html);
    let body = match doc_get_spec(h, ch.content@, get_or_text(opt_view(ch.get)), link, dens) {
        Some(b) => b,
        None => Seq::empty(),
    };
    if trim(body).len() == 0 {
        None
    } else {
        match doc_text_spec(h, opt_view(ch.title)) {
            Some(c) => Some(c + "\n\n"@ + trim(body)),
            None => Some(trim(body)),
        }
    }
}

/// The part that one chapter page contributes (see `chapter_spec`).
pub fn chapter_part<D: Fn(&str) -> u64>(html: &str, ch: &Chapters, link: &str, density: &D) -> (r: Option<String>)
    requires
        density_ok(*density),
    ensures
        opt_view(r) == chapter_spec(html@, *ch, link@, |x: Seq<char>| density_of(*density, x)),
{
    let pre = preprocess_text_html(html);
    let doc = Document::parse(pre.as_str());
    let get: &str = match &ch.get {
        Some(g) => g.as_str(),
        None => "text",
    };
    let body = match doc_get(&doc, ch.content.as_str(), get, link, density) {
        Some(b) => b,
        None => String::new(),
    };
    let tb = trim_str(body.as_str());
    if tb.unicode_len() == 0 {
        return None;
    }
    match doc_text(&doc, ch.title.as_ref()) {
        Some(c) => {
            let mut v = chars_of(c.as_str());
            extend_chars(&mut v, &chars_of("\n\n"));
            extend_chars(&mut v, &chars_of(tb.as_str()));
            Some(string_of(v.as_slice()))
        },
        None => Some(tb),
    }
}

/// The text of a chapter crawl: the parts separated by two blank lines, without author or date.
pub fn finish_chapters(title: String, parts: &Vec<String>, t: &TextRules) -> (r: Result<(String, Extracted), String>)
    ensures
        is_text_result(r),
        text_result_view(r) == finish_spec(
            title@,
            Seq::empty(),
            Seq::empty(),
            str_views(parts@),
            str_views(t.strip@),
            opt_view(t.convert),
            "\n\n\n"@,
        ),
{
    finish_text(title, String::new(), String::new(), parts, t, "\n\n\n")
}

} // verus!

verus! {

/// The title of an image crawl after one more listing page: the title found so far, else the
/// sanitized title of `doc`.
pub fn keep_page_title(cur: String, doc: &Document) -> (r: String)
    ensures
        r@ == keep_title(cur@, title_spec(doc@)),
{
    if cur.unicode_len() == 0 {
        sanitize_filename(extract_title(doc).as_str())
    } else {
        cur
    }
}

} // verus!
