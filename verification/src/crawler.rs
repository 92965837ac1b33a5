//! The extraction pipeline: locate (CSS selector) -> get (text, HTML or `@attribute`) ->
//! purify (regex), and the per-source-type extractors built on it.
use vstd::prelude::*;

use crate::config::{Column, Field, TextRules};
use crate::html::{
    self, Css, Document, css_parses, doc_select, elem_attr, elem_inner_html, elem_outer_html,
    elem_select, elem_text, node_children, node_text,
};
use crate::pattern::{Pattern, regex_compiles, regex_replace_all};
use crate::text::{
    replace_all, replace_chars,
    chars_of, extend_chars, opt_view, starts_with, str_equal, str_starts_with, string_of, trim,
    trim_str,
};
use crate::util::{density_of, density_ok, parse_srcset_best, resolve_spec, resolve_url, srcset_best};

verus! {

/// What a crawl produced, for the history ledger.
pub struct CrawlResult {
    pub title: String,
    pub count: usize,
    pub download_dir: String,
}

/// What an extractor produced; the persistence step turns it into files.
pub enum Extracted {
    Data { headers: Vec<String>, rows: Vec<Vec<String>> },
    Text(String),
    Images(Vec<String>),
}

/// Splits a `get` spec into (key, is_attribute): `@href` is (`href`, true), `text` is (`text`, false).
pub open spec fn parse_get_spec(get: Seq<char>) -> (Seq<char>, bool) {
    if get.len() > 0 && get[0] == '@' {
        (get.drop_first(), true)
    } else {
        (get, false)
    }
}

/// Splits a `get` spec into its key and whether it names an attribute.
pub fn parse_get(get: &str) -> (r: (&str, bool))
    ensures
        (r.0@, r.1) == parse_get_spec(get@),
{
    let n = get.unicode_len();
    if n > 0 && get.get_char(0) == '@' {
        let a = get.substring_char(1, n);
        assert(a@ =~= get@.drop_first());
        (a, true)
    } else {
        (get, false)
    }
}

/// A selector scoped to a container: `container expr`, or `expr` alone.
pub open spec fn scoped_spec(container: Option<Seq<char>>, expr: Seq<char>) -> Seq<char> {
    match container {
        Some(c) => c + " "@ + expr,
        None => expr,
    }
}

/// Scopes `expr` to `container` (a descendant selector), when there is one.
pub fn scoped(container: Option<&String>, expr: &str) -> (r: String)
    ensures
        r@ == scoped_spec(
            match container {
                Some(c) => Some(c@),
                None => None,
            },
            expr@,
        ),
{
    match container {
        Some(c) => {
            let mut s = c.clone();
            s.append(" ");
            s.append(expr);
            s
        },
        None => String::from_str(expr),
    }
}

/// The value after regex purification: every match of `regex` replaced by `replace`; the
/// value unchanged when there is no regex or it does not compile.
pub open spec fn purify_spec(value: Seq<char>, regex: Option<Seq<char>>, replace: Seq<char>) -> Seq<char> {
    match regex {
        Some(r) => if regex_compiles(r) {
            regex_replace_all(r, value, replace)
        } else {
            value
        },
        None => value,
    }
}

/// Applies the optional regex purification to a value.
pub fn purify(value: String, regex: Option<&String>, replace: &str) -> (r: String)
    ensures
        r@ == purify_spec(
            value@,
            match regex {
                Some(x) => Some(x@),
                None => None,
            },
            replace@,
        ),
{
    match regex {
        Some(r) => match Pattern::compile(r.as_str()) {
            Some(re) => re.replace_all(value.as_str(), replace),
            None => value,
        },
        None => value,
    }
}

/// The concatenated texts of the text nodes among `nodes`.
pub open spec fn texts_of(html: Seq<char>, nodes: Seq<usize>) -> Seq<char>
    decreases nodes.len(),
{
    if nodes.len() == 0 {
        Seq::empty()
    } else {
        texts_of(html, nodes.drop_last()) + match node_text(html, nodes.last()) {
            Some(t) => t,
            None => Seq::empty(),
        }
    }
}

/// The text of the element's own text children (not of its descendants).
pub open spec fn own_text_spec(html: Seq<char>, el: usize) -> Seq<char> {
    texts_of(html, node_children(html, el))
}

/// A content value of an element: `text`, `ownText`, `html`/`innerHtml` or `outerHtml`;
/// `None` for any other key.
pub open spec fn content_spec(html: Seq<char>, el: usize, key: Seq<char>) -> Option<Seq<char>> {
    if key == "text"@ {
        Some(elem_text(html, el))
    } else if key == "ownText"@ {
        Some(own_text_spec(html, el))
    } else if key == "html"@ || key == "innerHtml"@ {
        Some(elem_inner_html(html, el))
    } else if key == "outerHtml"@ {
        Some(elem_outer_html(html, el))
    } else {
        None
    }
}

fn own_text(doc: &Document, el: usize) -> (r: String)
    ensures
        r@ == own_text_spec(doc@, el),
{
    let kids = html::children(doc, el);
    let mut out: Vec<char> = Vec::new();
    for i in 0..kids.len()
        invariant
            kids@ == node_children(doc@, el),
            out@ == texts_of(doc@, kids@.take(i as int)),
    {
        assert(kids@.take(i + 1).drop_last() =~= kids@.take(i as int));
        match html::node_text_of(doc, kids[i]) {
            Some(t) => extend_chars(&mut out, &chars_of(t.as_str())),
            None => {
                assert(out@ =~= out@ + Seq::<char>::empty());
            },
        }
    }
    assert(kids@.take(kids@.len() as int) =~= kids@);
    string_of(out.as_slice())
}

fn content_value(doc: &Document, el: usize, key: &str) -> (r: Option<String>)
    ensures
        opt_view(r) == content_spec(doc@, el, key@),
{
    if str_equal(key, "text") {
        Some(html::text(doc, el))
    } else if str_equal(key, "ownText") {
        Some(own_text(doc, el))
    } else if str_equal(key, "html") || str_equal(key, "innerHtml") {
        Some(html::inner_html(doc, el))
    } else if str_equal(key, "outerHtml") {
        Some(html::outer_html(doc, el))
    } else {
        None
    }
}

/// One value of an element per `get`. An attribute is treated as a URL: trimmed, `None`
/// when empty or a `data:`/`blob:` URL, a `srcset` reduced to its best candidate, then
/// resolved against `base` (`None` when that gives nothing). A content value is trimmed.
pub open spec fn get_spec(
    html: Seq<char>,
    el: usize,
    get: Seq<char>,
    base: Seq<char>,
    dens: spec_fn(Seq<char>) -> u64,
) -> Option<Seq<char>> {
    let (key, is_attr) = parse_get_spec(get);
    if is_attr {
        match elem_attr(html, el, key) {
            None => None,
            Some(raw) => {
                let t = trim(raw);
                if t.len() == 0 || starts_with(t, "data:"@) || starts_with(t, "blob:"@) {
                    None
                } else {
                    let u = if key == "srcset"@ {
                        srcset_best(t, dens)
                    } else {
                        t
                    };
                    let full = resolve_spec(u, base);
                    if full.len() == 0 {
                        None
                    } else {
                        Some(full)
                    }
                }
            },
        }
    } else {
        match content_spec(html, el, key) {
            Some(v) => Some(trim(v)),
            None => None,
        }
    }
}

/// Pulls one value from element `el` per `get` (see `get_spec`).
pub fn extract_get<D: Fn(&str) -> u64>(
    doc: &Document,
    el: usize,
    get: &str,
    base_url: &str,
    density: &D,
) -> (r: Option<String>)
    requires
        density_ok(*density),
    ensures
        opt_view(r) == get_spec(doc@, el, get@, base_url@, |t: Seq<char>| density_of(*density, t)),
{
    let (key, is_attr) = parse_get(get);
    if is_attr {
        let raw = match html::attr(doc, el, key) {
            Some(a) => a,
            None => return None,
        };
        let t = trim_str(raw.as_str());
        if t.unicode_len() == 0 || str_starts_with(t.as_str(), "data:") || str_starts_with(
            t.as_str(),
            "blob:",
        ) {
            return None;
        }
        let u = if str_equal(key, "srcset") {
            parse_srcset_best(t.as_str(), density)
        } else {
            t
        };
        let full = resolve_url(u.as_str(), base_url);
        if full.unicode_len() == 0 {
            None
        } else {
            Some(full)
        }
    } else {
        match content_value(doc, el, key) {
            Some(v) => Some(trim_str(v.as_str())),
            None => None,
        }
    }
}

/// The first match of `selector` in the document, via `get`.
pub open spec fn doc_get_spec(
    html: Seq<char>,
    selector: Seq<char>,
    get: Seq<char>,
    base: Seq<char>,
    dens: spec_fn(Seq<char>) -> u64,
) -> Option<Seq<char>> {
    if css_parses(selector) && doc_select(html, selector).len() > 0 {
        get_spec(html, doc_select(html, selector)[0], get, base, dens)
    } else {
        None
    }
}

/// The first match of `selector` below element `el`, via `get`.
pub open spec fn el_get_spec(
    html: Seq<char>,
    el: usize,
    selector: Seq<char>,
    get: Seq<char>,
    base: Seq<char>,
    dens: spec_fn(Seq<char>) -> u64,
) -> Option<Seq<char>> {
    if css_parses(selector) && elem_select(html, el, selector).len() > 0 {
        get_spec(html, elem_select(html, el, selector)[0], get, base, dens)
    } else {
        None
    }
}

/// The trimmed text of the first match of `selector` in the document, if not empty.
pub open spec fn doc_text_spec(html: Seq<char>, selector: Option<Seq<char>>) -> Option<Seq<char>> {
    match selector {
        None => None,
        Some(s) => if css_parses(s) && doc_select(html, s).len() > 0 {
            let t = trim(elem_text(html, doc_select(html, s)[0]));
            if t.len() == 0 {
                None
            } else {
                Some(t)
            }
        } else {
            None
        },
    }
}

/// The trimmed text of the first match of `selector` below element `el`, if not empty.
pub open spec fn el_text_spec(html: Seq<char>, el: usize, selector: Seq<char>) -> Option<Seq<char>> {
    if css_parses(selector) && elem_select(html, el, selector).len() > 0 {
        let t = trim(elem_text(html, elem_select(html, el, selector)[0]));
        if t.len() == 0 {
            None
        } else {
            Some(t)
        }
    } else {
        None
    }
}

/// The first match of `selector` in the document, via `get`.
pub fn doc_get<D: Fn(&str) -> u64>(
    doc: &Document,
    selector: &str,
    get: &str,
    base_url: &str,
    density: &D,
) -> (r: Option<String>)
    requires
        density_ok(*density),
    ensures
        opt_view(r) == doc_get_spec(doc@, selector@, get@, base_url@, |t: Seq<char>| density_of(*density, t)),
{
    let css = match Css::parse(selector) {
        Some(c) => c,
        None => return None,
    };
    let found = html::select(doc, &css);
    if found.len() == 0 {
        return None;
    }
    extract_get(doc, found[0], get, base_url, density)
}

/// The first match of `selector` below element `el`, via `get`.
pub fn el_get<D: Fn(&str) -> u64>(
    doc: &Document,
    el: usize,
    selector: &str,
    get: &str,
    base_url: &str,
    density: &D,
) -> (r: Option<String>)
    requires
        density_ok(*density),
    ensures
        opt_view(r) == el_get_spec(doc@, el, selector@, get@, base_url@, |t: Seq<char>| density_of(*density, t)),
{
    let css = match Css::parse(selector) {
        Some(c) => c,
        None => return None,
    };
    let found = html::select_in(doc, el, &css);
    if found.len() == 0 {
        return None;
    }
    extract_get(doc, found[0], get, base_url, density)
}

/// The trimmed text of the first match of `selector` in the document, if not empty.
pub fn doc_text(doc: &Document, selector: Option<&String>) -> (r: Option<String>)
    ensures
        opt_view(r) == doc_text_spec(
            doc@,
            match selector {
                Some(s) => Some(s@),
                None => None,
            },
        ),
{
    let sel = match selector {
        Some(s) => s,
        None => return None,
    };
    let css = match Css::parse(sel.as_str()) {
        Some(c) => c,
        None => return None,
    };
    let found = html::select(doc, &css);
    if found.len() == 0 {
        return None;
    }
    let t = trim_str(html::text(doc, found[0]).as_str());
    if t.unicode_len() == 0 {
        None
    } else {
        Some(t)
    }
}

/// The trimmed text of the first match of `selector` below element `el`, if not empty.
pub fn el_text(doc: &Document, el: usize, selector: &str) -> (r: Option<String>)
    ensures
        opt_view(r) == el_text_spec(doc@, el, selector@),
{
    let css = match Css::parse(selector) {
        Some(c) => c,
        None => return None,
    };
    let found = html::select_in(doc, el, &css);
    if found.len() == 0 {
        return None;
    }
    let t = trim_str(html::text(doc, found[0]).as_str());
    if t.unicode_len() == 0 {
        None
    } else {
        Some(t)
    }
}

} // verus!

verus! {

/// The views of a list of strings.
pub open spec fn str_views(v: Seq<String>) -> Seq<Seq<char>> {
    v.map_values(|s: String| s@)
}

/// The replacement text of a purification (`""` when none is given).
pub open spec fn replace_text(replace: Option<Seq<char>>) -> Seq<char> {
    match replace {
        Some(r) => r,
        None => Seq::empty(),
    }
}

/// Whether element `el` is matched by one of the exclusion selectors that parse.
pub open spec fn excluded(html: Seq<char>, exclude: Seq<Seq<char>>, el: usize) -> bool {
    exists|j: int|
        0 <= j < exclude.len() && css_parses(exclude[j]) && #[trigger] doc_select(html, exclude[j]).contains(el)
}

/// The purified value of field `f` at element `el`, when it is not empty.
pub open spec fn field_value(
    html: Seq<char>,
    el: usize,
    f: Field,
    base: Seq<char>,
    dens: spec_fn(Seq<char>) -> u64,
) -> Option<Seq<char>> {
    match get_spec(html, el, f.get@, base, dens) {
        None => None,
        Some(v) => {
            let p = purify_spec(v, opt_view(f.regex), replace_text(opt_view(f.replace)));
            if p.len() == 0 {
                None
            } else {
                Some(p)
            }
        },
    }
}

/// The values of field `f` over the elements `elems`, skipping excluded elements and
/// elements without a value, in order.
pub open spec fn field_values(
    html: Seq<char>,
    elems: Seq<usize>,
    f: Field,
    base: Seq<char>,
    exclude: Seq<Seq<char>>,
    dens: spec_fn(Seq<char>) -> u64,
) -> Seq<Seq<char>>
    decreases elems.len(),
{
    if elems.len() == 0 {
        Seq::empty()
    } else {
        let prev = field_values(html, elems.drop_last(), f, base, exclude, dens);
        let el = elems.last();
        if excluded(html, exclude, el) {
            prev
        } else {
            match field_value(html, el, f, base, dens) {
                Some(v) => prev.push(v),
                None => prev,
            }
        }
    }
}

/// The values of all `fields` over a document, field by field: each field's selector,
/// scoped to `container`, selects elements (a selector that does not parse selects none).
pub open spec fn fields_values(
    html: Seq<char>,
    fields: Seq<Field>,
    container: Option<Seq<char>>,
    base: Seq<char>,
    exclude: Seq<Seq<char>>,
    dens: spec_fn(Seq<char>) -> u64,
) -> Seq<Seq<char>>
    decreases fields.len(),
{
    if fields.len() == 0 {
        Seq::empty()
    } else {
        let prev = fields_values(html, fields.drop_last(), container, base, exclude, dens);
        let f = fields.last();
        let sel = scoped_spec(container, f.selector@);
        if css_parses(sel) {
            prev + field_values(html, doc_select(html, sel), f, base, exclude, dens)
        } else {
            prev
        }
    }
}

fn contains_handle(v: &Vec<usize>, x: usize) -> (r: bool)
    ensures
        r == v@.contains(x),
{
    let mut i: usize = 0;
    while i < v.len()
        invariant
            i <= v@.len(),
            forall|k: int| 0 <= k < i ==> v@[k] != x,
        decreases v.len() - i,
    {
        if v[i] == x {
            return true;
        }
        i = i + 1;
    }
    false
}

fn excluded_handles(doc: &Document, exclude: &Vec<String>) -> (r: Vec<usize>)
    ensures
        forall|el: usize| r@.contains(el) <==> excluded(doc@, str_views(exclude@), el),
{
    let ghost ev = str_views(exclude@);
    let mut out: Vec<usize> = Vec::new();
    for i in 0..exclude.len()
        invariant
            ev == str_views(exclude@),
            forall|el: usize|
                out@.contains(el) <==> exists|j: int|
                    0 <= j < i && css_parses(ev[j]) && #[trigger] doc_select(doc@, ev[j]).contains(el),
    {
        match Css::parse(exclude[i].as_str()) {
            Some(css) => {
                let found = html::select(doc, &css);
                let ghost before = out@;
                let mut k: usize = 0;
                while k < found.len()
                    invariant
                        k <= found@.len(),
                        out@ == before + found@.take(k as int),
                    decreases found.len() - k,
                {
                    out.push(found[k]);
                    assert(out@ =~= before + found@.take(k + 1));
                    k = k + 1;
                }
                assert(found@.take(found@.len() as int) =~= found@);
                assert forall|el: usize| out@.contains(el) <==> exists|j: int|
                    0 <= j < i + 1 && css_parses(ev[j]) && #[trigger] doc_select(doc@, ev[j]).contains(el) by {
                    if out@.contains(el) {
                        let p = choose|p: int| 0 <= p < out@.len() && out@[p] == el;
                        if p < before.len() {
                            assert(before[p] == el);
                            assert(before.contains(el));
                        } else {
                            assert(found@[p - before.len()] == el);
                            assert(doc_select(doc@, ev[i as int]).contains(el));
                        }
                    }
                    if exists|j: int| 0 <= j < i + 1 && css_parses(ev[j]) && #[trigger] doc_select(doc@, ev[j]).contains(el) {
                        let j = choose|j: int| 0 <= j < i + 1 && css_parses(ev[j]) && #[trigger] doc_select(doc@, ev[j]).contains(el);
                        if j < i {
                            assert(before.contains(el));
                            let p = choose|p: int| 0 <= p < before.len() && before[p] == el;
                            assert(out@[p] == el);
                        } else {
                            let p = choose|p: int| 0 <= p < found@.len() && found@[p] == el;
                            assert(out@[before.len() + p] == el);
                        }
                    }
                }
            },
            None => {
                assert forall|el: usize| out@.contains(el) <==> exists|j: int|
                    0 <= j < i + 1 && css_parses(ev[j]) && #[trigger] doc_select(doc@, ev[j]).contains(el) by {
                    if exists|j: int| 0 <= j < i + 1 && css_parses(ev[j]) && #[trigger] doc_select(doc@, ev[j]).contains(el) {
                        let j = choose|j: int| 0 <= j < i + 1 && css_parses(ev[j]) && #[trigger] doc_select(doc@, ev[j]).contains(el);
                        assert(j != i);
                    }
                }
            },
        }
    }
    out
}

/// The values of one field over a document: its selector, scoped to `container`, selects
/// elements (none when the selector does not parse).
pub open spec fn one_field_values(
    html: Seq<char>,
    f: Field,
    container: Option<Seq<char>>,
    base: Seq<char>,
    exclude: Seq<Seq<char>>,
    dens: spec_fn(Seq<char>) -> u64,
) -> Seq<Seq<char>> {
    let sel = scoped_spec(container, f.selector@);
    if css_parses(sel) {
        field_values(html, doc_select(html, sel), f, base, exclude, dens)
    } else {
        Seq::empty()
    }
}

/// The values of the first of `fields` that yields any (none when no field does).
pub open spec fn first_fields_values(
    html: Seq<char>,
    fields: Seq<Field>,
    container: Option<Seq<char>>,
    base: Seq<char>,
    exclude: Seq<Seq<char>>,
    dens: spec_fn(Seq<char>) -> u64,
) -> Seq<Seq<char>>
    decreases fields.len(),
{
    if fields.len() == 0 {
        Seq::empty()
    } else {
        let v = one_field_values(html, fields[0], container, base, exclude, dens);
        if v.len() > 0 {
            v
        } else {
            first_fields_values(html, fields.drop_first(), container, base, exclude, dens)
        }
    }
}

/// The values of `fields` under a `combine` policy: `first` keeps only the first field that
/// yields values; anything else (`merge`, the default) takes every field's values in turn.
pub open spec fn combined_values(
    html: Seq<char>,
    fields: Seq<Field>,
    container: Option<Seq<char>>,
    base: Seq<char>,
    exclude: Seq<Seq<char>>,
    combine: Option<Seq<char>>,
    dens: spec_fn(Seq<char>) -> u64,
) -> Seq<Seq<char>> {
    if combine == Some("first"@) {
        first_fields_values(html, fields, container, base, exclude, dens)
    } else {
        fields_values(html, fields, container, base, exclude, dens)
    }
}

/// The values of one field (see `one_field_values`); `ex` holds the excluded elements.
fn one_field<D: Fn(&str) -> u64>(
    doc: &Document,
    f: &Field,
    container: Option<&String>,
    base_url: &str,
    ex: &Vec<usize>,
    exclude: &Vec<String>,
    density: &D,
) -> (r: Vec<String>)
    requires
        density_ok(*density),
        forall|el: usize| ex@.contains(el) <==> excluded(doc@, str_views(exclude@), el),
    ensures
        str_views(r@) == one_field_values(
            doc@,
            *f,
            match container {
                Some(c) => Some(c@),
                None => None,
            },
            base_url@,
            str_views(exclude@),
            |t: Seq<char>| density_of(*density, t),
        ),
{
    let ghost dens = |t: Seq<char>| density_of(*density, t);
    let ghost ev = str_views(exclude@);
    let mut out: Vec<String> = Vec::new();
    let sel = scoped(container, f.selector.as_str());
    match Css::parse(sel.as_str()) {
        Some(css) => {
            let elems = html::select(doc, &css);
            for k in 0..elems.len()
                invariant
                    density_ok(*density),
                    dens == (|t: Seq<char>| density_of(*density, t)),
                    ev == str_views(exclude@),
                    forall|el: usize| ex@.contains(el) <==> excluded(doc@, ev, el),
                    str_views(out@) == field_values(doc@, elems@.take(k as int), *f, base_url@, ev, dens),
            {
                assert(elems@.take(k + 1).drop_last() =~= elems@.take(k as int));
                let el = elems[k];
                if !contains_handle(ex, el) {
                    match extract_get(doc, el, f.get.as_str(), base_url, density) {
                        Some(v) => {
                            let rep: &str = match &f.replace {
                                Some(r) => r.as_str(),
                                None => "",
                            };
                            proof {
                                reveal_strlit("");
                                assert(rep@ == replace_text(opt_view(f.replace)));
                            }
                            let rx = f.regex.as_ref();
                            assert((match rx {
                                Some(x) => Some(x@),
                                None => None,
                            }) == opt_view(f.regex));
                            let p = purify(v, rx, rep);
                            if p.unicode_len() > 0 {
                                let ghost o = out@;
                                out.push(p);
                                assert(str_views(out@) =~= str_views(o).push(p@));
                            }
                        },
                        None => {},
                    }
                }
            }
            assert(elems@.take(elems@.len() as int) =~= elems@);
        },
        None => {},
    }
    out
}

/// Runs a set of fields over a document (image and list extraction): scoped select,
/// exclusion, get and regex; empty values are dropped.
pub fn extract_fields<D: Fn(&str) -> u64>(
    doc: &Document,
    fields: &Vec<Field>,
    container: Option<&String>,
    base_url: &str,
    exclude: &Vec<String>,
    density: &D,
) -> (r: Vec<String>)
    requires
        density_ok(*density),
    ensures
        str_views(r@) == fields_values(
            doc@,
            fields@,
            match container {
                Some(c) => Some(c@),
                None => None,
            },
            base_url@,
            str_views(exclude@),
            |t: Seq<char>| density_of(*density, t),
        ),
{
    let ghost dens = |t: Seq<char>| density_of(*density, t);
    let ghost cont = match container {
        Some(c) => Some(c@),
        None => None,
    };
    let ghost ev = str_views(exclude@);
    let ex = excluded_handles(doc, exclude);
    let mut out: Vec<String> = Vec::new();
    for i in 0..fields.len()
        invariant
            density_ok(*density),
            dens == (|t: Seq<char>| density_of(*density, t)),
            ev == str_views(exclude@),
            cont == (match container {
                Some(c) => Some(c@),
                None => None,
            }),
            forall|el: usize| ex@.contains(el) <==> excluded(doc@, ev, el),
            str_views(out@) == fields_values(doc@, fields@.take(i as int), cont, base_url@, ev, dens),
    {
        assert(fields@.take(i + 1).drop_last() =~= fields@.take(i as int));
        assert(fields@.take(i + 1).last() == fields@[i as int]);
        let mut v = one_field(doc, &fields[i], container, base_url, &ex, exclude, density);
        let ghost o = out@;
        let ghost vv = v@;
        out.append(&mut v);
        assert(str_views(out@) =~= str_views(o) + str_views(vv));
    }
    assert(fields@.take(fields@.len() as int) =~= fields@);
    out
}

/// Runs a set of fields over a document under a `combine` policy (see `combined_values`):
/// `first` falls back from field to field until one yields values; otherwise every field's
/// values are taken.
pub fn extract_combined<D: Fn(&str) -> u64>(
    doc: &Document,
    fields: &Vec<Field>,
    container: Option<&String>,
    base_url: &str,
    exclude: &Vec<String>,
    combine: Option<&String>,
    density: &D,
) -> (r: Vec<String>)
    requires
        density_ok(*density),
    ensures
        str_views(r@) == combined_values(
            doc@,
            fields@,
            match container {
                Some(c) => Some(c@),
                None => None,
            },
            base_url@,
            str_views(exclude@),
            match combine {
                Some(c) => Some(c@),
                None => None,
            },
            |t: Seq<char>| density_of(*density, t),
        ),
{
    let first = match combine {
        Some(c) => str_equal(c.as_str(), "first"),
        None => false,
    };
    if !first {
        return extract_fields(doc, fields, container, base_url, exclude, density);
    }
    let ghost dens = |t: Seq<char>| density_of(*density, t);
    let ghost cont = match container {
        Some(c) => Some(c@),
        None => None,
    };
    let ghost ev = str_views(exclude@);
    let ex = excluded_handles(doc, exclude);
    let mut i: usize = 0;
    assert(fields@.skip(0) =~= fields@);
    while i < fields.len()
        invariant
            i <= fields@.len(),
            match combine {
                Some(c) => c@ == "first"@,
                None => false,
            },
            density_ok(*density),
            dens == (|t: Seq<char>| density_of(*density, t)),
            ev == str_views(exclude@),
            cont == (match container {
                Some(c) => Some(c@),
                None => None,
            }),
            forall|el: usize| ex@.contains(el) <==> excluded(doc@, ev, el),
            first_fields_values(doc@, fields@, cont, base_url@, ev, dens) == first_fields_values(
                doc@,
                fields@.skip(i as int),
                cont,
                base_url@,
                ev,
                dens,
            ),
        decreases fields.len() - i,
    {
        assert(fields@.skip(i as int)[0] == fields@[i as int]);
        assert(fields@.skip(i as int).drop_first() =~= fields@.skip(i + 1));
        let v = one_field(doc, &fields[i], container, base_url, &ex, exclude, density);
        if v.len() > 0 {
            return v;
        }
        i = i + 1;
    }
    assert(fields@.skip(i as int).len() == 0);
    Vec::new()
}

/// The value of a CSV column in a row: the column's selector (or the row itself) via `get`,
/// empty when nothing is found, then purified.
pub open spec fn column_spec(
    html: Seq<char>,
    row: usize,
    col: Column,
    base: Seq<char>,
    dens: spec_fn(Seq<char>) -> u64,
) -> Seq<char> {
    let raw = match col.selector {
        Some(s) => el_get_spec(html, row, s@, col.get@, base, dens),
        None => get_spec(html, row, col.get@, base, dens),
    };
    let raw = match raw {
        Some(v) => v,
        None => Seq::empty(),
    };
    purify_spec(raw, opt_view(col.regex), replace_text(opt_view(col.replace)))
}

/// The value of column `col` in the row element `row`.
pub fn extract_column<D: Fn(&str) -> u64>(
    doc: &Document,
    row: usize,
    col: &Column,
    base_url: &str,
    density: &D,
) -> (r: String)
    requires
        density_ok(*density),
    ensures
        r@ == column_spec(doc@, row, *col, base_url@, |t: Seq<char>| density_of(*density, t)),
{
    let raw = match &col.selector {
        Some(s) => el_get(doc, row, s.as_str(), col.get.as_str(), base_url, density),
        None => extract_get(doc, row, col.get.as_str(), base_url, density),
    };
    let raw = match raw {
        Some(v) => v,
        None => String::new(),
    };
    let rep: &str = match &col.replace {
        Some(r) => r.as_str(),
        None => "",
    };
    proof {
        reveal_strlit("");
        assert(rep@ == replace_text(opt_view(col.replace)));
    }
    let rx = col.regex.as_ref();
    assert((match rx {
        Some(x) => Some(x@),
        None => None,
    }) == opt_view(col.regex));
    purify(raw, rx, rep)
}

} // verus!

verus! {

/// `html` with the pattern's matches removed; unchanged if the pattern does not compile.
pub open spec fn strip_pattern(pattern: Seq<char>, html: Seq<char>) -> Seq<char> {
    if regex_compiles(pattern) {
        regex_replace_all(pattern, html, Seq::empty())
    } else {
        html
    }
}

/// The pattern of `<style>` blocks.
pub open spec fn style_pattern() -> Seq<char> {
    "(?s)<style[^>]*>.*?</style>"@
}

/// The pattern of `<script>` blocks.
pub open spec fn script_pattern() -> Seq<char> {
    "(?s)<script[^>]*>.*?</script>"@
}

/// Text-page HTML before parsing: paragraph breaks become blank lines, `<br>` forms become
/// line breaks, and `<style>` and `<script>` blocks are removed.
pub open spec fn preprocess_spec(html: Seq<char>) -> Seq<char> {
    let h = replace_all(replace_all(html, "</p><p>"@, "\n\n"@), "</p>\n<p>"@, "\n\n"@);
    let h = replace_all(replace_all(replace_all(h, "<br>"@, "\n"@), "<br/>"@, "\n"@), "<br />"@, "\n"@);
    strip_pattern(script_pattern(), strip_pattern(style_pattern(), h))
}

fn replace_str(s: &Vec<char>, from: &str, to: &str) -> (r: Vec<char>)
    ensures
        r@ == replace_all(s@, from@, to@),
{
    replace_chars(s, &chars_of(from), &chars_of(to))
}

fn strip_blocks(h: String, pattern: &str) -> (r: String)
    ensures
        r@ == strip_pattern(pattern@, h@),
{
    proof {
        reveal_strlit("");
        assert(""@ =~= Seq::<char>::empty());
    }
    match Pattern::compile(pattern) {
        Some(re) => re.replace_all(h.as_str(), ""),
        None => h,
    }
}

/// Prepares the HTML of a text page for extraction (see `preprocess_spec`).
pub fn preprocess_text_html(html: &str) -> (r: String)
    ensures
        r@ == preprocess_spec(html@),
{
    let v = chars_of(html);
    let h = replace_str(&replace_str(&v, "</p><p>", "\n\n"), "</p>\n<p>", "\n\n");
    let h = replace_str(&replace_str(&replace_str(&h, "<br>", "\n"), "<br/>", "\n"), "<br />", "\n");
    let h = strip_blocks(string_of(h.as_slice()), "(?s)<style[^>]*>.*?</style>");
    strip_blocks(h, "(?s)<script[^>]*>.*?</script>")
}

/// A section of a multi-section page: `【title  date】` and a line break before the body,
/// when a title or date is present (each trimmed; two spaces between them).
pub open spec fn section_spec(title: Option<Seq<char>>, date: Option<Seq<char>>, body: Seq<char>) -> Seq<char> {
    let h1 = match title {
        Some(t) => trim(t),
        None => Seq::empty(),
    };
    let head = match date {
        Some(d) => if h1.len() > 0 {
            h1 + "  "@ + trim(d)
        } else {
            trim(d)
        },
        None => h1,
    };
    if head.len() == 0 {
        body
    } else {
        "【"@ + head + "】\n"@ + body
    }
}

/// Formats one section of a multi-section page.
pub fn format_section(title: Option<String>, date: Option<String>, body: &str) -> (r: String)
    ensures
        r@ == section_spec(opt_view(title), opt_view(date), body@),
{
    let mut head: Vec<char> = Vec::new();
    match &title {
        Some(t) => extend_chars(&mut head, &chars_of(trim_str(t.as_str()).as_str())),
        None => {},
    }
    assert(head@ =~= match opt_view(title) {
        Some(t) => trim(t),
        None => Seq::<char>::empty(),
    });
    match &date {
        Some(d) => {
            if head.len() > 0 {
                extend_chars(&mut head, &chars_of("  "));
            }
            extend_chars(&mut head, &chars_of(trim_str(d.as_str()).as_str()));
        },
        None => {},
    }
    if head.len() == 0 {
        String::from_str(body)
    } else {
        let mut out = chars_of("【");
        extend_chars(&mut out, &head);
        extend_chars(&mut out, &chars_of("】\n"));
        extend_chars(&mut out, &chars_of(body));
        string_of(out.as_slice())
    }
}

/// `parts` joined with `sep` between consecutive parts (`slice::join`).
pub open spec fn join_spec(parts: Seq<Seq<char>>, sep: Seq<char>) -> Seq<char>
    decreases parts.len(),
{
    if parts.len() == 0 {
        Seq::empty()
    } else if parts.len() == 1 {
        parts[0]
    } else {
        join_spec(parts.drop_last(), sep) + sep + parts.last()
    }
}

/// Joins strings with a separator.
pub fn join_strings(parts: &Vec<String>, sep: &str) -> (r: Vec<char>)
    ensures
        r@ == join_spec(str_views(parts@), sep@),
{
    let ghost pv = str_views(parts@);
    let sv = chars_of(sep);
    let mut out: Vec<char> = Vec::new();
    for i in 0..parts.len()
        invariant
            pv == str_views(parts@),
            sv@ == sep@,
            out@ == join_spec(pv.take(i as int), sep@),
    {
        assert(pv.take(i + 1).drop_last() =~= pv.take(i as int));
        if i > 0 {
            extend_chars(&mut out, &sv);
        } else {
            assert(out@ =~= Seq::<char>::empty());
        }
        extend_chars(&mut out, &chars_of(parts[i].as_str()));
        if i == 0 {
            assert(out@ =~= pv.take(1)[0]);
        }
    }
    assert(pv.take(parts@.len() as int) =~= pv);
    out
}

} // verus!

verus! {

/// `zhconv` of `s` to Simplified Chinese (`zh-Hans`).
pub uninterp spec fn zh_hans(s: Seq<char>) -> Seq<char>;

/// Converts `s` to Simplified Chinese (`zhconv::zhconv` with `Variant::ZhHans`).
#[verifier::external_body]
fn to_simplified(s: &str) -> (r: String)
    ensures
        r@ == zh_hans(s@),
{
    zhconv::zhconv(s, zhconv::Variant::ZhHans)
}

/// `body` with every string of `strips` removed, in order.
pub open spec fn stripped(body: Seq<char>, strips: Seq<Seq<char>>) -> Seq<char>
    decreases strips.len(),
{
    if strips.len() == 0 {
        body
    } else {
        replace_all(stripped(body, strips.drop_last()), strips.last(), Seq::empty())
    }
}

/// The text file: title, author and date lines (the last two only when present), a blank
/// line, then the body.
pub open spec fn text_doc(title: Seq<char>, author: Seq<char>, date: Seq<char>, body: Seq<char>) -> Seq<char> {
    title + "\n"@ + (if author.len() > 0 {
        author + "\n"@
    } else {
        Seq::empty()
    }) + (if date.len() > 0 {
        date + "\n"@
    } else {
        Seq::empty()
    }) + "\n"@ + body
}

/// Joins the parts, strips, converts (when `convert` is `simplify`, body and title) and
/// wraps the body with its header; an all-white-space body is `nothing extracted`.
pub open spec fn finish_spec(
    title: Seq<char>,
    author: Seq<char>,
    date: Seq<char>,
    parts: Seq<Seq<char>>,
    strips: Seq<Seq<char>>,
    convert: Option<Seq<char>>,
    sep: Seq<char>,
) -> Result<(Seq<char>, Seq<char>), Seq<char>> {
    let body0 = stripped(join_spec(parts, sep), strips);
    let simplify = convert == Some("simplify"@);
    let body = if simplify {
        zh_hans(body0)
    } else {
        body0
    };
    let t = if simplify {
        zh_hans(title)
    } else {
        title
    };
    if trim(body).len() == 0 {
        Err("nothing extracted"@)
    } else {
        Ok((t, text_doc(t, author, date, body)))
    }
}

/// The view of a text extraction result.
pub open spec fn text_result_view(r: Result<(String, Extracted), String>) -> Result<(Seq<char>, Seq<char>), Seq<char>> {
    match r {
        Ok((t, Extracted::Text(x))) => Ok((t@, x@)),
        Ok((t, _)) => Ok((t@, Seq::empty())),
        Err(e) => Err(e@),
    }
}

/// Whether the result of a text extraction holds text (or is an error).
pub open spec fn is_text_result(r: Result<(String, Extracted), String>) -> bool {
    match r {
        Ok((_, Extracted::Text(_))) => true,
        Ok(_) => false,
        Err(_) => true,
    }
}

/// Finishes a text extraction (see `finish_spec`).
pub fn finish_text(
    title: String,
    author: String,
    date: String,
    parts: &Vec<String>,
    t: &TextRules,
    sep: &str,
) -> (r: Result<(String, Extracted), String>)
    ensures
        is_text_result(r),
        text_result_view(r) == finish_spec(
            title@,
            author@,
            date@,
            str_views(parts@),
            str_views(t.strip@),
            opt_view(t.convert),
            sep@,
        ),
{
    let strip = &t.strip;
    let mut body = join_strings(parts, sep);
    let ghost joined = body@;
    let empty: Vec<char> = Vec::new();
    for i in 0..strip.len()
        invariant
            empty@ == Seq::<char>::empty(),
            body@ == stripped(joined, str_views(strip@).take(i as int)),
    {
        assert(str_views(strip@).take(i + 1).drop_last() =~= str_views(strip@).take(i as int));
        body = replace_chars(&body, &chars_of(strip[i].as_str()), &empty);
    }
    assert(str_views(strip@).take(strip@.len() as int) =~= str_views(strip@));
    let simplify = match &t.convert {
        Some(c) => str_equal(c.as_str(), "simplify"),
        None => false,
    };
    let mut title = title;
    let mut body_s = string_of(body.as_slice());
    if simplify {
        body_s = to_simplified(body_s.as_str());
        title = to_simplified(title.as_str());
    }
    if trim_str(body_s.as_str()).unicode_len() == 0 {
        return Err(String::from_str("nothing extracted"));
    }
    let mut out = chars_of(title.as_str());
    out.push('\n');
    if author.unicode_len() > 0 {
        extend_chars(&mut out, &chars_of(author.as_str()));
        out.push('\n');
    }
    if date.unicode_len() > 0 {
        extend_chars(&mut out, &chars_of(date.as_str()));
        out.push('\n');
    }
    out.push('\n');
    extend_chars(&mut out, &chars_of(body_s.as_str()));
    proof {
        reveal_strlit("\n");
    }
    assert(out@ =~= text_doc(title@, author@, date@, body_s@));
    Ok((title, Extracted::Text(string_of(out.as_slice()))))
}

} // verus!

verus! {

/// Page HTML without `<style>` and `<script>` blocks, for reading its structure.
pub open spec fn strip_noise_spec(html: Seq<char>) -> Seq<char> {
    strip_pattern(script_pattern(), strip_pattern(style_pattern(), html))
}

/// Removes `<style>` and `<script>` blocks from page HTML.
pub fn strip_noise(html: &str) -> (r: String)
    ensures
        r@ == strip_noise_spec(html@),
{
    let h = strip_blocks(String::from_str(html), "(?s)<style[^>]*>.*?</style>");
    strip_blocks(h, "(?s)<script[^>]*>.*?</script>")
}

} // verus!
