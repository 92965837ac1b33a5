//! Global settings and per-site source definitions (one TOML file per source).
//!
//! These are the plain data that the loader fills; custom request headers are
//! held as a list of (name, value) pairs, one pair per distinct name.
use vstd::prelude::*;

verus! {

/// The global settings (`settings.toml`).
pub struct Settings {
    pub general: GeneralSettings,
    pub download: DownloadSettings,
    pub advanced: AdvancedSettings,
}

/// Where results go and how their directories are named.
pub struct GeneralSettings {
    pub download_dir: String,
    pub dir_naming: String,
    pub dir_collision: String,
}

/// Image download tuning.
pub struct DownloadSettings {
    pub max_concurrent: usize,
    pub timeout: u64,
    pub retries: u32,
}

/// Platform-specific tuning.
pub struct AdvancedSettings {
    pub clipboard_poll_ms: u64,
}

/// The default of a source's `enabled` flag.
pub fn default_true() -> (r: bool)
    ensures
        r,
{
    true
}

/// The default `get` of a field or column: the element's text.
pub fn default_get() -> (r: String)
    ensures
        r@ == "text"@,
{
    String::from_str("text")
}

/// One field extraction: locate (selector), get (text, HTML or `@attribute`), purify (regex).
#[derive(Clone)]
pub struct Field {
    pub selector: String,
    pub get: String,
    pub regex: Option<String>,
    pub replace: Option<String>,
    pub engine: Option<String>,
}

/// One CSV column, located relative to the row element (`None`: the row itself).
#[derive(Clone)]
pub struct Column {
    pub name: String,
    pub selector: Option<String>,
    pub get: String,
    pub regex: Option<String>,
    pub replace: Option<String>,
}

/// How further pages are found: `query`, `path` or `next_link`.
#[derive(Clone)]
pub struct Pagination {
    pub kind: String,
    pub param: Option<String>,
    pub start: Option<usize>,
    pub end: Option<usize>,
    pub next: Option<String>,
    pub max: Option<usize>,
}

/// Rules of a `data` source: rows and their columns.
#[derive(Clone)]
pub struct DataRules {
    pub container: Option<String>,
    pub row: String,
    pub columns: Vec<Column>,
}

/// Several blocks of text on one page (forum posts, sections).
#[derive(Clone)]
pub struct Sections {
    pub each: String,
    pub title: Option<String>,
    pub date: Option<String>,
    pub content: String,
    pub get: Option<String>,
}

/// A table of contents whose links lead to chapter pages.
#[derive(Clone)]
pub struct Chapters {
    pub links: String,
    pub title: Option<String>,
    pub content: String,
    pub get: Option<String>,
}

/// Rules of a `text` source.
#[derive(Clone)]
pub struct TextRules {
    pub title: Option<String>,
    pub author: Option<String>,
    pub date: Option<String>,
    pub content: Option<String>,
    pub get: Option<String>,
    pub sections: Option<Sections>,
    pub chapters: Option<Chapters>,
    pub convert: Option<String>,
    pub strip: Vec<String>,
}

/// Detail pages reached from a listing page, and the images on them.
#[derive(Clone)]
pub struct ImageDetail {
    pub link: String,
    pub container: Option<String>,
    pub images: Vec<Field>,
    pub exclude: Vec<String>,
    pub combine: Option<String>,
}

/// Rules of an `image` source.
#[derive(Clone)]
pub struct ImageRules {
    pub container: Option<String>,
    pub images: Vec<Field>,
    pub exclude: Vec<String>,
    pub detail: Option<ImageDetail>,
    pub combine: Option<String>,
}

/// One site: how it is recognised and how it is extracted.
#[derive(Clone)]
pub struct Source {
    pub name: String,
    pub kind: String,
    pub domains: Vec<String>,
    pub match_: Option<String>,
    pub enabled: bool,
    pub format: Option<String>,
    /// Extra request headers, one pair per distinct name; values may use `${NAME}`.
    pub headers: Vec<(String, String)>,
    pub output: Option<String>,
    pub delay_ms: Option<u64>,
    pub pagination: Option<Pagination>,
    pub data: Option<DataRules>,
    pub text: Option<TextRules>,
    pub image: Option<ImageRules>,
}

/// The effective output of a source: its `output`, else `csv` for data, `txt` for text
/// and `files` for everything else.
pub open spec fn output_of(output: Option<Seq<char>>, kind: Seq<char>) -> Seq<char> {
    match output {
        Some(o) => o,
        None => if kind == "data"@ {
            "csv"@
        } else if kind == "text"@ {
            "txt"@
        } else {
            "files"@
        },
    }
}

impl Source {
    /// The effective output of this source (see `output_of`).
    pub fn output(&self) -> (r: &str)
        ensures
            r@ == output_of(crate::text::opt_view(self.output), self.kind@),
    {
        match &self.output {
            Some(o) => o.as_str(),
            None => {
                if crate::text::str_equal(self.kind.as_str(), "data") {
                    "csv"
                } else if crate::text::str_equal(self.kind.as_str(), "text") {
                    "txt"
                } else {
                    "files"
                }
            },
        }
    }
}

} // verus!

verus! {

/// Whether a file name has the extension `toml` (`Path::extension`: the part after the last
/// dot, when something precedes that dot).
pub open spec fn has_toml_extension(name: Seq<char>) -> bool {
    let p = crate::util::last_pos(name, '.');
    p > 0 && name.skip(p + 1) == "toml"@
}

/// The source files among the names in the sources directory: those with the extension
/// `toml`, sorted (the order in which a URL's matching source is searched).
pub fn source_files(names: Vec<String>) -> (r: Vec<String>)
    ensures
        crate::order::strictly_sorted(crate::order::strs(r@)),
        crate::order::strs(r@).to_set() == crate::order::strs(names@).to_set().filter(
            |n: Seq<char>| has_toml_extension(n),
        ),
{
    let mut keep: Vec<String> = Vec::new();
    let ghost nv = crate::order::strs(names@);
    for i in 0..names.len()
        invariant
            nv == crate::order::strs(names@),
            crate::order::strs(keep@).to_set() == nv.take(i as int).to_set().filter(|n: Seq<char>| has_toml_extension(n)),
    {
        let ghost before = keep@;
        let v = crate::text::chars_of(names[i].as_str());
        let vl = v.len();
        let ok = match crate::util::find_last(&v, '.') {
            Some(p) => p > 0 && crate::text::chars_equal(&crate::util::skip_chars(&v, p + 1), &crate::text::chars_of("toml")),
            None => false,
        };
        proof {
            assert(nv.take(i + 1) =~= nv.take(i as int).push(nv[i as int]));
            crate::order::lemma_push_to_set(nv.take(i as int), nv[i as int]);
        }
        if ok {
            let x = names[i].clone();
            keep.push(x);
            proof {
                assert(crate::order::strs(keep@) =~= crate::order::strs(before).push(x@));
                crate::order::lemma_push_to_set(crate::order::strs(before), x@);
                assert(crate::order::strs(keep@).to_set() =~= nv.take(i + 1).to_set().filter(|n: Seq<char>| has_toml_extension(n)));
            }
        } else {
            proof {
                assert(nv.take(i as int).to_set().filter(|n: Seq<char>| has_toml_extension(n)) =~= nv.take(i + 1).to_set().filter(|n: Seq<char>| has_toml_extension(n)));
            }
        }
    }
    assert(nv.take(names@.len() as int) =~= nv);
    crate::order::sort_dedup(keep)
}

/// The sources that are enabled, in order.
pub open spec fn enabled_spec(sources: Seq<Source>) -> Seq<Source>
    decreases sources.len(),
{
    if sources.len() == 0 {
        Seq::empty()
    } else {
        let prev = enabled_spec(sources.drop_last());
        if sources.last().enabled {
            prev.push(sources.last())
        } else {
            prev
        }
    }
}

/// Keeps the enabled sources, in order.
pub fn enabled_sources(sources: Vec<Source>) -> (r: Vec<Source>)
    ensures
        r@ == enabled_spec(sources@),
{
    let mut out: Vec<Source> = Vec::new();
    let mut rest = sources;
    let ghost all = rest@;
    let mut i: usize = 0;
    let n = rest.len();
    assert(rest@ =~= all.skip(0));
    while rest.len() > 0
        invariant
            n == all.len(),
            i + rest@.len() == all.len(),
            rest@ == all.skip(i as int),
            out@ == enabled_spec(all.take(i as int)),
        decreases rest.len(),
    {
        let s = rest.remove(0);
        assert(s == all[i as int]);
        assert(all.take(i + 1).drop_last() =~= all.take(i as int));
        assert(rest@ =~= all.skip(i + 1));
        if s.enabled {
            out.push(s);
        }
        i = i + 1;
    }
    assert(all.take(all.len() as int) =~= all);
    out
}

} // verus!
