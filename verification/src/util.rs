//! Cross-cutting helpers: URL tests and resolution, file names, headers and templates.
use vstd::prelude::*;

use crate::html::{self, Css, Document, css_parses, doc_select, elem_text};
use crate::config::Source;
use crate::weburl::{WebUrl, url_host, url_join, url_parse};

use crate::text::{
    alphanumeric, chars_equal, ends_with, eq_ignore_ascii_case, has_suffix, lowercase, opt_view,
    str_eq_ignore_ascii_case, str_equal, to_lowercase, chars_of, contains, extend_chars, find_first, first_from, trim_str, decimal, find_from, has_prefix, is_alphanumeric, parse_u64,
    parse_u64_chars, split_char, split_whitespace, words,
    split_chars, split_from, starts_with, string_of, trim, trim_chars, zero_pad, zero_padded,
};

verus! {

/// Whether `s`, trimmed, starts with `http://` or `https://` and contains a dot.
pub open spec fn is_url_spec(s: Seq<char>) -> bool {
    let t = trim(s);
    (starts_with(t, "http://"@) || starts_with(t, "https://"@)) && contains(t, "."@)
}

/// Whether the clipboard text `s` looks like a web URL.
pub fn is_url(s: &str) -> (r: bool)
    ensures
        r == is_url_spec(s@),
{
    let t = trim_chars(&chars_of(s));
    (has_prefix(&t, &chars_of("http://")) || has_prefix(&t, &chars_of("https://"))) && match find_from(
        &t,
        &chars_of("."),
        0,
    ) {
        Some(_) => true,
        None => false,
    }
}

/// A control character (Unicode general category `Cc`).
pub open spec fn is_control(c: char) -> bool {
    (c as u32) <= 0x1F || (0x7F <= (c as u32) && (c as u32) <= 0x9F)
}

/// Characters that file names may not hold; they become `_`.
pub open spec fn forbidden_in_name(c: char) -> bool {
    is_control(c) || c == '/' || c == ':' || c == '*' || c == '?' || c == '"' || c == '<' || c
        == '>' || c == '|' || c == '\\'
}

/// `s` with every forbidden character replaced by `_`.
pub open spec fn replace_forbidden(s: Seq<char>) -> Seq<char> {
    s.map_values(|c: char| if forbidden_in_name(c) { '_' } else { c })
}

/// `s` without leading occurrences of `ch`.
pub open spec fn strip_start(s: Seq<char>, ch: char) -> Seq<char>
    decreases s.len(),
{
    if s.len() > 0 && s[0] == ch {
        strip_start(s.drop_first(), ch)
    } else {
        s
    }
}

/// `s` without trailing occurrences of `ch`.
pub open spec fn strip_end(s: Seq<char>, ch: char) -> Seq<char>
    decreases s.len(),
{
    if s.len() > 0 && s.last() == ch {
        strip_end(s.drop_last(), ch)
    } else {
        s
    }
}

/// The file-name form of `name`: forbidden characters become `_`, surrounding white space
/// and dots go, an empty result becomes `untitled`, and at most 100 characters are kept.
pub open spec fn sanitize_spec(name: Seq<char>) -> Seq<char> {
    let t = strip_end(strip_start(trim(replace_forbidden(name)), '.'), '.');
    if t.len() == 0 {
        "untitled"@
    } else if t.len() > 100 {
        t.take(100)
    } else {
        t
    }
}

fn strip_chars(v: &Vec<char>, ch: char) -> (r: Vec<char>)
    ensures
        r@ == strip_end(strip_start(v@, ch), ch),
{
    let mut i: usize = 0;
    assert(v@.skip(0) =~= v@);
    while i < v.len() && v[i] == ch
        invariant
            i <= v@.len(),
            strip_start(v@, ch) == strip_start(v@.skip(i as int), ch),
        decreases v.len() - i,
    {
        assert(v@.skip(i as int).drop_first() =~= v@.skip(i + 1));
        i = i + 1;
    }
    let mut j: usize = v.len();
    assert(v@.skip(i as int) =~= v@.subrange(i as int, j as int));
    while j > i && v[j - 1] == ch
        invariant
            i <= j <= v@.len(),
            strip_start(v@, ch) == v@.subrange(i as int, v@.len() as int),
            strip_end(strip_start(v@, ch), ch) == strip_end(v@.subrange(i as int, j as int), ch),
        decreases j,
    {
        assert(v@.subrange(i as int, j as int).drop_last() =~= v@.subrange(i as int, j - 1));
        j = j - 1;
    }
    let mut out: Vec<char> = Vec::new();
    let mut k: usize = i;
    while k < j
        invariant
            i <= k <= j <= v@.len(),
            out@ == v@.subrange(i as int, k as int),
        decreases j - k,
    {
        out.push(v[k]);
        assert(out@ =~= v@.subrange(i as int, k + 1));
        k = k + 1;
    }
    out
}

fn forbidden_char(c: char) -> (r: bool)
    ensures
        r == forbidden_in_name(c),
{
    let b = c as u32;
    b <= 0x1F || (0x7F <= b && b <= 0x9F) || c == '/' || c == ':' || c == '*' || c == '?' || c
        == '"' || c == '<' || c == '>' || c == '|' || c == '\\'
}

/// Turns a page title into a safe directory or file name.
pub fn sanitize_filename(name: &str) -> (r: String)
    ensures
        r@ == sanitize_spec(name@),
{
    let v = chars_of(name);
    let mut m: Vec<char> = Vec::new();
    for i in 0..v.len()
        invariant
            v@ == name@,
            m@ == replace_forbidden(v@.take(i as int)),
    {
        let c = v[i];
        m.push(if forbidden_char(c) { '_' } else { c });
        assert(m@ =~= replace_forbidden(v@.take(i + 1)));
    }
    assert(v@.take(v@.len() as int) =~= v@);
    let t = strip_chars(&trim_chars(&m), '.');
    if t.len() == 0 {
        String::from_str("untitled")
    } else if t.len() > 100 {
        string_of(&t.as_slice()[0..100])
    } else {
        string_of(t.as_slice())
    }
}

/// The number of bytes of the UTF-8 encoding of `c`.
pub open spec fn utf8_width(c: char) -> nat {
    if (c as u32) < 0x80 {
        1
    } else if (c as u32) < 0x800 {
        2
    } else if (c as u32) < 0x10000 {
        3
    } else {
        4
    }
}

/// The number of bytes of the UTF-8 encoding of `s` (`str::len`).
pub open spec fn utf8_len(s: Seq<char>) -> nat
    decreases s.len(),
{
    if s.len() == 0 {
        0
    } else {
        utf8_len(s.drop_last()) + utf8_width(s.last())
    }
}

proof fn lemma_utf8_len_at_least(s: Seq<char>)
    ensures
        utf8_len(s) >= s.len(),
    decreases s.len(),
{
    if s.len() > 0 {
        lemma_utf8_len_at_least(s.drop_last());
    }
}

/// Whether the UTF-8 encoding of `v` is longer than one byte.
fn longer_than_one_byte(v: &Vec<char>) -> (r: bool)
    ensures
        r == (utf8_len(v@) > 1),
{
    proof {
        lemma_utf8_len_at_least(v@);
        if v@.len() == 1 {
            assert(v@.drop_last() =~= Seq::<char>::empty());
            assert(utf8_len(v@.drop_last()) == 0);
            assert(utf8_len(v@) == utf8_width(v@[0]));
        }
    }
    v.len() >= 2 || (v.len() == 1 && (v[0] as u32) >= 0x80)
}

/// The position of the last `c` in `s`, or -1.
pub open spec fn last_pos(s: Seq<char>, c: char) -> int
    decreases s.len(),
{
    if s.len() == 0 {
        -1
    } else if s.last() == c {
        s.len() - 1
    } else {
        last_pos(s.drop_last(), c)
    }
}

proof fn lemma_last_pos(s: Seq<char>, c: char)
    ensures
        -1 <= last_pos(s, c) < s.len(),
        last_pos(s, c) >= 0 ==> s[last_pos(s, c)] == c,
        last_pos(s, c) == -1 <==> !s.contains(c),
    decreases s.len(),
{
    if s.len() > 0 {
        lemma_last_pos(s.drop_last(), c);
        if s.last() != c {
            if s.drop_last().contains(c) {
                let k = choose|k: int| 0 <= k < s.drop_last().len() && s.drop_last()[k] == c;
                assert(s[k] == c);
            }
            if s.contains(c) {
                let k = choose|k: int| 0 <= k < s.len() && s[k] == c;
                assert(s.drop_last()[k] == c);
            }
        } else {
            assert(s[s.len() - 1] == c);
        }
    }
}

/// The position of the last `c` in `v`, if any.
pub fn find_last(v: &Vec<char>, c: char) -> (r: Option<usize>)
    ensures
        match r {
            Some(p) => p as int == last_pos(v@, c) && p < v@.len(),
            None => last_pos(v@, c) == -1,
        },
{
    let mut j: usize = v.len();
    assert(v@.take(j as int) =~= v@);
    while j > 0
        invariant
            j <= v@.len(),
            last_pos(v@, c) == last_pos(v@.take(j as int), c),
        decreases j,
    {
        assert(v@.take(j as int).drop_last() =~= v@.take(j - 1));
        if v[j - 1] == c {
            return Some(j - 1);
        }
        j = j - 1;
    }
    None
}

/// The piece of `url` before the first `?`.
pub open spec fn url_path(url: Seq<char>) -> Seq<char> {
    split_char(url, '?')[0]
}

/// The last `/`-separated piece of the path of `url`.
pub open spec fn url_file_name(url: Seq<char>) -> Seq<char> {
    split_char(url_path(url), '/').last()
}

/// `c` kept when it is alphanumeric, `-` or `_`, else `_`.
pub open spec fn clean_char(c: char) -> char {
    if alphanumeric(c) || c == '-' || c == '_' {
        c
    } else {
        '_'
    }
}

/// The file name under which image number `idx` of `url` is saved: `NNNN_stem.ext` when
/// the URL's last path piece has an extension and a stem longer than one byte, else `NNNN.ext`
/// (extension `.jpg` when there is none).
pub open spec fn filename_spec(url: Seq<char>, idx: nat) -> Seq<char> {
    let name = url_file_name(url);
    let p = last_pos(name, '.');
    let ext = if p >= 0 {
        name.skip(p)
    } else {
        ".jpg"@
    };
    let num = zero_pad(decimal(idx), 4);
    let clean = name.take(p).map_values(|c: char| clean_char(c));
    if name.len() > 0 && p >= 0 && utf8_len(clean) > 1 {
        num + "_"@ + clean + ext
    } else {
        num + ext
    }
}

proof fn lemma_split_nonempty(s: Seq<char>, c: char, cur: Seq<char>)
    ensures
        split_from(s, c, cur).len() > 0,
    decreases s.len(),
{
    if s.len() > 0 {
        if s[0] == c {
            lemma_split_nonempty(s.drop_first(), c, Seq::empty());
        } else {
            lemma_split_nonempty(s.drop_first(), c, cur.push(s[0]));
        }
    }
}

/// The name of the file that image number `idx`, from `url`, is saved under.
pub fn filename_from_url(url: &str, idx: usize) -> (r: String)
    ensures
        r@ == filename_spec(url@, idx as nat),
{
    let uv = chars_of(url);
    let pieces = split_chars(&uv, '?');
    proof {
        lemma_split_nonempty(uv@, '?', Seq::empty());
    }
    let path = &pieces[0];
    let segs = split_chars(path, '/');
    proof {
        lemma_split_nonempty(path@, '/', Seq::empty());
    }
    let name = &segs[segs.len() - 1];
    let dot = find_last(name, '.');
    let num = zero_padded(idx as u64, 4);
    let mut ext: Vec<char> = Vec::new();
    let mut stem: Vec<char> = Vec::new();
    match dot {
        Some(p) => {
            let mut k: usize = p;
            while k < name.len()
                invariant
                    p <= k <= name@.len(),
                    ext@ == name@.subrange(p as int, k as int),
                decreases name.len() - k,
            {
                ext.push(name[k]);
                assert(ext@ =~= name@.subrange(p as int, k + 1));
                k = k + 1;
            }
            assert(name@.skip(p as int) =~= ext@);
            for i in 0..p
                invariant
                    p < name@.len(),
                    stem@ == name@.take(i as int).map_values(|c: char| clean_char(c)),
            {
                let c = name[i];
                let keep = is_alphanumeric(c) || c == '-' || c == '_';
                stem.push(if keep { c } else { '_' });
                assert(stem@ =~= name@.take(i + 1).map_values(|c: char| clean_char(c)));
            }
        },
        None => {
            ext = chars_of(".jpg");
        },
    }
    let ghost nm = name@;
    let ghost p_spec = last_pos(nm, '.');
    proof {
        match dot {
            Some(p) => {
                assert(ext@ == nm.skip(p_spec));
                assert(stem@ == nm.take(p_spec).map_values(|c: char| clean_char(c)));
            },
            None => {
                assert(ext@ == ".jpg"@);
            },
        }
        assert(url_path(url@) == path@);
        assert(url_file_name(url@) == nm);
        reveal_strlit("_");
    }
    let mut out = num;
    if name.len() > 0 && dot.is_some() && longer_than_one_byte(&stem) {
        out.push('_');
        let ghost o1 = out@;
        let mut k: usize = 0;
        while k < stem.len()
            invariant
                k <= stem@.len(),
                out@ == o1 + stem@.take(k as int),
            decreases stem.len() - k,
        {
            out.push(stem[k]);
            assert(out@ =~= o1 + stem@.take(k + 1));
            k = k + 1;
        }
        assert(stem@.take(stem@.len() as int) =~= stem@);
    }
    let ghost o2 = out@;
    let mut k: usize = 0;
    while k < ext.len()
        invariant
            k <= ext@.len(),
            out@ == o2 + ext@.take(k as int),
        decreases ext.len() - k,
    {
        out.push(ext[k]);
        assert(out@ =~= o2 + ext@.take(k + 1));
        k = k + 1;
    }
    assert(ext@.take(ext@.len() as int) =~= ext@);
    string_of(out.as_slice())
}

} // verus!

verus! {

/// Whether `density` can be called on any string and gives equal weights for equal strings.
pub open spec fn density_ok<D: Fn(&str) -> u64>(density: D) -> bool {
    &&& forall|a: &str| #[trigger] call_requires(density, (a,))
    &&& forall|a: &str, b: &str, w1: u64, w2: u64|
        a@ == b@ && #[trigger] call_ensures(density, (a,), w1) && #[trigger] call_ensures(
            density,
            (b,),
            w2,
        ) ==> w1 == w2
}

/// The weight that `density` gives the number text `t` of an `x` descriptor.
pub open spec fn density_of<D: Fn(&str) -> u64>(density: D, t: Seq<char>) -> u64 {
    (choose|a: &str, w: u64| a@ == t && #[trigger] call_ensures(density, (a,), w)).1
}

/// Calls `density` on `t`; the result is `density_of(density, t@)`.
fn call_density<D: Fn(&str) -> u64>(density: &D, t: &String) -> (w: u64)
    requires
        density_ok(*density),
    ensures
        w == density_of(*density, t@),
{
    let a = t.as_str();
    let w = density(a);
    proof {
        assert(exists|b: &str, v: u64| b@ == t@ && call_ensures(*density, (b,), v)) by {
            assert(a@ == t@ && call_ensures(*density, (a,), w));
        }
    }
    w
}

/// The weight of a `srcset` descriptor: `<n>w` weighs `n` (0 if `n` is no `u64`), `<d>x`
/// weighs what the density function gives `d`, anything else weighs 0.
pub open spec fn descriptor_weight(desc: Seq<char>, dens: spec_fn(Seq<char>) -> u64) -> u64 {
    if desc.len() > 0 && desc.last() == 'w' {
        match parse_u64(desc.drop_last()) {
            Some(n) => n,
            None => 0,
        }
    } else if desc.len() > 0 && desc.last() == 'x' {
        dens(desc.drop_last())
    } else {
        0
    }
}

/// The first word of `s` (or the empty string).
pub open spec fn word_at(s: Seq<char>, i: int) -> Seq<char> {
    let ws = words(trim(s));
    if 0 <= i < ws.len() {
        ws[i]
    } else {
        Seq::empty()
    }
}

/// The best candidate among `parts` (URL, weight): the last one of the greatest weight,
/// starting from an empty URL of weight 0.
pub open spec fn srcset_fold(parts: Seq<Seq<char>>, dens: spec_fn(Seq<char>) -> u64) -> (Seq<char>, u64)
    decreases parts.len(),
{
    if parts.len() == 0 {
        (Seq::empty(), 0)
    } else {
        let prev = srcset_fold(parts.drop_last(), dens);
        let p = parts.last();
        let w = descriptor_weight(word_at(p, 1), dens);
        if w >= prev.1 {
            (word_at(p, 0), w)
        } else {
            prev
        }
    }
}

/// The URL that a `srcset` value resolves to: the heaviest candidate (the last of equal
/// weight); when that URL is empty, the first word of the last candidate.
pub open spec fn srcset_best(s: Seq<char>, dens: spec_fn(Seq<char>) -> u64) -> Seq<char> {
    let parts = split_char(s, ',');
    let best = srcset_fold(parts, dens).0;
    if best.len() == 0 {
        word_at(parts.last(), 0)
    } else {
        best
    }
}

fn word_of(part: &Vec<char>, i: usize) -> (r: Vec<char>)
    ensures
        r@ == word_at(part@, i as int),
{
    let ws = split_whitespace(&trim_chars(part));
    if i < ws.len() {
        ws[i].clone()
    } else {
        Vec::new()
    }
}

fn weight_of<D: Fn(&str) -> u64>(desc: &Vec<char>, density: &D) -> (w: u64)
    requires
        density_ok(*density),
    ensures
        w == descriptor_weight(desc@, |t: Seq<char>| density_of(*density, t)),
{
    if desc.len() > 0 && desc[desc.len() - 1] == 'w' {
        let d = prefix_of(desc, desc.len() - 1);
        assert(d@ =~= desc@.drop_last());
        match parse_u64_chars(&d) {
            Some(n) => n,
            None => 0,
        }
    } else if desc.len() > 0 && desc[desc.len() - 1] == 'x' {
        let d = prefix_of(desc, desc.len() - 1);
        assert(d@ =~= desc@.drop_last());
        call_density(density, &string_of(d.as_slice()))
    } else {
        0
    }
}

/// The first `n` characters of `v`.
pub fn prefix_of(v: &Vec<char>, n: usize) -> (r: Vec<char>)
    requires
        n <= v@.len(),
    ensures
        r@ == v@.take(n as int),
{
    let mut out: Vec<char> = Vec::new();
    for k in 0..n
        invariant
            n <= v@.len(),
            out@ == v@.take(k as int),
    {
        out.push(v[k]);
        assert(out@ =~= v@.take(k + 1));
    }
    out
}

/// Picks the best candidate URL of a `srcset` attribute value; `density` weighs the number
/// of an `x` descriptor (the caller computes `number × 1000`).
pub fn parse_srcset_best<D: Fn(&str) -> u64>(s: &str, density: &D) -> (r: String)
    requires
        density_ok(*density),
    ensures
        r@ == srcset_best(s@, |t: Seq<char>| density_of(*density, t)),
{
    let ghost dens = |t: Seq<char>| density_of(*density, t);
    let parts = split_chars(&chars_of(s), ',');
    proof {
        lemma_split_nonempty(s@, ',', Seq::empty());
    }
    let mut best_url: Vec<char> = Vec::new();
    let mut best_w: u64 = 0;
    for i in 0..parts.len()
        invariant
            density_ok(*density),
            dens == (|t: Seq<char>| density_of(*density, t)),
            crate::text::views(parts@) == split_char(s@, ','),
            (best_url@, best_w) == srcset_fold(crate::text::views(parts@).take(i as int), dens),
    {
        let ghost pv = crate::text::views(parts@);
        assert(pv.take(i + 1).drop_last() =~= pv.take(i as int));
        assert(pv.take(i + 1).last() == parts@[i as int]@);
        let url = word_of(&parts[i], 0);
        let desc = word_of(&parts[i], 1);
        let w = weight_of(&desc, density);
        if w >= best_w {
            best_w = w;
            best_url = url;
        }
    }
    assert(crate::text::views(parts@).take(parts@.len() as int) =~= crate::text::views(parts@));
    if best_url.len() == 0 {
        string_of(word_of(&parts[parts.len() - 1], 0).as_slice())
    } else {
        string_of(best_url.as_slice())
    }
}

} // verus!

verus! {

/// An absolute or protocol-relative URL is kept (the latter on https); anything else is
/// joined to `base`, and is empty when `base` is no URL or the join fails.
pub open spec fn resolve_spec(u: Seq<char>, base: Seq<char>) -> Seq<char> {
    if starts_with(u, "http"@) {
        u
    } else if starts_with(u, "//"@) {
        "https:"@ + u
    } else {
        match url_parse(base) {
            Some(b) => match url_join(b, u) {
                Some(x) => x,
                None => Seq::empty(),
            },
            None => Seq::empty(),
        }
    }
}

/// Resolves a link found on the page at `base` to an absolute URL (empty when it cannot).
pub fn resolve_url(u: &str, base: &str) -> (r: String)
    ensures
        r@ == resolve_spec(u@, base@),
{
    let uv = chars_of(u);
    if has_prefix(&uv, &chars_of("http")) {
        return String::from_str(u);
    }
    if has_prefix(&uv, &chars_of("//")) {
        let mut r = String::from_str("https:");
        r.append(u);
        return r;
    }
    match WebUrl::parse(base) {
        Some(b) => match b.join(u) {
            Some(x) => x,
            None => String::new(),
        },
        None => String::new(),
    }
}

/// The trimmed text of the document's first `<title>`, or `untitled`.
pub open spec fn title_spec(html: Seq<char>) -> Seq<char> {
    if css_parses("title"@) && doc_select(html, "title"@).len() > 0 {
        trim(elem_text(html, doc_select(html, "title"@)[0]))
    } else {
        "untitled"@
    }
}

/// The document's title.
pub fn extract_title(doc: &Document) -> (r: String)
    ensures
        r@ == title_spec(doc@),
{
    match Css::parse("title") {
        Some(css) => {
            let found = html::select(doc, &css);
            if found.len() > 0 {
                trim_str(html::text(doc, found[0]).as_str())
            } else {
                String::from_str("untitled")
            }
        },
        None => String::from_str("untitled"),
    }
}

/// The (name, value) views of a list of string pairs.
pub open spec fn pair_views(v: Seq<(String, String)>) -> Seq<(Seq<char>, Seq<char>)> {
    v.map_values(|p: (String, String)| (p.0@, p.1@))
}

/// The value of the first pair named `name`, or the empty string (an unset variable).
pub open spec fn env_lookup(env: Seq<(Seq<char>, Seq<char>)>, name: Seq<char>) -> Seq<char>
    decreases env.len(),
{
    if env.len() == 0 {
        Seq::empty()
    } else if env[0].0 == name {
        env[0].1
    } else {
        env_lookup(env.drop_first(), name)
    }
}

/// `s` with each `${NAME}` replaced by the value of `NAME` in `env` (empty when unset),
/// left to right; from an opening `${` without a closing `}` on, `s` stays literal.
pub open spec fn expand_spec(s: Seq<char>, env: Seq<(Seq<char>, Seq<char>)>) -> Seq<char>
    decreases s.len(),
{
    let st = first_from(s, "${"@, 0);
    if 0 <= st && st + 2 <= s.len() {
        let rest = s.skip(st + 2);
        let e = first_from(rest, "}"@, 0);
        if 0 <= e < rest.len() {
            s.take(st) + env_lookup(env, rest.take(e)) + expand_spec(rest.skip(e + 1), env)
        } else {
            s
        }
    } else {
        s
    }
}

/// The names that `expand_spec` looks up in `s`, in order.
pub open spec fn env_refs(s: Seq<char>) -> Seq<Seq<char>>
    decreases s.len(),
{
    let st = first_from(s, "${"@, 0);
    if 0 <= st && st + 2 <= s.len() {
        let rest = s.skip(st + 2);
        let e = first_from(rest, "}"@, 0);
        if 0 <= e < rest.len() {
            seq![rest.take(e)] + env_refs(rest.skip(e + 1))
        } else {
            Seq::empty()
        }
    } else {
        Seq::empty()
    }
}

fn lookup(env: &Vec<(String, String)>, name: &Vec<char>) -> (r: Vec<char>)
    ensures
        r@ == env_lookup(pair_views(env@), name@),
{
    let mut i: usize = 0;
    let ghost pv = pair_views(env@);
    assert(pv.skip(0) =~= pv);
    while i < env.len()
        invariant
            i <= env@.len(),
            pv == pair_views(env@),
            env_lookup(pv, name@) == env_lookup(pv.skip(i as int), name@),
        decreases env.len() - i,
    {
        assert(pv.skip(i as int).drop_first() =~= pv.skip(i + 1));
        assert(pv.skip(i as int)[0] == (env@[i as int].0@, env@[i as int].1@));
        let k = chars_of(env[i].0.as_str());
        if chars_equal(&k, name) {
            return chars_of(env[i].1.as_str());
        }
        i = i + 1;
    }
    Vec::new()
}

/// One step of `${NAME}` scanning: where the next reference starts and ends in `s[from..]`.
fn next_ref(s: &Vec<char>, from: usize) -> (r: Option<(usize, usize)>)
    requires
        from <= s@.len(),
    ensures
        ({
            let t = s@.skip(from as int);
            let st = first_from(t, "${"@, 0);
            match r {
                Some((a, b)) => 0 <= st && st + 2 <= t.len() && a == from + st && {
                    let rest = t.skip(st + 2);
                    let e = first_from(rest, "}"@, 0);
                    0 <= e < rest.len() && b == a + 2 + e && b < s@.len()
                },
                None => !(0 <= st && st + 2 <= t.len() && {
                    let rest = t.skip(st + 2);
                    let e = first_from(rest, "}"@, 0);
                    0 <= e < rest.len()
                }),
            }
        }),
{
    let t = skip_chars(s, from);
    proof {
        reveal_strlit("${");
        reveal_strlit("}");
    }
    let open = chars_of("${");
    let close = chars_of("}");
    assert(open@.len() == 2);
    let tlen = t.len();
    let slen = s.len();
    assert(t@.len() + from == s@.len());
    match find_first(&t, &open, 0) {
        Some(st) => {
            assert(st + 2 <= t@.len());
            let rest = skip_chars(&t, st + 2);
            match find_first(&rest, &close, 0) {
                Some(e) => {
                    if e < rest.len() {
                        assert(from + st + 2 + e < s@.len());
                        Some((from + st, from + st + 2 + e))
                    } else {
                        None
                    }
                },
                None => None,
            }
        },
        None => None,
    }
}

/// The characters of `v` from position `n` on.
pub fn skip_chars(v: &Vec<char>, n: usize) -> (r: Vec<char>)
    requires
        n <= v@.len(),
    ensures
        r@ == v@.skip(n as int),
{
    let mut out: Vec<char> = Vec::new();
    let mut k: usize = n;
    while k < v.len()
        invariant
            n <= k <= v@.len(),
            out@ == v@.subrange(n as int, k as int),
        decreases v.len() - k,
    {
        out.push(v[k]);
        assert(out@ =~= v@.subrange(n as int, k + 1));
        k = k + 1;
    }
    assert(v@.skip(n as int) =~= v@.subrange(n as int, v@.len() as int));
    out
}

/// Expands `${NAME}` references in `s` from the environment `env` (unset names expand to
/// nothing; an unclosed `${` is kept literally).
pub fn expand_env(s: &str, env: &Vec<(String, String)>) -> (r: String)
    ensures
        r@ == expand_spec(s@, pair_views(env@)),
{
    let v = chars_of(s);
    let ghost ev = pair_views(env@);
    let mut out: Vec<char> = Vec::new();
    let mut pos: usize = 0;
    let vlen = v.len();
    assert(v@.skip(0) =~= v@);
    loop
        invariant
            vlen == v@.len(),
            pos <= v@.len(),
            v@ == s@,
            ev == pair_views(env@),
            out@ + expand_spec(v@.skip(pos as int), ev) == expand_spec(v@, ev),
        decreases v@.len() - pos,
    {
        let ghost t = v@.skip(pos as int);
        match next_ref(&v, pos) {
            Some((a, b)) => {
                let name = slice_chars(&v, a + 2, b);
                let val = lookup(env, &name);
                let ghost st = a - pos;
                let ghost rest = t.skip(st + 2);
                assert(t.take(st) =~= v@.subrange(pos as int, a as int));
                assert(rest.take(b - a - 2) =~= name@);
                assert(rest.skip(b - a - 2 + 1) =~= v@.skip(b + 1));
                let pre = slice_chars(&v, pos, a);
                extend_chars(&mut out, &pre);
                extend_chars(&mut out, &val);
                assert(out@ + expand_spec(v@.skip(b + 1), ev) =~= (out@.take(out@.len() - val@.len() - pre@.len())) + expand_spec(t, ev));
                pos = b + 1;
            },
            None => {
                let rest = skip_chars(&v, pos);
                extend_chars(&mut out, &rest);
                return string_of(out.as_slice());
            },
        }
    }
}

/// The characters of `v` in `[a, b)`.
pub fn slice_chars(v: &Vec<char>, a: usize, b: usize) -> (r: Vec<char>)
    requires
        a <= b <= v@.len(),
    ensures
        r@ == v@.subrange(a as int, b as int),
{
    let mut out: Vec<char> = Vec::new();
    let mut k: usize = a;
    while k < b
        invariant
            a <= k <= b <= v@.len(),
            out@ == v@.subrange(a as int, k as int),
        decreases b - k,
    {
        out.push(v[k]);
        assert(out@ =~= v@.subrange(a as int, k + 1));
        k = k + 1;
    }
    out
}

/// The names of the environment variables that `s` refers to, in order.
pub fn env_var_names(s: &str) -> (r: Vec<String>)
    ensures
        r@.map_values(|n: String| n@) == env_refs(s@),
{
    let v = chars_of(s);
    let mut out: Vec<String> = Vec::new();
    let mut pos: usize = 0;
    let vlen = v.len();
    assert(v@.skip(0) =~= v@);
    loop
        invariant
            vlen == v@.len(),
            pos <= v@.len(),
            v@ == s@,
            out@.map_values(|n: String| n@) + env_refs(v@.skip(pos as int)) == env_refs(v@),
        decreases v@.len() - pos,
    {
        let ghost t = v@.skip(pos as int);
        match next_ref(&v, pos) {
            Some((a, b)) => {
                let name = slice_chars(&v, a + 2, b);
                let ghost st = a - pos;
                let ghost rest = t.skip(st + 2);
                assert(rest.take(b - a - 2) =~= name@);
                assert(rest.skip(b - a - 2 + 1) =~= v@.skip(b + 1));
                let ghost before = out@;
                let n = string_of(name.as_slice());
                out.push(n);
                assert(out@.map_values(|n: String| n@) =~= before.map_values(|n: String| n@).push(name@));
                assert(out@.map_values(|n: String| n@) + env_refs(v@.skip(b + 1)) =~= before.map_values(|n: String| n@) + env_refs(t));
                pos = b + 1;
            },
            None => {
                assert(out@.map_values(|n: String| n@) =~= out@.map_values(|n: String| n@) + env_refs(t));
                return out;
            },
        }
    }
}

} // verus!

verus! {

/// The headers of a source as sent: every pair but `User-Agent` (in any ASCII case), in
/// order, with `${NAME}` references in the values expanded from `env`.
pub open spec fn headers_spec(
    raw: Seq<(Seq<char>, Seq<char>)>,
    env: Seq<(Seq<char>, Seq<char>)>,
) -> Seq<(Seq<char>, Seq<char>)>
    decreases raw.len(),
{
    if raw.len() == 0 {
        Seq::empty()
    } else {
        let prev = headers_spec(raw.drop_last(), env);
        let p = raw.last();
        if eq_ignore_ascii_case(p.0, "user-agent"@) {
            prev
        } else {
            prev.push((p.0, expand_spec(p.1, env)))
        }
    }
}

/// Prepares a source's custom headers: drops `User-Agent` (left to the TLS emulation) and
/// expands `${NAME}` in the values from `env`.
pub fn build_headers(raw: &Vec<(String, String)>, env: &Vec<(String, String)>) -> (r: Vec<
    (String, String),
>)
    ensures
        pair_views(r@) == headers_spec(pair_views(raw@), pair_views(env@)),
{
    let mut out: Vec<(String, String)> = Vec::new();
    let ghost rv = pair_views(raw@);
    for i in 0..raw.len()
        invariant
            rv == pair_views(raw@),
            pair_views(out@) == headers_spec(rv.take(i as int), pair_views(env@)),
    {
        assert(rv.take(i + 1).drop_last() =~= rv.take(i as int));
        assert(rv.take(i + 1).last() == (raw@[i as int].0@, raw@[i as int].1@));
        let k = &raw[i].0;
        if !str_eq_ignore_ascii_case(k.as_str(), "user-agent") {
            let ghost before = out@;
            let v = expand_env(raw[i].1.as_str(), env);
            out.push((k.clone(), v));
            assert(pair_views(out@) =~= pair_views(before).push((raw@[i as int].0@, expand_spec(raw@[i as int].1@, pair_views(env@)))));
        }
    }
    assert(rv.take(raw@.len() as int) =~= rv);
    out
}

/// Whether `host` is the domain `d` (lower-cased) or one of its subdomains.
pub open spec fn domain_matches(host: Seq<char>, d: Seq<char>) -> bool {
    let dl = lowercase(d);
    host == dl || ends_with(host, "."@ + dl)
}

/// Whether a source (its domains and optional `match` substring) accepts the URL with
/// lower-cased host `host` and lower-cased text `lurl`.
pub open spec fn source_accepts(
    domains: Seq<Seq<char>>,
    match_: Option<Seq<char>>,
    host: Seq<char>,
    lurl: Seq<char>,
) -> bool {
    &&& exists|j: int| 0 <= j < domains.len() && domain_matches(host, #[trigger] domains[j])
    &&& match match_ {
        None => true,
        Some(m) => contains(lurl, lowercase(m)),
    }
}

/// Whether `sources[i]` accepts the URL.
pub open spec fn accepts_at(sources: Seq<Source>, i: int, host: Seq<char>, lurl: Seq<char>) -> bool {
    source_accepts(
        sources[i].domains@.map_values(|d: String| d@),
        opt_view(sources[i].match_),
        host,
        lurl,
    )
}

/// The lower-cased host of `url`, when `url` parses and has a host.
pub open spec fn url_lower_host(url: Seq<char>) -> Option<Seq<char>> {
    match url_parse(url) {
        Some(h) => match url_host(h) {
            Some(host) => Some(lowercase(host)),
            None => None,
        },
        None => None,
    }
}

fn domain_hit(host: &Vec<char>, d: &String) -> (r: bool)
    ensures
        r == domain_matches(host@, d@),
{
    let dl = chars_of(to_lowercase(d.as_str()).as_str());
    let mut dotted: Vec<char> = Vec::new();
    dotted.push('.');
    extend_chars(&mut dotted, &dl);
    proof {
        reveal_strlit(".");
        assert(dotted@ =~= "."@ + dl@);
    }
    chars_equal(host, &dl) || has_suffix(host, &dotted)
}

fn any_domain(domains: &Vec<String>, host: &Vec<char>) -> (r: bool)
    ensures
        r == exists|j: int|
            0 <= j < domains@.len() && domain_matches(host@, (#[trigger] domains@[j])@),
{
    let ghost dv = domains@.map_values(|d: String| d@);
    let mut j: usize = 0;
    while j < domains.len()
        invariant
            j <= domains@.len(),
            dv == domains@.map_values(|d: String| d@),
            forall|k: int| 0 <= k < j ==> !domain_matches(host@, (#[trigger] domains@[k])@),
        decreases domains.len() - j,
    {
        if domain_hit(host, &domains[j]) {
            assert(domain_matches(host@, dv[j as int]));
            return true;
        }
        j = j + 1;
    }
    false
}

fn accepts(src: &Source, host: &Vec<char>, lurl: &Vec<char>) -> (r: bool)
    ensures
        r == source_accepts(src.domains@.map_values(|d: String| d@), opt_view(src.match_), host@, lurl@),
{
    let hit = any_domain(&src.domains, host);
    proof {
        let dv = src.domains@.map_values(|d: String| d@);
        if hit {
            let j = choose|j: int| 0 <= j < src.domains@.len() && domain_matches(host@, (#[trigger] src.domains@[j])@);
            assert(domain_matches(host@, dv[j]));
        } else {
            assert forall|j: int| 0 <= j < dv.len() implies !domain_matches(host@, #[trigger] dv[j]) by {
                assert(dv[j] == src.domains@[j]@);
            }
        }
    }
    if !hit {
        return false;
    }
    match &src.match_ {
        None => true,
        Some(m) => {
            let ml = chars_of(to_lowercase(m.as_str()).as_str());
            match find_from(lurl, &ml, 0) {
                Some(_) => true,
                None => false,
            }
        },
    }
}

/// The first source that accepts `url`: the URL's host (lower-cased) equals one of the
/// source's domains (lower-cased) or ends with `.` and that domain, and the lower-cased URL
/// contains the source's lower-cased `match`, when it has one.
pub fn find_matching_source<'a>(sources: &'a Vec<Source>, url: &str) -> (r: Option<&'a Source>)
    ensures
        match url_lower_host(url@) {
            None => r is None,
            Some(host) => match r {
                Some(s) => exists|i: int|
                    0 <= i < sources@.len() && *s == sources@[i] && accepts_at(
                        sources@,
                        i,
                        host,
                        lowercase(url@),
                    ) && forall|k: int|
                        0 <= k < i ==> !accepts_at(sources@, k, host, lowercase(url@)),
                None => forall|k: int|
                    0 <= k < sources@.len() ==> !accepts_at(sources@, k, host, lowercase(url@)),
            },
        },
{
    let parsed = match WebUrl::parse(url) {
        Some(u) => u,
        None => return None,
    };
    let host_raw = match parsed.host() {
        Some(h) => h,
        None => return None,
    };
    let host = chars_of(to_lowercase(host_raw.as_str()).as_str());
    let lurl = chars_of(to_lowercase(url).as_str());
    let mut i: usize = 0;
    while i < sources.len()
        invariant
            i <= sources@.len(),
            url_lower_host(url@) == Some(host@),
            lurl@ == lowercase(url@),
            forall|k: int| 0 <= k < i ==> !accepts_at(sources@, k, host@, lurl@),
        decreases sources.len() - i,
    {
        if accepts(&sources[i], &host, &lurl) {
            return Some(&sources[i]);
        }
        i = i + 1;
    }
    None
}

/// The path components under the home directory that `p` names: `~` is the home directory
/// itself, `~/a/b` is `a`, `b` (empty components dropped); any other path is not under it.
pub open spec fn home_components(p: Seq<char>) -> Option<Seq<Seq<char>>> {
    if p == "~"@ {
        Some(Seq::empty())
    } else if starts_with(p, "~/"@) {
        Some(split_char(p.skip(2), '/').filter(|c: Seq<char>| c.len() > 0))
    } else {
        None
    }
}

/// The components of `p` below the home directory, if `p` starts with `~` (see
/// `home_components`); the caller joins them to the home directory.
pub fn home_relative(p: &str) -> (r: Option<Vec<String>>)
    ensures
        match r {
            Some(v) => home_components(p@) == Some(v@.map_values(|c: String| c@)),
            None => home_components(p@) is None,
        },
{
    let v = chars_of(p);
    if str_equal(p, "~") {
        let e: Vec<String> = Vec::new();
        assert(e@.map_values(|c: String| c@) =~= Seq::<Seq<char>>::empty());
        return Some(e);
    }
    let pre = chars_of("~/");
    if !has_prefix(&v, &pre) {
        return None;
    }
    proof {
        reveal_strlit("~/");
    }
    let pieces = split_chars(&skip_chars(&v, 2), '/');
    let ghost pv = crate::text::views(pieces@);
    let mut out: Vec<String> = Vec::new();
    for i in 0..pieces.len()
        invariant
            pv == crate::text::views(pieces@),
            out@.map_values(|c: String| c@) == pv.take(i as int).filter(|c: Seq<char>| c.len() > 0),
    {
        let ghost before = out@;
        proof {
            reveal_with_fuel(Seq::<_>::filter, 1);
            assert(pv.take(i + 1).drop_last() =~= pv.take(i as int));
        }
        if pieces[i].len() > 0 {
            out.push(string_of(pieces[i].as_slice()));
            assert(out@.map_values(|c: String| c@) =~= before.map_values(|c: String| c@).push(pv[i as int]));
        }
    }
    assert(pv.take(pieces@.len() as int) =~= pv);
    Some(out)
}

/// Seconds since the Unix epoch, by the system clock (0 if the clock is before it), from
/// `SystemTime::now`. Nothing is stated of the result: it depends on the clock.
#[verifier::external_body]
pub fn now_secs() -> u64 {
    std::time::SystemTime::now().duration_since(std::time::UNIX_EPOCH).unwrap_or_default().as_secs()
}

} // verus!
