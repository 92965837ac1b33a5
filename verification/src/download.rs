//! Persistence decisions: the CSV and text files an extraction becomes, the image
//! download jobs, the directory name a result gets, and the download policy.
use vstd::prelude::*;

use crate::crawler::{CrawlResult, Extracted, join_spec, str_views};
use crate::text::{
    chars_of, decimal, decimal_chars, eq_ignore_ascii_case, extend_chars, has_prefix,
    replace_all, replace_chars, starts_with, str_eq_ignore_ascii_case, str_equal, string_of,
    zero_pad, zero_padded,
};
use crate::util::{filename_spec, filename_from_url};

verus! {

/// A CSV cell: the value in double quotes, inner quotes doubled.
pub open spec fn csv_cell_spec(s: Seq<char>) -> Seq<char> {
    "\""@ + replace_all(s, "\""@, "\"\""@) + "\""@
}

/// Quotes a value as a CSV cell.
pub fn csv_cell(s: &str) -> (r: Vec<char>)
    ensures
        r@ == csv_cell_spec(s@),
{
    let mut out = chars_of("\"");
    let inner = replace_chars(&chars_of(s), &chars_of("\""), &chars_of("\"\""));
    extend_chars(&mut out, &inner);
    extend_chars(&mut out, &chars_of("\""));
    out
}

/// A CSV line: the cells, comma-separated, and a line break.
pub open spec fn csv_line(values: Seq<Seq<char>>) -> Seq<char> {
    join_spec(values.map_values(|v: Seq<char>| csv_cell_spec(v)), ","@) + "\n"@
}

/// The lines of the given rows, concatenated.
pub open spec fn csv_lines(rows: Seq<Seq<Seq<char>>>) -> Seq<char>
    decreases rows.len(),
{
    if rows.len() == 0 {
        Seq::empty()
    } else {
        csv_lines(rows.drop_last()) + csv_line(rows.last())
    }
}

/// The CSV file of a data extraction: a byte-order mark, the header line, then a line
/// per row.
pub open spec fn data_csv_spec(headers: Seq<Seq<char>>, rows: Seq<Seq<Seq<char>>>) -> Seq<char> {
    "\u{feff}"@ + csv_line(headers) + csv_lines(rows)
}

fn csv_line_of(values: &Vec<String>) -> (r: Vec<char>)
    ensures
        r@ == csv_line(str_views(values@)),
{
    let ghost vv = str_views(values@);
    let ghost cells = vv.map_values(|v: Seq<char>| csv_cell_spec(v));
    let mut out: Vec<char> = Vec::new();
    for i in 0..values.len()
        invariant
            vv == str_views(values@),
            cells == vv.map_values(|v: Seq<char>| csv_cell_spec(v)),
            out@ == join_spec(cells.take(i as int), ","@),
    {
        assert(cells.take(i + 1).drop_last() =~= cells.take(i as int));
        if i > 0 {
            extend_chars(&mut out, &chars_of(","));
        } else {
            assert(out@ =~= Seq::<char>::empty());
        }
        let c = csv_cell(values[i].as_str());
        extend_chars(&mut out, &c);
        if i == 0 {
            assert(out@ =~= cells.take(1)[0]);
        }
    }
    assert(cells.take(values@.len() as int) =~= cells);
    out.push('\n');
    proof {
        reveal_strlit("\n");
    }
    out
}

/// The views of a list of rows.
pub open spec fn rows_of(v: Seq<Vec<String>>) -> Seq<Seq<Seq<char>>> {
    v.map_values(|r: Vec<String>| str_views(r@))
}

/// The CSV file of a data extraction (see `data_csv_spec`).
pub fn data_csv(headers: &Vec<String>, rows: &Vec<Vec<String>>) -> (r: String)
    ensures
        r@ == data_csv_spec(str_views(headers@), rows_of(rows@)),
{
    let mut out = chars_of("\u{feff}");
    extend_chars(&mut out, &csv_line_of(headers));
    let ghost head = out@;
    for i in 0..rows.len()
        invariant
            out@ == head + csv_lines(rows_of(rows@).take(i as int)),
    {
        assert(rows_of(rows@).take(i + 1).drop_last() =~= rows_of(rows@).take(i as int));
        extend_chars(&mut out, &csv_line_of(&rows[i]));
        assert(out@ =~= head + csv_lines(rows_of(rows@).take(i + 1)));
    }
    assert(rows_of(rows@).take(rows@.len() as int) =~= rows_of(rows@));
    string_of(out.as_slice())
}

/// The lines `index,"url"` of a link list, numbered from `from`.
pub open spec fn link_lines(urls: Seq<Seq<char>>) -> Seq<char>
    decreases urls.len(),
{
    if urls.len() == 0 {
        Seq::empty()
    } else {
        link_lines(urls.drop_last()) + decimal((urls.len() - 1) as nat) + ","@ + csv_cell_spec(urls.last())
            + "\n"@
    }
}

/// The CSV file of an image link list: a byte-order mark, the header `index,url`, then a
/// numbered line per URL (from 0).
pub open spec fn links_csv_spec(urls: Seq<Seq<char>>) -> Seq<char> {
    "\u{feff}index,url\n"@ + link_lines(urls)
}

/// The CSV file of an image link list (see `links_csv_spec`).
pub fn links_csv(urls: &Vec<String>) -> (r: String)
    ensures
        r@ == links_csv_spec(str_views(urls@)),
{
    let mut out = chars_of("\u{feff}index,url\n");
    let ghost head = out@;
    for i in 0..urls.len()
        invariant
            out@ == head + link_lines(str_views(urls@).take(i as int)),
    {
        let ghost uv = str_views(urls@);
        assert(uv.take(i + 1).drop_last() =~= uv.take(i as int));
        extend_chars(&mut out, &decimal_chars(i as u64));
        extend_chars(&mut out, &chars_of(","));
        extend_chars(&mut out, &csv_cell(urls[i].as_str()));
        out.push('\n');
        proof {
            reveal_strlit("\n");
        }
        assert(out@ =~= head + link_lines(uv.take(i + 1)));
    }
    assert(str_views(urls@).take(urls@.len() as int) =~= str_views(urls@));
    string_of(out.as_slice())
}

/// What persisting an extraction does: write one file (its name, its contents and the item
/// count it reports), or download images (URL and file name per image).
pub enum Persist {
    Write { file: String, contents: String, count: usize },
    Download { jobs: Vec<(String, String)> },
}

/// The download jobs of image URLs: each URL with the file name for its position.
pub open spec fn jobs_spec(urls: Seq<Seq<char>>) -> Seq<(Seq<char>, Seq<char>)> {
    Seq::new(urls.len(), |i: int| (urls[i], filename_spec(urls[i], i as nat)))
}

/// Decides how an extraction is persisted in a directory whose files are named `safe`:
/// rows become `safe.csv`, text becomes `safe.txt`, image URLs become `safe.csv` when the
/// source's output is `csv` and download jobs otherwise.
pub fn plan_persist(safe: &str, extracted: Extracted, output: &str) -> (r: Persist)
    ensures
        match extracted {
            Extracted::Data { headers, rows } => match r {
                Persist::Write { file, contents, count } => file@ == safe@ + ".csv"@ && contents@
                    == data_csv_spec(str_views(headers@), rows_of(rows@)) && count == rows@.len(),
                _ => false,
            },
            Extracted::Text(body) => match r {
                Persist::Write { file, contents, count } => file@ == safe@ + ".txt"@ && contents
                    == body && count == 1,
                _ => false,
            },
            Extracted::Images(urls) => if output@ == "csv"@ {
                match r {
                    Persist::Write { file, contents, count } => file@ == safe@ + ".csv"@ && contents@
                        == links_csv_spec(str_views(urls@)) && count == urls@.len(),
                    _ => false,
                }
            } else {
                match r {
                    Persist::Download { jobs } => jobs@.map_values(|j: (String, String)| (j.0@, j.1@))
                        == jobs_spec(str_views(urls@)),
                    _ => false,
                }
            },
        },
{
    let ghost ex = extracted;
    match extracted {
        Extracted::Data { headers, rows } => {
            let mut f = String::from_str(safe);
            f.append(".csv");
            Persist::Write { file: f, contents: data_csv(&headers, &rows), count: rows.len() }
        },
        Extracted::Text(body) => {
            let mut f = String::from_str(safe);
            f.append(".txt");
            Persist::Write { file: f, contents: body, count: 1 }
        },
        Extracted::Images(urls) => {
            if str_equal(output, "csv") {
                let mut f = String::from_str(safe);
                f.append(".csv");
                let n = urls.len();
                Persist::Write { file: f, contents: links_csv(&urls), count: n }
            } else {
                let mut jobs: Vec<(String, String)> = Vec::new();
                let ghost uv = str_views(urls@);
                for i in 0..urls.len()
                    invariant
                        uv == str_views(urls@),
                        jobs@.map_values(|j: (String, String)| (j.0@, j.1@)) == jobs_spec(uv).take(i as int),
                {
                    let ghost before = jobs@;
                    let name = filename_from_url(urls[i].as_str(), i);
                    let u = urls[i].clone();
                    jobs.push((u, name));
                    assert(jobs@ =~= before.push((u, name)));
                    assert(uv[i as int] == u@);
                    assert(jobs_spec(uv)[i as int] == (u@, name@));
                    assert(jobs@.map_values(|j: (String, String)| (j.0@, j.1@)) =~= before.map_values(|j: (String, String)| (j.0@, j.1@)).push((u@, name@)));
                    assert(jobs@.map_values(|j: (String, String)| (j.0@, j.1@)) =~= jobs_spec(uv).take(i + 1));
                }
                assert(jobs_spec(uv).take(urls@.len() as int) =~= jobs_spec(uv));
                Persist::Download { jobs }
            }
        },
    }
}

/// The outcome of an image download run: `all downloads failed` when none succeeded, else
/// the (unsanitized) title, the number downloaded and the directory.
pub fn download_outcome(title: String, ok: usize, dir: String) -> (r: Result<CrawlResult, String>)
    ensures
        match r {
            Ok(c) => ok > 0 && c.title == title && c.count == ok && c.download_dir == dir,
            Err(e) => ok == 0 && e@ == "all downloads failed"@,
        },
{
    if ok == 0 {
        Err(String::from_str("all downloads failed"))
    } else {
        Ok(CrawlResult { title, count: ok, download_dir: dir })
    }
}

/// Whether a request needs the embedding page as `Referer`: no custom header is named
/// `Referer` (in any ASCII case).
pub open spec fn needs_referer_spec(headers: Seq<(Seq<char>, Seq<char>)>) -> bool {
    forall|i: int| 0 <= i < headers.len() ==> !eq_ignore_ascii_case(#[trigger] headers[i].0, "referer"@)
}

/// Whether a request needs the embedding page as `Referer` (see `needs_referer_spec`).
pub fn needs_referer(headers: &Vec<(String, String)>) -> (r: bool)
    ensures
        r == needs_referer_spec(headers@.map_values(|p: (String, String)| (p.0@, p.1@))),
{
    let ghost hv = headers@.map_values(|p: (String, String)| (p.0@, p.1@));
    for i in 0..headers.len()
        invariant
            hv == headers@.map_values(|p: (String, String)| (p.0@, p.1@)),
            forall|k: int| 0 <= k < i ==> !eq_ignore_ascii_case(#[trigger] hv[k].0, "referer"@),
    {
        if str_eq_ignore_ascii_case(headers[i].0.as_str(), "referer") {
            assert(eq_ignore_ascii_case(hv[i as int].0, "referer"@));
            return false;
        }
    }
    true
}

/// Whether a response's content type is acceptable for an image: empty or `image/...`.
pub fn content_type_ok(ct: &str) -> (r: bool)
    ensures
        r == (ct@.len() == 0 || starts_with(ct@, "image/"@)),
{
    ct.unicode_len() == 0 || has_prefix(&chars_of(ct), &chars_of("image/"))
}

/// The pause before retry number `attempt`: 500 ms per attempt.
pub fn retry_delay_ms(attempt: u32) -> (r: u64)
    ensures
        r == 500 * attempt,
{
    500 * (attempt as u64)
}

/// The number of logical CPUs (`num_cpus::get`), which its documentation says is at least 1.
#[verifier::external_body]
fn cpu_count() -> (r: usize)
    ensures
        r >= 1,
{
    num_cpus::get()
}

/// How many image downloads run at once, for the given setting and CPU count: the setting
/// (at least 1), or with setting 0 the CPU count clamped to 2..=6.
pub open spec fn concurrency_spec(max_concurrent: usize, cpus: usize) -> usize {
    if max_concurrent == 0 {
        if cpus < 2 {
            2
        } else if cpus > 6 {
            6
        } else {
            cpus
        }
    } else {
        max_concurrent
    }
}

/// How many image downloads run at once for the setting and CPU count (see `concurrency_spec`).
pub fn concurrency(max_concurrent: usize, cpus: usize) -> (r: usize)
    ensures
        r == concurrency_spec(max_concurrent, cpus),
{
    if max_concurrent == 0 {
        let m = if cpus < 6 { cpus } else { 6 };
        if m < 2 { 2 } else { m }
    } else {
        max_concurrent
    }
}

/// How many image downloads run at once on this machine (see `concurrency_spec`).
pub fn download_concurrency(max_concurrent: usize) -> (r: usize)
    ensures
        max_concurrent > 0 ==> r == max_concurrent,
        max_concurrent == 0 ==> 2 <= r <= 6,
{
    concurrency(max_concurrent, cpu_count())
}

} // verus!

verus! {

/// The ten-digit zero-padded timestamp used in directory names.
pub open spec fn stamp(now: u64) -> Seq<char> {
    zero_pad(decimal(now as nat), 10)
}

/// The base directory name: the title, followed by `_<timestamp>` under `title_timestamp` naming.
pub open spec fn base_name(title: Seq<char>, naming: Seq<char>, now: u64) -> Seq<char> {
    if naming == "title_timestamp"@ {
        title + "_"@ + stamp(now)
    } else {
        title
    }
}

/// Candidate directory name number `n` (`None` for the first) under a collision policy:
/// `timestamp` appends `_<timestamp>` (and `_<n>`), `merge` always reuses the base name,
/// anything else (`number`) appends `_<n>`.
pub open spec fn dir_candidate(bn: Seq<char>, collision: Seq<char>, now: u64, n: Option<nat>) -> Seq<char> {
    if collision == "timestamp"@ {
        match n {
            Some(k) => bn + "_"@ + stamp(now) + "_"@ + decimal(k),
            None => bn + "_"@ + stamp(now),
        }
    } else if collision == "merge"@ {
        bn
    } else {
        match n {
            Some(k) => bn + "_"@ + decimal(k),
            None => bn,
        }
    }
}

fn candidate(bn: &Vec<char>, collision: &str, now: u64, n: Option<usize>) -> (r: Vec<char>)
    ensures
        r@ == dir_candidate(
            bn@,
            collision@,
            now,
            match n {
                Some(k) => Some(k as nat),
                None => None,
            },
        ),
{
    proof {
        reveal_strlit("_");
    }
    let mut out: Vec<char> = Vec::new();
    extend_chars(&mut out, bn);
    if str_equal(collision, "timestamp") {
        out.push('_');
        extend_chars(&mut out, &zero_padded(now, 10));
        match n {
            Some(k) => {
                out.push('_');
                extend_chars(&mut out, &decimal_chars(k as u64));
            },
            None => {},
        }
    } else if str_equal(collision, "merge") {
    } else {
        match n {
            Some(k) => {
                out.push('_');
                extend_chars(&mut out, &decimal_chars(k as u64));
            },
            None => {},
        }
    }
    out
}

fn is_taken(taken: &Vec<String>, name: &Vec<char>) -> (r: bool)
    ensures
        r == str_views(taken@).contains(name@),
{
    let ghost tv = str_views(taken@);
    for i in 0..taken.len()
        invariant
            tv == str_views(taken@),
            forall|k: int| 0 <= k < i ==> tv[k] != name@,
    {
        if crate::text::chars_equal(&chars_of(taken[i].as_str()), name) {
            assert(tv[i as int] == name@);
            return true;
        }
    }
    false
}

/// The name picked for a result directory when `tk` lists the names in use, and whether it
/// is to be reserved (see `reserve_dir_name`).
pub open spec fn reserve_spec(
    title: Seq<char>,
    naming: Seq<char>,
    collision: Seq<char>,
    now: u64,
    tk: Seq<Seq<char>>,
    r: (Seq<char>, bool),
) -> bool {
    let bn = base_name(title, naming, now);
    let first = dir_candidate(bn, collision, now, None);
    if !tk.contains(first) {
        r.0 == first && r.1
    } else if collision == "merge"@ {
        r.0 == first && !r.1
    } else if exists|n: nat| 2 <= n < 10000 && !tk.contains(#[trigger] dir_candidate(bn, collision, now, Some(n))) {
        r.1 && exists|n: nat|
            2 <= n < 10000 && r.0 == #[trigger] dir_candidate(bn, collision, now, Some(n)) && !tk.contains(r.0)
                && forall|m: nat| 2 <= m < n ==> tk.contains(#[trigger] dir_candidate(bn, collision, now, Some(m)))
    } else {
        r.0 == bn + "_"@ + stamp(now) && r.1
    }
}

/// Picks the name of a result directory. `taken` lists the names in use (present on disk or
/// reserved). The first candidate is used when free; under `merge` it is used regardless;
/// otherwise the first free numbered candidate `2..=9999`, and past those the base name with
/// a timestamp. The flag says whether the name is to be reserved.
pub fn reserve_dir_name(title: &str, naming: &str, collision: &str, now: u64, taken: &Vec<String>) -> (r: (String, bool))
    ensures
        reserve_spec(title@, naming@, collision@, now, str_views(taken@), (r.0@, r.1)),
{
    proof {
        reveal_strlit("_");
    }
    let mut bn = chars_of(title);
    if str_equal(naming, "title_timestamp") {
        bn.push('_');
        extend_chars(&mut bn, &zero_padded(now, 10));
    }
    assert(bn@ == base_name(title@, naming@, now));
    let ghost tk = str_views(taken@);
    let first = candidate(&bn, collision, now, None);
    if !is_taken(taken, &first) {
        return (string_of(first.as_slice()), true);
    }
    if str_equal(collision, "merge") {
        return (string_of(first.as_slice()), false);
    }
    let mut n: usize = 2;
    while n < 10000
        invariant
            2 <= n <= 10000,
            tk == str_views(taken@),
            bn@ == base_name(title@, naming@, now),
            tk.contains(dir_candidate(bn@, collision@, now, None)),
            collision@ != "merge"@,
            forall|m: nat| 2 <= m < n ==> tk.contains(#[trigger] dir_candidate(bn@, collision@, now, Some(m))),
        decreases 10000 - n,
    {
        let c = candidate(&bn, collision, now, Some(n));
        if !is_taken(taken, &c) {
            assert(!tk.contains(dir_candidate(bn@, collision@, now, Some(n as nat))));
            return (string_of(c.as_slice()), true);
        }
        n = n + 1;
    }
    let ghost b0 = bn@;
    let mut fallback = bn;
    fallback.push('_');
    extend_chars(&mut fallback, &zero_padded(now, 10));
    assert(fallback@ =~= b0 + "_"@ + stamp(now));
    assert(!exists|k: nat| 2 <= k < 10000 && !tk.contains(#[trigger] dir_candidate(b0, collision@, now, Some(k))));
    (string_of(fallback.as_slice()), true)
}

} // verus!

verus! {

/// The names of `s` other than `name`, in order.
pub open spec fn without(s: Seq<Seq<char>>, name: Seq<char>) -> Seq<Seq<char>> {
    s.filter(|x: Seq<char>| x != name)
}

/// Drops the reservation of a directory name once the directory exists on disk (its
/// presence then guards the name): every entry equal to `name` leaves, the rest stay in order.
pub fn release_dir_lock(locked: &mut Vec<String>, name: &str)
    ensures
        str_views(final(locked)@) == without(str_views(old(locked)@), name@),
{
    let ghost orig = str_views(locked@);
    let mut kept: Vec<String> = Vec::new();
    let mut i: usize = 0;
    while i < locked.len()
        invariant
            i <= locked@.len(),
            orig == str_views(locked@),
            str_views(kept@) == orig.take(i as int).filter(|x: Seq<char>| x != name@),
        decreases locked.len() - i,
    {
        let ghost before = kept@;
        assert(orig.take(i + 1) =~= orig.take(i as int).push(orig[i as int]));
        proof {
            orig.take(i as int).lemma_filter_push(orig[i as int], |x: Seq<char>| x != name@);
        }
        if !str_equal(locked[i].as_str(), name) {
            let x = locked[i].clone();
            kept.push(x);
            assert(str_views(kept@) =~= str_views(before).push(x@));
        }
        i = i + 1;
    }
    assert(orig.take(locked@.len() as int) =~= orig);
    *locked = kept;
}

} // verus!

verus! {

/// After attempt number `attempt` (counted from 0) of a download failed: the pause before the
/// next attempt while fewer than `retries` retries were made, else `None` (give up). So a
/// download that keeps failing is attempted `retries + 1` times in all.
pub fn retry_after(attempt: u32, retries: u32) -> (r: Option<u64>)
    ensures
        r == retry_spec(attempt as nat, retries),
{
    if attempt < retries {
        Some(retry_delay_ms(attempt + 1))
    } else {
        None
    }
}

/// The retry decision after failed attempt `attempt` (see `retry_after`).
pub open spec fn retry_spec(attempt: nat, retries: u32) -> Option<u64> {
    if attempt < retries {
        Some((500 * (attempt + 1)) as u64)
    } else {
        None
    }
}

/// The attempts made on a download that keeps failing, from attempt `attempt` on: this one,
/// and more while the retry decision asks for them.
pub open spec fn attempts_from(attempt: nat, retries: u32) -> nat
    decreases retries - attempt,
{
    if retry_spec(attempt, retries) is Some {
        1 + attempts_from(attempt + 1, retries)
    } else {
        1
    }
}

/// The message of a download that kept failing: `failed after <retries> retries: <last error>`.
pub open spec fn retry_failure_spec(retries: u32, last: Seq<char>) -> Seq<char> {
    "failed after "@ + decimal(retries as nat) + " retries: "@ + last
}

/// Builds the message of a download that kept failing (see `retry_failure_spec`).
pub fn retry_failure(retries: u32, last: &str) -> (r: String)
    ensures
        r@ == retry_failure_spec(retries, last@),
{
    let mut v = chars_of("failed after ");
    extend_chars(&mut v, &decimal_chars(retries as u64));
    extend_chars(&mut v, &chars_of(" retries: "));
    extend_chars(&mut v, &chars_of(last));
    string_of(v.as_slice())
}

} // verus!
