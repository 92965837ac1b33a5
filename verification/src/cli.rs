//! Command-line and clipboard decisions: which mode runs, the arguments of the headless
//! commands, and which clipboard texts start a crawl.
use vstd::prelude::*;

use crate::text::{chars_of, parse_u64, parse_u64_chars, starts_with, str_equal, string_of, trim, trim_str};
use crate::util::{is_url, is_url_spec};

verus! {

/// The program's modes: print a page's HTML, test a source, run once, or the dashboard.
#[derive(Clone, Copy, PartialEq, Eq, Structural)]
pub enum Command {
    Fetch,
    Test,
    Run,
    Dashboard,
}

/// The mode chosen by the first argument.
pub open spec fn command_spec(first: Option<Seq<char>>) -> Command {
    match first {
        Some(a) => if a == "fetch"@ || a == "--fetch"@ || a == "html"@ {
            Command::Fetch
        } else if a == "test"@ || a == "--test"@ {
            Command::Test
        } else if a == "run"@ || a == "--run"@ || a == "get"@ {
            Command::Run
        } else {
            Command::Dashboard
        },
        None => Command::Dashboard,
    }
}

/// Chooses the mode from the first argument (see `command_spec`).
pub fn command_of(first: Option<&str>) -> (r: Command)
    ensures
        r == command_spec(
            match first {
                Some(a) => Some(a@),
                None => None,
            },
        ),
{
    match first {
        Some(a) => if str_equal(a, "fetch") || str_equal(a, "--fetch") || str_equal(a, "html") {
            Command::Fetch
        } else if str_equal(a, "test") || str_equal(a, "--test") {
            Command::Test
        } else if str_equal(a, "run") || str_equal(a, "--run") || str_equal(a, "get") {
            Command::Run
        } else {
            Command::Dashboard
        },
        None => Command::Dashboard,
    }
}

/// `usize::from_str`: as `u64::from_str`, within the range of `usize`.
pub open spec fn parse_usize(s: Seq<char>) -> Option<usize> {
    match parse_u64(s) {
        Some(n) => if n <= usize::MAX {
            Some(n as usize)
        } else {
            None
        },
        None => None,
    }
}

/// Parses a `usize` as `str::parse::<usize>` does.
pub fn parse_usize_str(s: &str) -> (r: Option<usize>)
    ensures
        r == parse_usize(s@),
{
    match parse_u64_chars(&chars_of(s)) {
        Some(n) => if n <= usize::MAX as u64 {
            Some(n as usize)
        } else {
            None
        },
        None => None,
    }
}

/// Whether an argument is the URL: it does not start with `-` and no URL was seen yet.
pub open spec fn takes_url(a: Seq<char>, url: Option<Seq<char>>) -> bool {
    !starts_with(a, "-"@) && url is None
}

/// The arguments of `fetch`: the URL, `--strip`, and `--limit N` / `-n N` (0 when `N` is
/// missing or no number), scanning from position `i`.
pub open spec fn fetch_scan(
    args: Seq<Seq<char>>,
    i: int,
    url: Option<Seq<char>>,
    strip: bool,
    limit: usize,
) -> (Option<Seq<char>>, bool, usize)
    decreases args.len() + 2 - i,
{
    if i < 0 || i >= args.len() {
        (url, strip, limit)
    } else {
        let a = args[i];
        if a == "--strip"@ {
            fetch_scan(args, i + 1, url, true, limit)
        } else if a == "--limit"@ || a == "-n"@ {
            let l = if i + 1 < args.len() {
                match parse_usize(args[i + 1]) {
                    Some(n) => n,
                    None => 0,
                }
            } else {
                0
            };
            fetch_scan(args, i + 2, url, strip, l)
        } else if takes_url(a, url) {
            fetch_scan(args, i + 1, Some(a), strip, limit)
        } else {
            fetch_scan(args, i + 1, url, strip, limit)
        }
    }
}

/// The arguments of `run`: the URL, `--source FILE` / `-s FILE` (none when `FILE` is
/// missing) and `--force` / `-f`, scanning from position `i`.
pub open spec fn run_scan(
    args: Seq<Seq<char>>,
    i: int,
    url: Option<Seq<char>>,
    source: Option<Seq<char>>,
    force: bool,
) -> (Option<Seq<char>>, Option<Seq<char>>, bool)
    decreases args.len() + 2 - i,
{
    if i < 0 || i >= args.len() {
        (url, source, force)
    } else {
        let a = args[i];
        if a == "--source"@ || a == "-s"@ {
            let s = if i + 1 < args.len() {
                Some(args[i + 1])
            } else {
                None
            };
            run_scan(args, i + 2, url, s, force)
        } else if a == "--force"@ || a == "-f"@ {
            run_scan(args, i + 1, url, source, true)
        } else if takes_url(a, url) {
            run_scan(args, i + 1, Some(a), source, force)
        } else {
            run_scan(args, i + 1, url, source, force)
        }
    }
}

/// The arguments of `test`: the URL, `--source FILE` / `-s FILE` and `--limit N` / `-n N`
/// (the limit unchanged when `N` is missing or no number), scanning from position `i`.
pub open spec fn test_scan(
    args: Seq<Seq<char>>,
    i: int,
    url: Option<Seq<char>>,
    source: Option<Seq<char>>,
    limit: usize,
) -> (Option<Seq<char>>, Option<Seq<char>>, usize)
    decreases args.len() + 2 - i,
{
    if i < 0 || i >= args.len() {
        (url, source, limit)
    } else {
        let a = args[i];
        if a == "--source"@ || a == "-s"@ {
            let s = if i + 1 < args.len() {
                Some(args[i + 1])
            } else {
                None
            };
            test_scan(args, i + 2, url, s, limit)
        } else if a == "--limit"@ || a == "-n"@ {
            let l = if i + 1 < args.len() {
                match parse_usize(args[i + 1]) {
                    Some(n) => n,
                    None => limit,
                }
            } else {
                limit
            };
            test_scan(args, i + 2, url, source, l)
        } else if takes_url(a, url) {
            test_scan(args, i + 1, Some(a), source, limit)
        } else {
            test_scan(args, i + 1, url, source, limit)
        }
    }
}

/// The views of a list of arguments.
pub open spec fn arg_views(args: Seq<String>) -> Seq<Seq<char>> {
    args.map_values(|a: String| a@)
}

/// The arguments of `snatch fetch`.
pub struct FetchArgs {
    pub url: Option<String>,
    pub strip: bool,
    pub limit: usize,
}

/// The arguments of `snatch run`.
pub struct RunArgs {
    pub url: Option<String>,
    pub source: Option<String>,
    pub force: bool,
}

/// The arguments of `snatch test`.
pub struct TestArgs {
    pub url: Option<String>,
    pub source: Option<String>,
    pub limit: usize,
}

fn arg_is(a: &String, x: &str, y: &str) -> (r: bool)
    ensures
        r == (a@ == x@ || a@ == y@),
{
    str_equal(a.as_str(), x) || str_equal(a.as_str(), y)
}

fn is_flag(a: &String) -> (r: bool)
    ensures
        r == starts_with(a@, "-"@),
{
    crate::text::str_starts_with(a.as_str(), "-")
}

/// Parses the arguments of `snatch fetch <URL> [--strip] [--limit N]` (see `fetch_scan`).
pub fn parse_fetch_args(args: &Vec<String>) -> (r: FetchArgs)
    ensures
        (crate::text::opt_view(r.url), r.strip, r.limit) == fetch_scan(arg_views(args@), 0, None, false, 0),
{
    let ghost av = arg_views(args@);
    let mut url: Option<String> = None;
    let mut strip = false;
    let mut limit: usize = 0;
    let mut i: usize = 0;
    while i < args.len()
        invariant
            av == arg_views(args@),
            fetch_scan(av, i as int, crate::text::opt_view(url), strip, limit) == fetch_scan(av, 0, None, false, 0),
        decreases args.len() - i,
    {
        let a = &args[i];
        let ghost i0 = i as int;
        let ghost u0 = crate::text::opt_view(url);
        let ghost s0 = strip;
        let ghost l0 = limit;
        assert(av[i0] == a@);
        if i + 1 < args.len() {
            assert(av[i0 + 1] == args@[i0 + 1]@);
        }
        if str_equal(a.as_str(), "--strip") {
            strip = true;
            i = i + 1;
        } else if arg_is(a, "--limit", "-n") {
            limit = if i + 1 < args.len() {
                match parse_usize_str(args[i + 1].as_str()) {
                    Some(n) => n,
                    None => 0,
                }
            } else {
                0
            };
            if i + 1 >= args.len() {
                assert(fetch_scan(av, i0 + 2, u0, s0, limit) == (u0, s0, limit));
                i = args.len();
            } else {
                i = i + 2;
            }
            assert(fetch_scan(av, i0, u0, s0, l0) == fetch_scan(av, i0 + 2, u0, s0, limit));
        } else if !is_flag(a) && url.is_none() {
            let c = a.clone();
            url = Some(c);
            assert(crate::text::opt_view(url) == Some(av[i0]));
            i = i + 1;
        } else {
            i = i + 1;
        }
        assert(fetch_scan(av, i0, u0, s0, l0) == fetch_scan(av, i as int, crate::text::opt_view(url), strip, limit));
    }
    FetchArgs { url, strip, limit }
}

/// Parses the arguments of `snatch run <URL> [--source FILE] [--force]` (see `run_scan`).
pub fn parse_run_args(args: &Vec<String>) -> (r: RunArgs)
    ensures
        (crate::text::opt_view(r.url), crate::text::opt_view(r.source), r.force) == run_scan(
            arg_views(args@),
            0,
            None,
            None,
            false,
        ),
{
    let ghost av = arg_views(args@);
    let mut url: Option<String> = None;
    let mut source: Option<String> = None;
    let mut force = false;
    let mut i: usize = 0;
    while i < args.len()
        invariant
            av == arg_views(args@),
            run_scan(av, i as int, crate::text::opt_view(url), crate::text::opt_view(source), force)
                == run_scan(av, 0, None, None, false),
        decreases args.len() - i,
    {
        let a = &args[i];
        let ghost i0 = i as int;
        let ghost u0 = crate::text::opt_view(url);
        let ghost old_force = force;
        let ghost src0 = crate::text::opt_view(source);
        assert(av[i0] == a@);
        if i + 1 < args.len() {
            assert(av[i0 + 1] == args@[i0 + 1]@);
        }
        if arg_is(a, "--source", "-s") {
            source = if i + 1 < args.len() {
                Some(args[i + 1].clone())
            } else {
                None
            };
            if i + 1 >= args.len() {
                assert(run_scan(av, i0 + 2, u0, crate::text::opt_view(source), old_force) == (u0, crate::text::opt_view(source), old_force));
                i = args.len();
            } else {
                i = i + 2;
            }
            assert(run_scan(av, i0, u0, src0, old_force) == run_scan(av, i0 + 2, u0, crate::text::opt_view(source), old_force));
        } else if arg_is(a, "--force", "-f") {
            force = true;
            i = i + 1;
        } else if !is_flag(a) && url.is_none() {
            let c = a.clone();
            url = Some(c);
            assert(crate::text::opt_view(url) == Some(av[i0]));
            i = i + 1;
        } else {
            i = i + 1;
        }
        assert(run_scan(av, i0, u0, src0, old_force) == run_scan(av, i as int, crate::text::opt_view(url), crate::text::opt_view(source), force));
    }
    RunArgs { url, source, force }
}

/// Parses the arguments of `snatch test <URL> [--source FILE] [--limit N]` (limit 10 by
/// default; see `test_scan`).
pub fn parse_test_args(args: &Vec<String>) -> (r: TestArgs)
    ensures
        (crate::text::opt_view(r.url), crate::text::opt_view(r.source), r.limit) == test_scan(
            arg_views(args@),
            0,
            None,
            None,
            10,
        ),
{
    let ghost av = arg_views(args@);
    let mut url: Option<String> = None;
    let mut source: Option<String> = None;
    let mut limit: usize = 10;
    let mut i: usize = 0;
    while i < args.len()
        invariant
            av == arg_views(args@),
            test_scan(av, i as int, crate::text::opt_view(url), crate::text::opt_view(source), limit)
                == test_scan(av, 0, None, None, 10),
        decreases args.len() - i,
    {
        let a = &args[i];
        let ghost i0 = i as int;
        let ghost u0 = crate::text::opt_view(url);
        let ghost old_limit = limit;
        let ghost src0 = crate::text::opt_view(source);
        assert(av[i0] == a@);
        if i + 1 < args.len() {
            assert(av[i0 + 1] == args@[i0 + 1]@);
        }
        if arg_is(a, "--source", "-s") {
            source = if i + 1 < args.len() {
                Some(args[i + 1].clone())
            } else {
                None
            };
            if i + 1 >= args.len() {
                assert(test_scan(av, i0 + 2, u0, crate::text::opt_view(source), old_limit) == (u0, crate::text::opt_view(source), old_limit));
                i = args.len();
            } else {
                i = i + 2;
            }
            assert(test_scan(av, i0, u0, src0, old_limit) == test_scan(av, i0 + 2, u0, crate::text::opt_view(source), old_limit));
        } else if arg_is(a, "--limit", "-n") {
            if i + 1 < args.len() {
                match parse_usize_str(args[i + 1].as_str()) {
                    Some(n) => limit = n,
                    None => {},
                }
            }
            if i + 1 >= args.len() {
                assert(test_scan(av, i0 + 2, u0, src0, limit) == (u0, src0, limit));
                i = args.len();
            } else {
                i = i + 2;
            }
            assert(test_scan(av, i0, u0, src0, old_limit) == test_scan(av, i0 + 2, u0, src0, limit));
        } else if !is_flag(a) && url.is_none() {
            let c = a.clone();
            url = Some(c);
            assert(crate::text::opt_view(url) == Some(av[i0]));
            i = i + 1;
        } else {
            i = i + 1;
        }
        assert(test_scan(av, i0, u0, src0, old_limit) == test_scan(av, i as int, crate::text::opt_view(url), crate::text::opt_view(source), limit));
    }
    TestArgs { url, source, limit }
}

/// Whether clipboard text starts a crawl: trimmed, it differs from the last accepted text and
/// looks like a URL.
pub open spec fn clip_accepts(raw: Seq<char>, last: Seq<char>) -> bool {
    let c = trim(raw);
    c != last && is_url_spec(c)
}

/// Gates one clipboard change: the trimmed text when it is a new URL (which becomes the
/// last accepted text), else `None` (and the last text stays).
pub fn gate_clipboard(raw: &str, last: &mut String) -> (r: Option<String>)
    ensures
        clip_accepts(raw@, old(last)@) ==> r is Some && r->0@ == trim(raw@) && final(last)@ == trim(raw@),
        !clip_accepts(raw@, old(last)@) ==> r is None && final(last)@ == old(last)@,
{
    let content = trim_str(raw);
    if str_equal(content.as_str(), last.as_str()) || !is_url(content.as_str()) {
        return None;
    }
    *last = content.clone();
    Some(content)
}

} // verus!

verus! {

/// What `fetch` prints of a page: the first `limit` characters (all of them for limit 0),
/// the page's length in characters, and whether the printout is cut.
pub fn fetch_preview(html: &str, limit: usize) -> (r: (String, usize, bool))
    ensures
        r.1 == html@.len(),
        r.0@ == (if limit > 0 && limit < html@.len() {
            html@.take(limit as int)
        } else {
            html@
        }),
        r.2 == (limit > 0 && html@.len() > limit),
{
    let v = chars_of(html);
    let total = v.len();
    if limit > 0 && limit < total {
        (string_of(&v.as_slice()[0..limit]), total, true)
    } else {
        (String::from_str(html), total, false)
    }
}

/// `s` right-aligned in `width` columns (`{:>width}`), padded with spaces.
pub open spec fn pad_left(s: Seq<char>, width: nat) -> Seq<char> {
    if s.len() >= width {
        s
    } else {
        Seq::new((width - s.len()) as nat, |i: int| ' ') + s
    }
}

/// A numbered line of the test report: `  NNN. text` (the number right-aligned in three columns).
pub open spec fn numbered_line(n: nat, text: Seq<char>) -> Seq<char> {
    "  "@ + pad_left(crate::text::decimal(n), 3) + ". "@ + text
}

fn numbered(n: usize, text: &Vec<char>) -> (r: String)
    ensures
        r@ == numbered_line(n as nat, text@),
{
    let d = crate::text::decimal_chars(n as u64);
    let mut out = chars_of("  ");
    if d.len() < 3 {
        let pad = 3 - d.len();
        let ghost o = out@;
        for i in 0..pad
            invariant
                out@ == o + Seq::new(i as nat, |k: int| ' '),
        {
            out.push(' ');
            assert(out@ =~= o + Seq::new((i + 1) as nat, |k: int| ' '));
        }
    }
    crate::text::extend_chars(&mut out, &d);
    crate::text::extend_chars(&mut out, &chars_of(". "));
    crate::text::extend_chars(&mut out, text);
    proof {
        reveal_strlit("  ");
    }
    assert(out@ =~= numbered_line(n as nat, text@));
    string_of(out.as_slice())
}

/// The numbered lines of the first `limit` items.
pub open spec fn numbered_lines(items: Seq<Seq<char>>, limit: nat) -> Seq<Seq<char>> {
    let n = if items.len() < limit {
        items.len()
    } else {
        limit
    };
    Seq::new(n, |i: int| numbered_line((i + 1) as nat, items[i]))
}

/// The lines that list the first `limit` items, with `  ... (+N more)` when some are left out.
pub open spec fn listing(items: Seq<Seq<char>>, limit: nat) -> Seq<Seq<char>> {
    numbered_lines(items, limit) + if items.len() > limit {
        seq!["  ... (+"@ + crate::text::decimal((items.len() - limit) as nat) + " more)"@]
    } else {
        Seq::empty()
    }
}

/// Lists items as numbered lines (see `listing`).
pub fn list_items(items: &Vec<Vec<char>>, limit: usize) -> (r: Vec<String>)
    ensures
        r@.map_values(|s: String| s@) == listing(crate::text::views(items@), limit as nat),
{
    let ghost iv = crate::text::views(items@);
    let n = if items.len() < limit { items.len() } else { limit };
    let mut out: Vec<String> = Vec::new();
    for i in 0..n
        invariant
            n <= items@.len(),
            iv == crate::text::views(items@),
            n == (if items@.len() < limit { items@.len() } else { limit as nat }),
            out@.map_values(|s: String| s@) == numbered_lines(iv, limit as nat).take(i as int),
    {
        let ghost before = out@;
        let line = numbered(i + 1, &items[i]);
        out.push(line);
        assert(out@.map_values(|s: String| s@) =~= before.map_values(|s: String| s@).push(line@));
        assert(numbered_lines(iv, limit as nat).take(i + 1) =~= numbered_lines(iv, limit as nat).take(i as int).push(line@));
    }
    assert(numbered_lines(iv, limit as nat).take(n as int) =~= numbered_lines(iv, limit as nat));
    if items.len() > limit {
        let ghost before = out@;
        let mut m = chars_of("  ... (+");
        crate::text::extend_chars(&mut m, &crate::text::decimal_chars((items.len() - limit) as u64));
        crate::text::extend_chars(&mut m, &chars_of(" more)"));
        let line = string_of(m.as_slice());
        out.push(line);
        assert(out@.map_values(|s: String| s@) =~= before.map_values(|s: String| s@).push(line@));
    } else {
        assert(out@.map_values(|s: String| s@) =~= out@.map_values(|s: String| s@) + Seq::<Seq<char>>::empty());
    }
    out
}

} // verus!

verus! {

/// The clipboard poll interval in milliseconds: the setting, kept within 200..=5000.
pub fn poll_interval_ms(poll_ms: u64) -> (r: u64)
    ensures
        r == (if poll_ms < 200 {
            200
        } else if poll_ms > 5000 {
            5000
        } else {
            poll_ms
        }),
{
    if poll_ms < 200 {
        200
    } else if poll_ms > 5000 {
        5000
    } else {
        poll_ms
    }
}

} // verus!
