//! Properties of the library as a whole, proved over the specifications of its functions.
use vstd::prelude::*;

use crate::cli::clip_accepts;
use crate::download::{attempts_from, base_name, csv_cell_spec, dir_candidate, reserve_spec, without};
use crate::logs::{LOG_CAP, appended};
use crate::order::{lemma_lex_irreflexive, lex_lt, strictly_sorted};
use crate::pages::{accepts_next, page_cap, query_page_url, query_pages};
use crate::text::{
    decimal, eq_ignore_ascii_case, first_from, is_ws, replace_all, starts_with, trim, trim_end,
    trim_start, zero_pad,
};
use crate::tui::{Focus, Nav, in_range, key_spec, next_focus, truncate_spec};
use crate::util::{
    env_lookup, env_refs, expand_spec, filename_spec, forbidden_in_name, headers_spec,
    replace_forbidden, sanitize_spec, strip_end, strip_start,
};

verus! {

/// Expanding `${NAME}` references depends only on the referenced names: two environments
/// that agree on every name that `s` refers to expand `s` alike.
pub proof fn law_expand_env_reads_only_references(
    s: Seq<char>,
    env1: Seq<(Seq<char>, Seq<char>)>,
    env2: Seq<(Seq<char>, Seq<char>)>,
)
    requires
        forall|i: int| 0 <= i < env_refs(s).len() ==> env_lookup(env1, #[trigger] env_refs(s)[i])
            == env_lookup(env2, env_refs(s)[i]),
    ensures
        expand_spec(s, env1) == expand_spec(s, env2),
    decreases s.len(),
{
    let st = first_from(s, "${"@, 0);
    if 0 <= st && st + 2 <= s.len() {
        let rest = s.skip(st + 2);
        let e = first_from(rest, "}"@, 0);
        if 0 <= e < rest.len() {
            let tail = rest.skip(e + 1);
            assert(env_refs(s) == seq![rest.take(e)] + env_refs(tail));
            assert(env_refs(s)[0] == rest.take(e));
            assert forall|i: int| 0 <= i < env_refs(tail).len() implies env_lookup(env1, #[trigger] env_refs(tail)[i])
                == env_lookup(env2, env_refs(tail)[i]) by {
                assert(env_refs(s)[i + 1] == env_refs(tail)[i]);
            }
            law_expand_env_reads_only_references(tail, env1, env2);
        }
    }
}

/// A string without `${` expands to itself, whatever the environment.
pub proof fn law_expand_env_without_references(s: Seq<char>, env: Seq<(Seq<char>, Seq<char>)>)
    requires
        first_from(s, "${"@, 0) == -1,
    ensures
        expand_spec(s, env) == s,
{
}

/// The headers sent never include `User-Agent`, in any ASCII case.
pub proof fn law_headers_never_hold_user_agent(
    raw: Seq<(Seq<char>, Seq<char>)>,
    env: Seq<(Seq<char>, Seq<char>)>,
)
    ensures
        forall|i: int|
            0 <= i < headers_spec(raw, env).len() ==> !eq_ignore_ascii_case(
                #[trigger] headers_spec(raw, env)[i].0,
                "user-agent"@,
            ),
    decreases raw.len(),
{
    if raw.len() > 0 {
        law_headers_never_hold_user_agent(raw.drop_last(), env);
        let prev = headers_spec(raw.drop_last(), env);
        assert forall|i: int| 0 <= i < headers_spec(raw, env).len() implies !eq_ignore_ascii_case(
            #[trigger] headers_spec(raw, env)[i].0,
            "user-agent"@,
        ) by {
            if i < prev.len() {
                assert(headers_spec(raw, env)[i] == prev[i]);
            }
        }
    }
}

proof fn lemma_trim_start_is_suffix(s: Seq<char>) -> (k: int)
    ensures
        0 <= k <= s.len(),
        trim_start(s) == s.skip(k),
    decreases s.len(),
{
    if s.len() > 0 && is_ws(s[0]) {
        let k = lemma_trim_start_is_suffix(s.drop_first());
        assert(s.drop_first().skip(k) =~= s.skip(k + 1));
        k + 1
    } else {
        assert(s.skip(0) =~= s);
        0
    }
}

proof fn lemma_trim_end_is_prefix(s: Seq<char>) -> (k: int)
    ensures
        0 <= k <= s.len(),
        trim_end(s) == s.take(k),
    decreases s.len(),
{
    if s.len() > 0 && is_ws(s.last()) {
        let k = lemma_trim_end_is_prefix(s.drop_last());
        assert(s.drop_last().take(k) =~= s.take(k));
        k
    } else {
        assert(s.take(s.len() as int) =~= s);
        s.len() as int
    }
}

proof fn lemma_strip_start_is_suffix(s: Seq<char>, ch: char) -> (k: int)
    ensures
        0 <= k <= s.len(),
        strip_start(s, ch) == s.skip(k),
    decreases s.len(),
{
    if s.len() > 0 && s[0] == ch {
        let k = lemma_strip_start_is_suffix(s.drop_first(), ch);
        assert(s.drop_first().skip(k) =~= s.skip(k + 1));
        k + 1
    } else {
        assert(s.skip(0) =~= s);
        0
    }
}

proof fn lemma_strip_end_is_prefix(s: Seq<char>, ch: char) -> (k: int)
    ensures
        0 <= k <= s.len(),
        strip_end(s, ch) == s.take(k),
    decreases s.len(),
{
    if s.len() > 0 && s.last() == ch {
        let k = lemma_strip_end_is_prefix(s.drop_last(), ch);
        assert(s.drop_last().take(k) =~= s.take(k));
        k
    } else {
        assert(s.take(s.len() as int) =~= s);
        s.len() as int
    }
}

/// A sanitized name is never empty, has at most 100 characters, and holds no character
/// that file names may not hold.
pub proof fn law_sanitized_names_are_safe(name: Seq<char>)
    ensures
        0 < sanitize_spec(name).len() <= 100,
        forall|i: int| 0 <= i < sanitize_spec(name).len() ==> !forbidden_in_name(#[trigger] sanitize_spec(name)[i]),
{
    let m = replace_forbidden(name);
    assert(forall|i: int| 0 <= i < m.len() ==> !forbidden_in_name(#[trigger] m[i]));
    let a = lemma_trim_start_is_suffix(m);
    let t1 = trim_start(m);
    let b = lemma_trim_end_is_prefix(t1);
    let t2 = trim(m);
    assert(t2 == t1.take(b));
    assert(forall|i: int| 0 <= i < t2.len() ==> t2[i] == m[a + i]);
    let c = lemma_strip_start_is_suffix(t2, '.');
    let t3 = strip_start(t2, '.');
    let d = lemma_strip_end_is_prefix(t3, '.');
    let t = strip_end(t3, '.');
    assert(forall|i: int| 0 <= i < t.len() ==> t[i] == m[a + c + i]);
    assert(forall|i: int| 0 <= i < t.len() ==> !forbidden_in_name(#[trigger] t[i])) by {
        assert forall|i: int| 0 <= i < t.len() implies !forbidden_in_name(#[trigger] t[i]) by {
            assert(t[i] == m[a + c + i]);
        }
    }
    reveal_strlit("untitled");
}

/// Unquoting a CSV cell: the text between the outer quotes, doubled quotes made single.
pub open spec fn csv_unquote(cell: Seq<char>) -> Seq<char> {
    replace_all(cell.subrange(1, cell.len() - 1), "\"\""@, "\""@)
}

proof fn lemma_unescape_escape(s: Seq<char>)
    ensures
        replace_all(replace_all(s, "\""@, "\"\""@), "\"\""@, "\""@) == s,
    decreases s.len(),
{
    reveal_strlit("\"");
    reveal_strlit("\"\"");
    let q = "\""@;
    let qq = "\"\""@;
    if s.len() == 0 {
        assert(replace_all(s, q, qq) == s);
        assert(replace_all(s, qq, q) == s);
    } else {
        let e = replace_all(s, q, qq);
        let rest = s.drop_first();
        lemma_unescape_escape(rest);
        let er = replace_all(rest, q, qq);
        if s[0] == '"' {
            assert(s.take(1) =~= q);
            assert(s.skip(1) =~= rest);
            assert(e == qq + er);
            assert(e.take(2) =~= qq);
            assert(e.skip(2) =~= er);
            assert(replace_all(e, qq, q) == q + replace_all(er, qq, q));
            assert(s =~= q + rest);
        } else {
            assert(s.take(1) != q) by {
                assert(s.take(1)[0] == s[0]);
            }
            assert(e == seq![s[0]] + er);
            assert(e.drop_first() =~= er);
            if e.len() >= 2 {
                assert(e.take(2) != qq) by {
                    assert(e.take(2)[0] == s[0]);
                }
            }
            assert(replace_all(e, qq, q) == seq![s[0]] + replace_all(er, qq, q));
            assert(s =~= seq![s[0]] + rest);
        }
    }
}

/// Quoting a value as a CSV cell can be undone: unquoting the cell gives the value back.
pub proof fn law_csv_cell_round_trip(s: Seq<char>)
    ensures
        csv_unquote(csv_cell_spec(s)) == s,
{
    reveal_strlit("\"");
    let inner = replace_all(s, "\""@, "\"\""@);
    let cell = csv_cell_spec(s);
    assert(cell.subrange(1, cell.len() - 1) =~= inner);
    lemma_unescape_escape(s);
}

/// A strictly sorted list (such as an image list) holds no string twice.
pub proof fn law_sorted_lists_have_no_duplicates(s: Seq<Seq<char>>)
    requires
        strictly_sorted(s),
    ensures
        forall|i: int, j: int| 0 <= i < j < s.len() ==> s[i] != s[j],
{
    assert forall|i: int, j: int| 0 <= i < j < s.len() implies s[i] != s[j] by {
        assert(lex_lt(s[i], s[j]));
        if s[i] == s[j] {
            lemma_lex_irreflexive(s[i]);
        }
    }
}

/// Following next links never visits a page twice: a visited list without repeats stays so.
pub proof fn law_following_never_revisits(visited: Seq<Seq<char>>, next: Option<Seq<char>>)
    requires
        forall|i: int, j: int| 0 <= i < j < visited.len() ==> visited[i] != visited[j],
    ensures
        accepts_next(visited, next) ==> forall|i: int, j: int|
            0 <= i < j < visited.push(next->0).len() ==> visited.push(next->0)[i] != visited.push(next->0)[j],
{
    if accepts_next(visited, next) {
        let n = next->0;
        assert forall|i: int, j: int| 0 <= i < j < visited.push(n).len() implies visited.push(n)[i] != visited.push(n)[j] by {
            if j == visited.len() {
                assert(visited.push(n)[i] == visited[i]);
                if visited[i] == n {
                    assert(visited.contains(n));
                }
            } else {
                assert(visited.push(n)[i] == visited[i]);
                assert(visited.push(n)[j] == visited[j]);
            }
        }
    }
}

/// Keys keep the dashboard's selections inside the task and history lists.
pub proof fn law_keys_keep_selection_in_range(nav: Nav, key: crate::tui::Key, tasks: usize, history: usize)
    requires
        in_range(nav.tsel, tasks),
        in_range(nav.hsel, history),
    ensures
        in_range(key_spec(nav, key, tasks, history).0.tsel, tasks),
        in_range(key_spec(nav, key, tasks, history).0.hsel, history),
{
}

/// Three presses of Tab bring the focus back where it was.
pub proof fn law_tab_cycles_through_three_panes(f: Focus)
    ensures
        next_focus(next_focus(next_focus(f))) == f,
{
}

/// The same clipboard text twice in a row starts at most one crawl.
pub proof fn law_clipboard_repeat_is_ignored(raw: Seq<char>)
    ensures
        !clip_accepts(raw, trim(raw)),
{
}

/// The log never holds more than `LOG_CAP` lines, and the newest line is always last.
pub proof fn law_log_is_bounded(lines: Seq<(bool, Seq<char>)>, line: (bool, Seq<char>))
    requires
        lines.len() <= LOG_CAP,
    ensures
        appended(lines, line).len() <= LOG_CAP,
        appended(lines, line).last() == line,
        lines.len() < LOG_CAP ==> appended(lines, line).len() == lines.len() + 1,
{
}

/// A truncated text fits its width (for widths of at least one character).
pub proof fn law_truncate_fits(s: Seq<char>, n: usize)
    requires
        n >= 1,
    ensures
        truncate_spec(s, n).len() <= n,
{
    reveal_strlit("…");
}

/// A query pagination from `start` to `end` visits `end - start + 1` pages, page by page.
pub proof fn law_query_pages_are_numbered(url: Seq<char>, param: Seq<char>, start: nat, end: nat)
    requires
        start <= end,
    ensures
        query_pages(url, param, start, end).len() == end - start + 1,
        forall|k: int|
            0 <= k <= end - start ==> #[trigger] query_pages(url, param, start, end)[k] == query_page_url(
                url,
                param,
                (start + k) as nat,
            ),
{
}

/// Every downloaded image's file name starts with its index, zero-padded to four digits.
pub proof fn law_file_names_start_with_index(url: Seq<char>, idx: nat)
    ensures
        starts_with(filename_spec(url, idx), zero_pad(decimal(idx), 4)),
{
    let num = zero_pad(decimal(idx), 4);
    let f = filename_spec(url, idx);
    assert(f.take(num.len() as int) =~= num);
}

/// The directory name picked is determined by the title, the policies, the time and the
/// names in use.
pub proof fn law_reservation_is_determined(
    title: Seq<char>,
    naming: Seq<char>,
    collision: Seq<char>,
    now: u64,
    tk: Seq<Seq<char>>,
    r1: (Seq<char>, bool),
    r2: (Seq<char>, bool),
)
    requires
        reserve_spec(title, naming, collision, now, tk, r1),
        reserve_spec(title, naming, collision, now, tk, r2),
    ensures
        r1 == r2,
{
    let bn = base_name(title, naming, now);
    let first = dir_candidate(bn, collision, now, None);
    if !tk.contains(first) || collision == "merge"@ {
    } else if exists|n: nat| 2 <= n < 10000 && !tk.contains(#[trigger] dir_candidate(bn, collision, now, Some(n))) {
        let n1 = choose|n: nat|
            2 <= n < 10000 && r1.0 == #[trigger] dir_candidate(bn, collision, now, Some(n)) && !tk.contains(r1.0)
                && forall|m: nat| 2 <= m < n ==> tk.contains(#[trigger] dir_candidate(bn, collision, now, Some(m)));
        let n2 = choose|n: nat|
            2 <= n < 10000 && r2.0 == #[trigger] dir_candidate(bn, collision, now, Some(n)) && !tk.contains(r2.0)
                && forall|m: nat| 2 <= m < n ==> tk.contains(#[trigger] dir_candidate(bn, collision, now, Some(m)));
        if n1 < n2 {
            assert(tk.contains(dir_candidate(bn, collision, now, Some(n1))));
        } else if n2 < n1 {
            assert(tk.contains(dir_candidate(bn, collision, now, Some(n2))));
        }
    } else {
    }
}

/// Releasing a name that was just reserved leaves the reservations as they were before it.
pub proof fn law_release_undoes_reservation(locked: Seq<Seq<char>>, name: Seq<char>)
    requires
        !locked.contains(name),
    ensures
        without(locked.push(name), name) == locked,
{
    reveal(Seq::filter);
    let l2 = locked.push(name);
    assert(l2.last() == name);
    assert(l2.drop_last() =~= locked);
    assert(without(l2, name) == without(l2.drop_last(), name));
    lemma_without_keeps_all(locked, name);
}

proof fn lemma_without_keeps_all(s: Seq<Seq<char>>, name: Seq<char>)
    requires
        !s.contains(name),
    ensures
        without(s, name) == s,
    decreases s.len(),
{
    reveal(Seq::filter);
    if s.len() > 0 {
        let p = s.drop_last();
        assert(!p.contains(name)) by {
            if p.contains(name) {
                let i = choose|i: int| 0 <= i < p.len() && p[i] == name;
                assert(s[i] == name);
            }
        }
        lemma_without_keeps_all(p, name);
        assert(s.contains(s[s.len() - 1]));
        assert(s.last() != name);
        assert(without(s, name) == without(p, name).push(s.last()));
        assert(s =~= p.push(s.last()));
    }
}

/// A name that was reserved and then released is picked again by the same reservation: with
/// the names on disk unchanged, the released name's slot is free once more.
pub proof fn law_name_can_be_reserved_again(
    title: Seq<char>,
    naming: Seq<char>,
    collision: Seq<char>,
    now: u64,
    disk: Seq<Seq<char>>,
    locked: Seq<Seq<char>>,
    r1: (Seq<char>, bool),
    r2: (Seq<char>, bool),
)
    requires
        reserve_spec(title, naming, collision, now, disk + locked, r1),
        !locked.contains(r1.0),
        reserve_spec(title, naming, collision, now, disk + without(locked.push(r1.0), r1.0), r2),
    ensures
        r2 == r1,
{
    law_release_undoes_reservation(locked, r1.0);
    law_reservation_is_determined(title, naming, collision, now, disk + locked, r1, r2);
}

/// No two pairs of `h` share a name.
pub open spec fn distinct_names(h: Seq<(Seq<char>, Seq<char>)>) -> bool {
    forall|i: int, j: int| 0 <= i < j < h.len() ==> #[trigger] h[i].0 != #[trigger] h[j].0
}

proof fn lemma_header_names_come_from_raw(
    raw: Seq<(Seq<char>, Seq<char>)>,
    env: Seq<(Seq<char>, Seq<char>)>,
    k: int,
)
    requires
        0 <= k < headers_spec(raw, env).len(),
    ensures
        exists|i: int| 0 <= i < raw.len() && #[trigger] raw[i].0 == headers_spec(raw, env)[k].0,
    decreases raw.len(),
{
    let prev = headers_spec(raw.drop_last(), env);
    if k < prev.len() {
        lemma_header_names_come_from_raw(raw.drop_last(), env, k);
        let i = choose|i: int| 0 <= i < raw.drop_last().len() && #[trigger] raw.drop_last()[i].0 == prev[k].0;
        assert(raw[i] == raw.drop_last()[i]);
    } else {
        assert(raw[raw.len() - 1].0 == headers_spec(raw, env)[k].0);
    }
}

/// Headers with distinct names keep distinct names when prepared for sending (as the
/// source file's header table gives them).
pub proof fn law_headers_keep_names_distinct(
    raw: Seq<(Seq<char>, Seq<char>)>,
    env: Seq<(Seq<char>, Seq<char>)>,
)
    requires
        distinct_names(raw),
    ensures
        distinct_names(headers_spec(raw, env)),
    decreases raw.len(),
{
    if raw.len() > 0 {
        let p = raw.drop_last();
        assert(distinct_names(p)) by {
            assert forall|i: int, j: int| 0 <= i < j < p.len() implies #[trigger] p[i].0 != #[trigger] p[j].0 by {
                assert(p[i] == raw[i] && p[j] == raw[j]);
                assert(raw[i].0 != raw[j].0);
            }
        }
        law_headers_keep_names_distinct(p, env);
        let prev = headers_spec(p, env);
        let h = headers_spec(raw, env);
        if !eq_ignore_ascii_case(raw.last().0, "user-agent"@) {
            assert forall|i: int, j: int| 0 <= i < j < h.len() implies #[trigger] h[i].0 != #[trigger] h[j].0 by {
                if j < prev.len() {
                    assert(h[i] == prev[i] && h[j] == prev[j]);
                } else {
                    assert(h[i] == prev[i]);
                    lemma_header_names_come_from_raw(p, env, i);
                    let q = choose|q: int| 0 <= q < p.len() && #[trigger] p[q].0 == prev[i].0;
                    assert(p[q] == raw[q]);
                    assert(raw[q].0 != raw[raw.len() - 1].0);
                }
            }
        }
    }
}

/// A next-link crawl visits at most `max` pages (at least the start page): starting from the
/// start page alone, a step taken only while fewer than `max` pages are visited keeps the count
/// within `page_cap(max)`.
pub proof fn law_next_link_pages_are_capped(visited: Seq<Seq<char>>, next: Option<Seq<char>>, max: usize)
    requires
        1 <= visited.len() <= page_cap(max),
    ensures
        seq![visited[0]].len() <= page_cap(max),
        (if visited.len() < max && accepts_next(visited, next) {
            visited.push(next->0)
        } else {
            visited
        }).len() <= page_cap(max),
{
}

/// A download that keeps failing is attempted `retries + 1` times: once, then once per retry.
pub proof fn law_failing_download_is_tried_retries_plus_one_times(retries: u32)
    ensures
        attempts_from(0, retries) == retries + 1,
{
    lemma_attempts_from(0, retries);
}

proof fn lemma_attempts_from(a: nat, retries: u32)
    requires
        a <= retries,
    ensures
        attempts_from(a, retries) == retries - a + 1,
    decreases retries - a,
{
    if a < retries {
        lemma_attempts_from(a + 1, retries);
    }
}

} // verus!

verus! {

/// A text document's header holds the author line when there is an author and the date line
/// when there is a date, each independently of the other: with both, a one-part document is
/// the title, the author, the date, a blank line and the part.
pub proof fn law_text_header_holds_author_and_date(
    title: Seq<char>,
    author: Seq<char>,
    date: Seq<char>,
    part: Seq<char>,
    sep: Seq<char>,
)
    requires
        trim(part).len() > 0,
    ensures
        author.len() > 0 && date.len() > 0 ==> crate::crawler::finish_spec(
            title,
            author,
            date,
            seq![part],
            Seq::empty(),
            None,
            sep,
        ) == Ok::<(Seq<char>, Seq<char>), Seq<char>>(
            (title, title + "\n"@ + author + "\n"@ + date + "\n"@ + "\n"@ + part),
        ),
        author.len() == 0 && date.len() > 0 ==> crate::crawler::finish_spec(
            title,
            author,
            date,
            seq![part],
            Seq::empty(),
            None,
            sep,
        ) == Ok::<(Seq<char>, Seq<char>), Seq<char>>((title, title + "\n"@ + date + "\n"@ + "\n"@ + part)),
        author.len() > 0 && date.len() == 0 ==> crate::crawler::finish_spec(
            title,
            author,
            date,
            seq![part],
            Seq::empty(),
            None,
            sep,
        ) == Ok::<(Seq<char>, Seq<char>), Seq<char>>((title, title + "\n"@ + author + "\n"@ + "\n"@ + part)),
{
    assert(crate::crawler::join_spec(seq![part], sep) == part);
    assert(crate::crawler::stripped(part, Seq::empty()) == part);
    let r = crate::crawler::finish_spec(title, author, date, seq![part], Seq::empty(), None, sep);
    if author.len() > 0 && date.len() > 0 {
        assert(r->Ok_0.1 =~= title + "\n"@ + author + "\n"@ + date + "\n"@ + "\n"@ + part);
    }
    if author.len() == 0 && date.len() > 0 {
        assert(r->Ok_0.1 =~= title + "\n"@ + date + "\n"@ + "\n"@ + part);
    }
    if author.len() > 0 && date.len() == 0 {
        assert(r->Ok_0.1 =~= title + "\n"@ + author + "\n"@ + "\n"@ + part);
    }
}

/// The images of a detail page with one image field `f` are the values of `f` over the
/// elements selected by the field's selector scoped to the detail's own container when it
/// has one, else to the listing's container, else unscoped.
pub proof fn law_detail_pages_use_their_own_container(
    html: Seq<char>,
    img: crate::config::ImageRules,
    d: crate::config::ImageDetail,
    f: crate::config::Field,
    base: Seq<char>,
    dens: spec_fn(Seq<char>) -> u64,
)
    requires
        d.images@ == seq![f],
    ensures
        ({
            let ex = crate::crawler::str_views(d.exclude@);
            let got = crate::crawler::combined_values(
                html,
                d.images@,
                crate::extract::detail_container(img, d),
                base,
                ex,
                crate::text::opt_view(d.combine),
                dens,
            );
            let sel = match d.container {
                Some(c) => c@ + " "@ + f.selector@,
                None => match img.container {
                    Some(ic) => ic@ + " "@ + f.selector@,
                    None => f.selector@,
                },
            };
            got == if crate::html::css_parses(sel) {
                crate::crawler::field_values(html, crate::html::doc_select(html, sel), f, base, ex, dens)
            } else {
                Seq::empty()
            }
        }),
{
    let ex = crate::crawler::str_views(d.exclude@);
    let cont = crate::extract::detail_container(img, d);
    let v = crate::crawler::one_field_values(html, f, cont, base, ex, dens);
    let fs = seq![f];
    assert(fs.drop_last() =~= Seq::<crate::config::Field>::empty());
    assert(fs.drop_first() =~= Seq::<crate::config::Field>::empty());
    assert(fs.last() == f && fs[0] == f);
    assert(crate::crawler::fields_values(html, fs.drop_last(), cont, base, ex, dens) == Seq::<Seq<char>>::empty());
    assert(crate::crawler::fields_values(html, fs, cont, base, ex, dens) =~= v);
    assert(crate::crawler::first_fields_values(html, fs.drop_first(), cont, base, ex, dens) == Seq::<Seq<char>>::empty());
    if v.len() == 0 {
        assert(crate::crawler::first_fields_values(html, fs, cont, base, ex, dens) =~= v);
    } else {
        assert(crate::crawler::first_fields_values(html, fs, cont, base, ex, dens) == v);
    }
}

/// A column with a compiling regex and no `replace` deletes every match of the regex from
/// its raw value: the same as `replace = ""`.
pub proof fn law_regex_without_replace_deletes_matches(
    html: Seq<char>,
    row: usize,
    col: crate::config::Column,
    empty: String,
    base: Seq<char>,
    dens: spec_fn(Seq<char>) -> u64,
)
    requires
        col.regex is Some,
        crate::pattern::regex_compiles(col.regex->0@),
        col.replace is None,
        empty@.len() == 0,
    ensures
        ({
            let raw = match col.selector {
                Some(s) => crate::crawler::el_get_spec(html, row, s@, col.get@, base, dens),
                None => crate::crawler::get_spec(html, row, col.get@, base, dens),
            };
            let raw = match raw {
                Some(v) => v,
                None => Seq::empty(),
            };
            crate::crawler::column_spec(html, row, col, base, dens) == crate::pattern::regex_replace_all(
                col.regex->0@,
                raw,
                Seq::empty(),
            )
        }),
        crate::crawler::column_spec(html, row, col, base, dens) == crate::crawler::column_spec(
            html,
            row,
            crate::config::Column { replace: Some(empty), ..col },
            base,
            dens,
        ),
{
    assert(empty@ =~= Seq::<char>::empty());
}

/// `get = "html"` gives the element's inner HTML (trimmed), exactly as `get = "innerHtml"`,
/// and never the outer HTML with the element's own tag.
pub proof fn law_html_get_is_inner_html(html: Seq<char>, el: usize, base: Seq<char>, dens: spec_fn(Seq<char>) -> u64)
    ensures
        crate::crawler::get_spec(html, el, "html"@, base, dens) == Some(trim(crate::html::elem_inner_html(html, el))),
        crate::crawler::get_spec(html, el, "innerHtml"@, base, dens) == Some(trim(crate::html::elem_inner_html(html, el))),
        crate::crawler::get_spec(html, el, "outerHtml"@, base, dens) == Some(trim(crate::html::elem_outer_html(html, el))),
{
    reveal_strlit("html");
    reveal_strlit("innerHtml");
    reveal_strlit("outerHtml");
    reveal_strlit("text");
    reveal_strlit("ownText");
}

/// A source accepts a URL whose host equals, or is a subdomain of, any one of its domains
/// (compared in lower case), provided the lower-cased URL contains its `match` when it has
/// one; and it accepts no other URL.
pub proof fn law_any_listed_domain_matches(
    domains: Seq<Seq<char>>,
    match_: Option<Seq<char>>,
    host: Seq<char>,
    lurl: Seq<char>,
    j: int,
)
    requires
        0 <= j < domains.len(),
        host == crate::text::lowercase(domains[j]) || crate::text::ends_with(
            host,
            "."@ + crate::text::lowercase(domains[j]),
        ),
        match match_ {
            None => true,
            Some(m) => crate::text::contains(lurl, crate::text::lowercase(m)),
        },
    ensures
        crate::util::source_accepts(domains, match_, host, lurl),
{
    assert(crate::util::domain_matches(host, domains[j]));
}

/// Conversely, an accepting source has a domain that the host equals or is a subdomain of.
pub proof fn law_accepting_source_has_matching_domain(
    domains: Seq<Seq<char>>,
    match_: Option<Seq<char>>,
    host: Seq<char>,
    lurl: Seq<char>,
)
    requires
        crate::util::source_accepts(domains, match_, host, lurl),
    ensures
        exists|j: int|
            0 <= j < domains.len() && (host == crate::text::lowercase(#[trigger] domains[j])
                || crate::text::ends_with(host, "."@ + crate::text::lowercase(domains[j]))),
        match match_ {
            None => true,
            Some(m) => crate::text::contains(lurl, crate::text::lowercase(m)),
        },
{
    let j = choose|j: int| 0 <= j < domains.len() && crate::util::domain_matches(host, #[trigger] domains[j]);
    assert(host == crate::text::lowercase(domains[j]) || crate::text::ends_with(host, "."@ + crate::text::lowercase(domains[j])));
}

} // verus!

verus! {

/// A text document is `nothing extracted` exactly when its body is blank; two parts are joined
/// by the separator, in order, under the header.
pub proof fn law_text_body_is_the_joined_parts(
    title: Seq<char>,
    author: Seq<char>,
    date: Seq<char>,
    p1: Seq<char>,
    p2: Seq<char>,
    sep: Seq<char>,
)
    ensures
        trim(p1).len() == 0 ==> crate::crawler::finish_spec(title, author, date, seq![p1], Seq::empty(), None, sep)
            == Err::<(Seq<char>, Seq<char>), Seq<char>>("nothing extracted"@),
        trim(p1 + sep + p2).len() > 0 ==> crate::crawler::finish_spec(
            title,
            author,
            date,
            seq![p1, p2],
            Seq::empty(),
            None,
            sep,
        ) == Ok::<(Seq<char>, Seq<char>), Seq<char>>(
            (
                title,
                title + "\n"@ + (if author.len() > 0 {
                    author + "\n"@
                } else {
                    Seq::empty()
                }) + (if date.len() > 0 {
                    date + "\n"@
                } else {
                    Seq::empty()
                }) + "\n"@ + p1 + sep + p2,
            ),
        ),
{
    assert(crate::crawler::join_spec(seq![p1], sep) == p1);
    let two = seq![p1, p2];
    assert(two.drop_last() =~= seq![p1]);
    assert(two.last() == p2);
    assert(crate::crawler::join_spec(two, sep) == p1 + sep + p2);
    assert(crate::crawler::stripped(p1, Seq::empty()) == p1);
    assert(crate::crawler::stripped(p1 + sep + p2, Seq::empty()) == p1 + sep + p2);
    let r = crate::crawler::finish_spec(title, author, date, two, Seq::empty(), None, sep);
    if trim(p1 + sep + p2).len() > 0 {
        assert(r->Ok_0.1 =~= title + "\n"@ + (if author.len() > 0 {
            author + "\n"@
        } else {
            Seq::empty()
        }) + (if date.len() > 0 {
            date + "\n"@
        } else {
            Seq::empty()
        }) + "\n"@ + p1 + sep + p2);
    }
}

/// `get = "text"` gives the element's descendant text, trimmed.
pub proof fn law_text_get_is_element_text(html: Seq<char>, el: usize, base: Seq<char>, dens: spec_fn(Seq<char>) -> u64)
    ensures
        crate::crawler::get_spec(html, el, "text"@, base, dens) == Some(trim(crate::html::elem_text(html, el))),
{
    reveal_strlit("text");
}

} // verus!
