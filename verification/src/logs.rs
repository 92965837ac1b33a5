//! The in-memory log that drives the dashboard's log pane: a bounded queue of lines.
use vstd::prelude::*;

use crate::text::{chars_of, contains, extend_chars, string_of};

verus! {

/// The most lines the log keeps; older lines are dropped first.
pub const LOG_CAP: usize = 1000;

/// One log line: whether it reports a problem, and its text.
pub struct LogLine {
    pub warn: bool,
    pub text: String,
}

/// The log: its lines, oldest first, at most `LOG_CAP` of them.
pub struct LogBuffer {
    lines: Vec<LogLine>,
}

/// The (warn, text) view of a list of log lines.
pub open spec fn line_views(v: Seq<LogLine>) -> Seq<(bool, Seq<char>)> {
    v.map_values(|l: LogLine| (l.warn, l.text@))
}

impl View for LogBuffer {
    type V = Seq<(bool, Seq<char>)>;

    closed spec fn view(&self) -> Seq<(bool, Seq<char>)> {
        line_views(self.lines@)
    }
}

impl LogBuffer {
    /// The buffer holds at most `LOG_CAP` lines.
    #[verifier::type_invariant]
    closed spec fn wf(&self) -> bool {
        self.lines@.len() <= LOG_CAP
    }

    /// An empty log.
    pub fn new() -> (r: LogBuffer)
        ensures
            r@ == Seq::<(bool, Seq<char>)>::empty(),
    {
        let r = LogBuffer { lines: Vec::new() };
        assert(line_views(r.lines@) =~= Seq::<(bool, Seq<char>)>::empty());
        r
    }

    /// The number of lines held (never more than `LOG_CAP`).
    pub fn len(&self) -> (r: usize)
        ensures
            r == self@.len(),
            r <= LOG_CAP,
    {
        proof {
            use_type_invariant(self);
        }
        self.lines.len()
    }
}

/// Whether a line with this tag reports a problem: the tag mentions `err` or `fail`.
pub open spec fn is_warn_tag(tag: Seq<char>) -> bool {
    contains(tag, "err"@) || contains(tag, "fail"@)
}

/// The text of a log line: clock, tag and message separated by single spaces.
pub open spec fn line_text(clock: Seq<char>, tag: Seq<char>, msg: Seq<char>) -> Seq<char> {
    clock + " "@ + tag + " "@ + msg
}

/// The log after appending `line`: when full, the oldest line goes first.
pub open spec fn appended(lines: Seq<(bool, Seq<char>)>, line: (bool, Seq<char>)) -> Seq<(bool, Seq<char>)> {
    if lines.len() >= LOG_CAP {
        lines.drop_first().push(line)
    } else {
        lines.push(line)
    }
}

/// Appends a tagged line stamped with `clock` (the wall-clock time, `HH:MM:SS`).
pub fn log(buf: &mut LogBuffer, clock: &str, tag: &str, msg: &str)
    ensures
        final(buf)@ == appended(
            old(buf)@,
            (is_warn_tag(tag@), line_text(clock@, tag@, msg@)),
        ),
{
    let warn = crate::text::str_contains(tag, "err") || crate::text::str_contains(tag, "fail");
    let mut t = chars_of(clock);
    t.push(' ');
    extend_chars(&mut t, &chars_of(tag));
    t.push(' ');
    extend_chars(&mut t, &chars_of(msg));
    proof {
        reveal_strlit(" ");
        assert(t@ =~= line_text(clock@, tag@, msg@));
    }
    let line = LogLine { warn, text: string_of(t.as_slice()) };
    let mut taken = LogBuffer { lines: Vec::new() };
    std::mem::swap(buf, &mut taken);
    proof {
        use_type_invariant(&taken);
    }
    let LogBuffer { lines: mut lines } = taken;
    let ghost before = lines@;
    if lines.len() >= LOG_CAP {
        lines.remove(0);
        assert(line_views(lines@) =~= line_views(before).drop_first());
    }
    let ghost mid = lines@;
    lines.push(line);
    assert(line_views(lines@) =~= line_views(mid).push((warn, t@)));
    *buf = LogBuffer { lines };
}

/// Empties the log.
pub fn clear_logs(buf: &mut LogBuffer)
    ensures
        final(buf)@ == Seq::<(bool, Seq<char>)>::empty(),
{
    *buf = LogBuffer { lines: Vec::new() };
    assert(line_views(buf.lines@) =~= Seq::<(bool, Seq<char>)>::empty());
}

/// The lines of the log, oldest first, as (is_warn, text); never more than `LOG_CAP`.
pub fn log_snapshot(buf: &LogBuffer) -> (r: Vec<(bool, String)>)
    ensures
        r@.map_values(|p: (bool, String)| (p.0, p.1@)) == buf@,
        r@.len() <= LOG_CAP,
{
    proof {
        use_type_invariant(buf);
    }
    let mut out: Vec<(bool, String)> = Vec::new();
    for i in 0..buf.lines.len()
        invariant
            out@.map_values(|p: (bool, String)| (p.0, p.1@)) == line_views(buf.lines@).take(i as int),
    {
        let ghost before = out@;
        let t = buf.lines[i].text.clone();
        out.push((buf.lines[i].warn, t));
        assert(out@ =~= before.push((buf.lines@[i as int].warn, t)));
        let ghost lv = line_views(buf.lines@);
        assert(lv[i as int] == (buf.lines@[i as int].warn, buf.lines@[i as int].text@));
        assert(lv.take(i + 1) =~= lv.take(i as int).push(lv[i as int]));
        assert(out@.map_values(|p: (bool, String)| (p.0, p.1@)) =~= before.map_values(|p: (bool, String)| (p.0, p.1@)).push((buf.lines@[i as int].warn, t@)));
        assert(out@.map_values(|p: (bool, String)| (p.0, p.1@)) =~= line_views(buf.lines@).take(i + 1));
    }
    assert(line_views(buf.lines@).take(buf.lines@.len() as int) =~= line_views(buf.lines@));
    out
}

} // verus!
