//! The dashboard's decisions: key handling over the focused pane and selections, the
//! header counters, each task's progress cell, and text fitting.
use vstd::prelude::*;

use crate::state::{TaskData, TaskStatus};
use crate::text::{chars_of, decimal, decimal_chars, extend_chars, str_equal, string_of, zero_pad, zero_padded};

verus! {

/// The pane that has the keyboard focus.
#[derive(Clone, Copy, PartialEq, Eq, Structural)]
pub enum Focus {
    Tasks,
    Logs,
    History,
}

/// The dashboard's navigation state: focus and the selected task and history row.
#[derive(Clone, Copy, PartialEq, Eq, Structural)]
pub struct Nav {
    pub focus: Focus,
    pub tsel: usize,
    pub hsel: usize,
}

/// The keys the dashboard reacts to (`q`/Esc, Tab, `r`, Delete, Up/`k`, Down/`j`, `c`, Enter).
#[derive(Clone, Copy, PartialEq, Eq, Structural)]
pub enum Key {
    Quit,
    Tab,
    Retry,
    Delete,
    Up,
    Down,
    Clear,
    Enter,
    Other,
}

/// What the dashboard does after a key.
#[derive(Clone, Copy, PartialEq, Eq, Structural)]
pub enum Action {
    Nothing,
    Quit,
    RetryTask(usize),
    RetryHistory(usize),
    DeleteHistory(usize),
    ClearFinishedTasks,
    ClearLogs,
    OpenTaskDir(usize),
    OpenHistoryDir(usize),
}

/// The focus after Tab: Tasks, then Logs, then History, then Tasks again.
pub open spec fn next_focus(f: Focus) -> Focus {
    match f {
        Focus::Tasks => Focus::Logs,
        Focus::Logs => Focus::History,
        Focus::History => Focus::Tasks,
    }
}

/// A selection within `count` rows: the last row when it is past the end of a non-empty list.
pub open spec fn clamp_spec(sel: usize, count: usize) -> usize {
    if count > 0 && sel >= count {
        (count - 1) as usize
    } else {
        sel
    }
}

/// A selection is in range: below the count, or anything for an empty list.
pub open spec fn in_range(sel: usize, count: usize) -> bool {
    count == 0 || sel < count
}

/// Keeps the selections inside the current task and history lists (done before each frame).
pub fn clamp_nav(nav: Nav, tasks: usize, history: usize) -> (r: Nav)
    ensures
        r.focus == nav.focus,
        r.tsel == clamp_spec(nav.tsel, tasks),
        r.hsel == clamp_spec(nav.hsel, history),
        in_range(r.tsel, tasks),
        in_range(r.hsel, history),
{
    let tsel = if tasks > 0 && nav.tsel >= tasks { tasks - 1 } else { nav.tsel };
    let hsel = if history > 0 && nav.hsel >= history { history - 1 } else { nav.hsel };
    Nav { focus: nav.focus, tsel, hsel }
}

/// The dashboard's response to a key, given the numbers of tasks and history rows.
pub open spec fn key_spec(nav: Nav, key: Key, tasks: usize, history: usize) -> (Nav, Action) {
    match key {
        Key::Quit => (nav, Action::Quit),
        Key::Tab => (Nav { focus: next_focus(nav.focus), ..nav }, Action::Nothing),
        Key::Retry => match nav.focus {
            Focus::Tasks => (nav, if nav.tsel < tasks { Action::RetryTask(nav.tsel) } else { Action::Nothing }),
            Focus::History => (nav, if nav.hsel < history { Action::RetryHistory(nav.hsel) } else { Action::Nothing }),
            Focus::Logs => (nav, Action::Nothing),
        },
        Key::Delete => match nav.focus {
            Focus::History => (nav, if nav.hsel < history { Action::DeleteHistory(nav.hsel) } else { Action::Nothing }),
            _ => (nav, Action::Nothing),
        },
        Key::Up => match nav.focus {
            Focus::Tasks => (Nav { tsel: if nav.tsel > 0 { (nav.tsel - 1) as usize } else { nav.tsel }, ..nav }, Action::Nothing),
            Focus::History => (Nav { hsel: if nav.hsel > 0 { (nav.hsel - 1) as usize } else { nav.hsel }, ..nav }, Action::Nothing),
            Focus::Logs => (nav, Action::Nothing),
        },
        Key::Down => match nav.focus {
            Focus::Tasks => (Nav {
                tsel: if tasks > 0 && nav.tsel + 1 < tasks { (nav.tsel + 1) as usize } else { nav.tsel },
                ..nav
            }, Action::Nothing),
            Focus::History => (Nav {
                hsel: if nav.hsel + 1 < history { (nav.hsel + 1) as usize } else { nav.hsel },
                ..nav
            }, Action::Nothing),
            Focus::Logs => (nav, Action::Nothing),
        },
        Key::Clear => match nav.focus {
            Focus::Tasks => (nav, Action::ClearFinishedTasks),
            Focus::Logs => (nav, Action::ClearLogs),
            Focus::History => (nav, Action::Nothing),
        },
        Key::Enter => match nav.focus {
            Focus::Tasks => (nav, if nav.tsel < tasks { Action::OpenTaskDir(nav.tsel) } else { Action::Nothing }),
            Focus::History => (nav, if nav.hsel < history { Action::OpenHistoryDir(nav.hsel) } else { Action::Nothing }),
            Focus::Logs => (nav, Action::Nothing),
        },
        Key::Other => (nav, Action::Nothing),
    }
}

/// Handles one key (see `key_spec`).
pub fn on_key(nav: Nav, key: Key, tasks: usize, history: usize) -> (r: (Nav, Action))
    ensures
        r == key_spec(nav, key, tasks, history),
{
    match key {
        Key::Quit => (nav, Action::Quit),
        Key::Tab => {
            let f = match nav.focus {
                Focus::Tasks => Focus::Logs,
                Focus::Logs => Focus::History,
                Focus::History => Focus::Tasks,
            };
            (Nav { focus: f, tsel: nav.tsel, hsel: nav.hsel }, Action::Nothing)
        },
        Key::Retry => match nav.focus {
            Focus::Tasks => (nav, if nav.tsel < tasks { Action::RetryTask(nav.tsel) } else { Action::Nothing }),
            Focus::History => (nav, if nav.hsel < history { Action::RetryHistory(nav.hsel) } else { Action::Nothing }),
            Focus::Logs => (nav, Action::Nothing),
        },
        Key::Delete => match nav.focus {
            Focus::History => (nav, if nav.hsel < history { Action::DeleteHistory(nav.hsel) } else { Action::Nothing }),
            _ => (nav, Action::Nothing),
        },
        Key::Up => match nav.focus {
            Focus::Tasks => (Nav { focus: nav.focus, tsel: if nav.tsel > 0 { nav.tsel - 1 } else { nav.tsel }, hsel: nav.hsel }, Action::Nothing),
            Focus::History => (Nav { focus: nav.focus, tsel: nav.tsel, hsel: if nav.hsel > 0 { nav.hsel - 1 } else { nav.hsel } }, Action::Nothing),
            Focus::Logs => (nav, Action::Nothing),
        },
        Key::Down => match nav.focus {
            Focus::Tasks => {
                let t = if tasks > 0 && nav.tsel < tasks - 1 { nav.tsel + 1 } else { nav.tsel };
                (Nav { focus: nav.focus, tsel: t, hsel: nav.hsel }, Action::Nothing)
            },
            Focus::History => {
                let h = if history > 0 && nav.hsel < history - 1 { nav.hsel + 1 } else { nav.hsel };
                (Nav { focus: nav.focus, tsel: nav.tsel, hsel: h }, Action::Nothing)
            },
            Focus::Logs => (nav, Action::Nothing),
        },
        Key::Clear => match nav.focus {
            Focus::Tasks => (nav, Action::ClearFinishedTasks),
            Focus::Logs => (nav, Action::ClearLogs),
            Focus::History => (nav, Action::Nothing),
        },
        Key::Enter => match nav.focus {
            Focus::Tasks => (nav, if nav.tsel < tasks { Action::OpenTaskDir(nav.tsel) } else { Action::Nothing }),
            Focus::History => (nav, if nav.hsel < history { Action::OpenHistoryDir(nav.hsel) } else { Action::Nothing }),
            Focus::Logs => (nav, Action::Nothing),
        },
        Key::Other => (nav, Action::Nothing),
    }
}

/// `MM:SS` for a duration of `secs` seconds (minutes are not capped; at least two digits each).
pub open spec fn fmt_dur_spec(secs: u64) -> Seq<char> {
    zero_pad(decimal((secs / 60) as nat), 2) + ":"@ + zero_pad(decimal((secs % 60) as nat), 2)
}

/// Formats an elapsed time given in whole seconds as `MM:SS`.
pub fn fmt_dur(secs: u64) -> (r: String)
    ensures
        r@ == fmt_dur_spec(secs),
{
    let mut v = zero_padded(secs / 60, 2);
    v.push(':');
    extend_chars(&mut v, &zero_padded(secs % 60, 2));
    proof {
        reveal_strlit(":");
    }
    string_of(v.as_slice())
}

/// `s` when it has at most `n` characters, else its first `n - 1` characters and `…`.
pub open spec fn truncate_spec(s: Seq<char>, n: usize) -> Seq<char> {
    if s.len() <= n {
        s
    } else {
        s.take(if n > 0 { n - 1 } else { 0 }) + "…"@
    }
}

/// Fits `s` into `n` characters, marking a cut with `…`.
pub fn truncate(s: &str, n: usize) -> (r: String)
    ensures
        r@ == truncate_spec(s@, n),
{
    let v = chars_of(s);
    if v.len() <= n {
        return String::from_str(s);
    }
    let keep = if n > 0 { n - 1 } else { 0 };
    let mut out = crate::util::prefix_of(&v, keep);
    out.push('…');
    proof {
        reveal_strlit("…");
    }
    string_of(out.as_slice())
}

/// The header counters: tasks queued, running, done and failed, and files obtained.
pub struct Counts {
    pub queued: usize,
    pub running: usize,
    pub done: usize,
    pub failed: usize,
    pub files: usize,
}

/// Whether a task downloads image files (its progress counts files).
pub open spec fn counts_files(t: TaskData) -> bool {
    t.mode@ == "image"@ && t.output@ != "csv"@
}

/// What a task adds to the files counter: its downloaded files, or 1 once done.
pub open spec fn files_of(t: TaskData) -> nat {
    if counts_files(t) {
        t.done as nat
    } else if t.status == TaskStatus::Done {
        1
    } else {
        0
    }
}

/// The number of tasks with status `s`.
pub open spec fn count_status(tasks: Seq<TaskData>, s: TaskStatus) -> nat
    decreases tasks.len(),
{
    if tasks.len() == 0 {
        0
    } else {
        count_status(tasks.drop_last(), s) + if tasks.last().status == s {
            1nat
        } else {
            0nat
        }
    }
}

/// The files counter over `tasks`.
pub open spec fn files_total(tasks: Seq<TaskData>) -> nat
    decreases tasks.len(),
{
    if tasks.len() == 0 {
        0
    } else {
        files_total(tasks.drop_last()) + files_of(tasks.last())
    }
}

proof fn lemma_count_status_le(tasks: Seq<TaskData>, s: TaskStatus)
    ensures
        count_status(tasks, s) <= tasks.len(),
    decreases tasks.len(),
{
    if tasks.len() > 0 {
        lemma_count_status_le(tasks.drop_last(), s);
    }
}

proof fn lemma_files_total_mono(tasks: Seq<TaskData>, i: int)
    requires
        0 <= i <= tasks.len(),
    ensures
        files_total(tasks.take(i)) <= files_total(tasks),
    decreases tasks.len() - i,
{
    if i < tasks.len() {
        lemma_files_total_mono(tasks, i + 1);
        assert(tasks.take(i + 1).drop_last() =~= tasks.take(i));
    } else {
        assert(tasks.take(i) =~= tasks);
    }
}

/// Counts the tasks by status and the files obtained, for the dashboard header.
pub fn task_counts(tasks: &Vec<TaskData>) -> (r: Counts)
    requires
        files_total(tasks@) <= usize::MAX,
    ensures
        r.queued == count_status(tasks@, TaskStatus::Queued),
        r.running == count_status(tasks@, TaskStatus::Running),
        r.done == count_status(tasks@, TaskStatus::Done),
        r.failed == count_status(tasks@, TaskStatus::Failed),
        r.files == files_total(tasks@),
{
    let mut c = Counts { queued: 0, running: 0, done: 0, failed: 0, files: 0 };
    for i in 0..tasks.len()
        invariant
            files_total(tasks@) <= usize::MAX,
            c.queued == count_status(tasks@.take(i as int), TaskStatus::Queued),
            c.running == count_status(tasks@.take(i as int), TaskStatus::Running),
            c.done == count_status(tasks@.take(i as int), TaskStatus::Done),
            c.failed == count_status(tasks@.take(i as int), TaskStatus::Failed),
            c.files == files_total(tasks@.take(i as int)),
    {
        let ghost pre = tasks@.take(i as int);
        assert(tasks@.take(i + 1).drop_last() =~= pre);
        proof {
            lemma_count_status_le(pre, TaskStatus::Queued);
            lemma_count_status_le(pre, TaskStatus::Running);
            lemma_count_status_le(pre, TaskStatus::Done);
            lemma_count_status_le(pre, TaskStatus::Failed);
            lemma_files_total_mono(tasks@, i + 1);
        }
        let t = &tasks[i];
        let image_files = str_equal(t.mode.as_str(), "image") && !str_equal(t.output.as_str(), "csv");
        if image_files {
            c.files = c.files + t.done;
        } else if t.status == TaskStatus::Done {
            c.files = c.files + 1;
        }
        match t.status {
            TaskStatus::Queued => c.queued = c.queued + 1,
            TaskStatus::Running => c.running = c.running + 1,
            TaskStatus::Done => c.done = c.done + 1,
            TaskStatus::Failed => c.failed = c.failed + 1,
        }
    }
    assert(tasks@.take(tasks@.len() as int) =~= tasks@);
    c
}

/// A task's progress cell.
#[derive(Clone, Copy, PartialEq, Eq, Structural)]
pub enum Progress {
    /// The task's error, shortened.
    Error,
    /// Waiting for its turn.
    Queued,
    /// A data task: this many rows.
    Rows(usize),
    /// A single-page text task.
    Text,
    /// A progress bar of done against total.
    Bar,
    /// An image task exporting links: this many links.
    Links(usize),
}

/// The progress cell of a task: its error when failed, `queued` when queued; otherwise by
/// kind: rows for data, a bar for multi-page text, links for image lists exported as CSV,
/// and a bar for everything else.
pub open spec fn progress_spec(status: TaskStatus, kind: Seq<char>, output: Seq<char>, done: usize, total: usize) -> Progress {
    match status {
        TaskStatus::Failed => Progress::Error,
        TaskStatus::Queued => Progress::Queued,
        _ => if kind == "data"@ {
            Progress::Rows(if total >= done { total } else { done })
        } else if kind == "text"@ {
            if total > 1 {
                Progress::Bar
            } else {
                Progress::Text
            }
        } else if output == "csv"@ {
            Progress::Links(done)
        } else {
            Progress::Bar
        },
    }
}

/// Decides a task's progress cell (see `progress_spec`).
pub fn progress_of(status: TaskStatus, kind: &str, output: &str, done: usize, total: usize) -> (r: Progress)
    ensures
        r == progress_spec(status, kind@, output@, done, total),
{
    match status {
        TaskStatus::Failed => Progress::Error,
        TaskStatus::Queued => Progress::Queued,
        _ => if str_equal(kind, "data") {
            Progress::Rows(if total >= done { total } else { done })
        } else if str_equal(kind, "text") {
            if total > 1 {
                Progress::Bar
            } else {
                Progress::Text
            }
        } else if str_equal(output, "csv") {
            Progress::Links(done)
        } else {
            Progress::Bar
        },
    }
}

} // verus!

verus! {

/// Whether a task is finished (done or failed); clearing the task list removes those.
pub fn is_finished(status: TaskStatus) -> (r: bool)
    ensures
        r == (status == TaskStatus::Done || status == TaskStatus::Failed),
{
    match status {
        TaskStatus::Done | TaskStatus::Failed => true,
        _ => false,
    }
}

} // verus!

verus! {

/// The colour band of a progress bar: nearly complete, at least half, or less.
#[derive(Clone, Copy, PartialEq, Eq, Structural)]
pub enum BarTone {
    Full,
    Half,
    Low,
}

/// The filled part of a 14-cell progress bar in eighths of a cell: done against total
/// (capped at the whole bar), rounded to the nearest eighth (halves up); 0 for an empty total.
pub open spec fn bar_eighths(done: usize, total: usize) -> nat {
    if total == 0 {
        0
    } else if done >= total {
        112
    } else {
        ((224 * done + total) / (2 * total)) as nat
    }
}

/// The colour band of a bar: `Full` from 99.9% on, `Half` from 50% on, `Low` below (and for
/// an empty total).
pub open spec fn bar_tone(done: usize, total: usize) -> BarTone {
    if total > 0 && 1000 * done >= 999 * total {
        BarTone::Full
    } else if total > 0 && 2 * done >= total {
        BarTone::Half
    } else {
        BarTone::Low
    }
}

/// The cells of a progress bar: whole cells filled, the eighths of the partial cell, and the
/// colour band.
pub fn bar_cells(done: usize, total: usize) -> (r: (usize, usize, BarTone))
    ensures
        r.0 == bar_eighths(done, total) / 8,
        r.1 == bar_eighths(done, total) % 8,
        r.0 <= 14,
        r.2 == bar_tone(done, total),
{
    let eighths: u128 = if total == 0 {
        0
    } else if done >= total {
        112
    } else {
        let d = done as u128;
        let t = total as u128;
        assert((224 * d + t) / (2 * t) <= 112) by (nonlinear_arith)
            requires
                d < t,
                t > 0,
        ;
        (224 * d + t) / (2 * t)
    };
    let e = eighths as usize;
    let tone = if total > 0 && 1000 * (done as u128) >= 999 * (total as u128) {
        BarTone::Full
    } else if total > 0 && 2 * (done as u128) >= total as u128 {
        BarTone::Half
    } else {
        BarTone::Low
    };
    (e / 8, e % 8, tone)
}

} // verus!
