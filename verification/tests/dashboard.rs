use snatch::logs::{clear_logs, log, log_snapshot, LogBuffer, LOG_CAP};
use snatch::state::{TaskData, TaskStatus};
use snatch::tui::{bar_cells, clamp_nav, BarTone, fmt_dur, is_finished, on_key, progress_of, task_counts, truncate, Action, Focus, Key, Nav, Progress};

fn nav(focus: Focus, tsel: usize, hsel: usize) -> Nav {
    Nav { focus, tsel, hsel }
}

#[test]
fn fmt_dur_is_minutes_and_seconds() {
    assert_eq!(fmt_dur(0), "00:00");
    assert_eq!(fmt_dur(61), "01:01");
    assert_eq!(fmt_dur(3600), "60:00");
    assert_eq!(fmt_dur(6005), "100:05");
}

#[test]
fn truncate_marks_cuts() {
    assert_eq!(truncate("hello", 5), "hello");
    assert_eq!(truncate("hello world", 5), "hell…");
    assert_eq!(truncate("abc", 0), "…");
    assert_eq!(truncate("日本語テキスト", 3), "日本…");
    assert!(truncate("hello world", 5).chars().count() <= 5);
}

#[test]
fn tab_cycles_through_three_panes() {
    let mut n = nav(Focus::Tasks, 0, 0);
    let mut seen = vec![];
    for _ in 0..3 {
        let (m, a) = on_key(n, Key::Tab, 0, 0);
        assert!(a == Action::Nothing);
        n = m;
        seen.push(n.focus);
    }
    assert!(seen == vec![Focus::Logs, Focus::History, Focus::Tasks]);
}

#[test]
fn arrow_keys_stay_in_range() {
    let (n, _) = on_key(nav(Focus::Tasks, 0, 0), Key::Up, 3, 0);
    assert_eq!(n.tsel, 0);
    let (n, _) = on_key(nav(Focus::Tasks, 1, 0), Key::Down, 3, 0);
    assert_eq!(n.tsel, 2);
    let (n, _) = on_key(nav(Focus::Tasks, 2, 0), Key::Down, 3, 0);
    assert_eq!(n.tsel, 2);
    let (n, _) = on_key(nav(Focus::History, 0, 4), Key::Up, 0, 5);
    assert_eq!(n.hsel, 3);
    let (n, _) = on_key(nav(Focus::History, 0, 0), Key::Down, 0, 0);
    assert_eq!(n.hsel, 0);
    let (n, _) = on_key(nav(Focus::Logs, 1, 1), Key::Down, 3, 3);
    assert!(n == nav(Focus::Logs, 1, 1));
}

#[test]
fn keys_map_to_actions_by_focus() {
    assert!(on_key(nav(Focus::Logs, 0, 0), Key::Quit, 0, 0).1 == Action::Quit);
    assert!(on_key(nav(Focus::Tasks, 1, 0), Key::Retry, 2, 0).1 == Action::RetryTask(1));
    assert!(on_key(nav(Focus::Tasks, 0, 0), Key::Retry, 0, 0).1 == Action::Nothing);
    assert!(on_key(nav(Focus::History, 0, 2), Key::Retry, 0, 3).1 == Action::RetryHistory(2));
    assert!(on_key(nav(Focus::History, 0, 2), Key::Delete, 0, 3).1 == Action::DeleteHistory(2));
    assert!(on_key(nav(Focus::Tasks, 0, 0), Key::Delete, 1, 3).1 == Action::Nothing);
    assert!(on_key(nav(Focus::Tasks, 0, 0), Key::Clear, 1, 0).1 == Action::ClearFinishedTasks);
    assert!(on_key(nav(Focus::Logs, 0, 0), Key::Clear, 1, 0).1 == Action::ClearLogs);
    assert!(on_key(nav(Focus::History, 0, 0), Key::Clear, 1, 1).1 == Action::Nothing);
    assert!(on_key(nav(Focus::Tasks, 0, 0), Key::Enter, 1, 0).1 == Action::OpenTaskDir(0));
    assert!(on_key(nav(Focus::History, 0, 0), Key::Enter, 0, 1).1 == Action::OpenHistoryDir(0));
    assert!(on_key(nav(Focus::Logs, 0, 0), Key::Other, 1, 1).1 == Action::Nothing);
}

#[test]
fn clamp_nav_pulls_selection_back() {
    let n = clamp_nav(nav(Focus::Tasks, 7, 9), 3, 0);
    assert!(n == nav(Focus::Tasks, 2, 9));
    let n = clamp_nav(nav(Focus::History, 1, 4), 2, 5);
    assert!(n == nav(Focus::History, 1, 4));
}

#[test]
fn task_counts_by_status_and_files() {
    let mut a = TaskData::new("u1", "s", "image", "files");
    a.status = TaskStatus::Running;
    a.done = 5;
    let mut b = TaskData::new("u2", "s", "text", "txt");
    b.status = TaskStatus::Done;
    let mut c = TaskData::new("u3", "s", "image", "csv");
    c.status = TaskStatus::Failed;
    c.done = 9;
    let d = TaskData::new("u4", "s", "data", "csv");
    let k = task_counts(&vec![a, b, c, d]);
    assert_eq!((k.queued, k.running, k.done, k.failed, k.files), (1, 1, 1, 1, 6));
}

#[test]
fn progress_cell_by_kind() {
    assert!(progress_of(TaskStatus::Failed, "data", "csv", 1, 2) == Progress::Error);
    assert!(progress_of(TaskStatus::Queued, "data", "csv", 1, 2) == Progress::Queued);
    assert!(progress_of(TaskStatus::Running, "data", "csv", 5, 2) == Progress::Rows(5));
    assert!(progress_of(TaskStatus::Done, "data", "csv", 1, 7) == Progress::Rows(7));
    assert!(progress_of(TaskStatus::Running, "text", "txt", 0, 1) == Progress::Text);
    assert!(progress_of(TaskStatus::Running, "text", "txt", 1, 4) == Progress::Bar);
    assert!(progress_of(TaskStatus::Done, "image", "csv", 3, 3) == Progress::Links(3));
    assert!(progress_of(TaskStatus::Running, "image", "files", 3, 9) == Progress::Bar);
}

#[test]
fn task_lifecycle() {
    let mut t = TaskData::new("https://e.com/", "Src", "image", "files");
    assert!(t.status == TaskStatus::Queued);
    assert!(t.elapsed().is_none());
    let now = std::time::Instant::now();
    t.start(now);
    assert!(t.status == TaskStatus::Running);
    assert!(t.elapsed().is_some());
    t.set_progress(0, 2);
    t.one_done();
    assert_eq!((t.done, t.total), (1, 2));
    t.succeed("Title".to_string(), "/d".to_string(), now);
    assert!(t.status == TaskStatus::Done);
    assert_eq!(t.elapsed(), Some(std::time::Duration::ZERO));
    let mut f = TaskData::new("u", "s", "text", "txt");
    f.text_written();
    assert_eq!((f.done, f.total), (1, 1));
    f.fail("boom".to_string(), now);
    assert!(f.status == TaskStatus::Failed);
    assert_eq!(f.error, "boom");
}

#[test]
fn log_lines_are_tagged_and_bounded() {
    let mut buf = LogBuffer::new();
    log(&mut buf, "12:00:00", "[page-err]", "HTTP 404");
    log(&mut buf, "12:00:01", "[ok]", "done");
    log(&mut buf, "12:00:02", "[fail]", "x");
    assert_eq!(
        log_snapshot(&buf),
        vec![
            (true, "12:00:00 [page-err] HTTP 404".to_string()),
            (false, "12:00:01 [ok] done".to_string()),
            (true, "12:00:02 [fail] x".to_string()),
        ]
    );
    for i in 0..LOG_CAP + 5 {
        log(&mut buf, "t", "[n]", &i.to_string());
    }
    let snap = log_snapshot(&buf);
    assert_eq!(snap.len(), LOG_CAP);
    assert_eq!(buf.len(), LOG_CAP);
    assert_eq!(snap[0].1, "t [n] 5");
    assert_eq!(snap[LOG_CAP - 1].1, format!("t [n] {}", LOG_CAP + 4));
    clear_logs(&mut buf);
    assert!(log_snapshot(&buf).is_empty());
}

#[test]
fn finished_means_done_or_failed() {
    assert!(is_finished(TaskStatus::Done));
    assert!(is_finished(TaskStatus::Failed));
    assert!(!is_finished(TaskStatus::Queued));
    assert!(!is_finished(TaskStatus::Running));
}

#[test]
fn bar_cells_in_eighths() {
    let (f, r, t) = bar_cells(0, 0);
    assert!((f, r) == (0, 0) && t == BarTone::Low);
    let (f, r, t) = bar_cells(5, 5);
    assert!((f, r) == (14, 0) && t == BarTone::Full);
    let (f, r, t) = bar_cells(9, 5);
    assert!((f, r) == (14, 0) && t == BarTone::Full);
    let (f, r, t) = bar_cells(1, 2);
    assert!((f, r) == (7, 0) && t == BarTone::Half);
    let (f, r, t) = bar_cells(1, 3);
    assert!((f, r) == (4, 5) && t == BarTone::Low);
    let (f, r, t) = bar_cells(999, 1000);
    assert!((f, r) == (14, 0) && t == BarTone::Full);
    let (f, r, _) = bar_cells(usize::MAX - 1, usize::MAX);
    assert!((f, r) == (14, 0));
}

#[test]
fn elapsed_of_a_finished_task_is_its_span() {
    let s = std::time::Instant::now();
    let f = s + std::time::Duration::from_secs(90);
    let mut t = TaskData::new("u", "s", "image", "files");
    t.start(s);
    t.succeed("T".to_string(), "/d".to_string(), f);
    assert_eq!(t.elapsed(), Some(std::time::Duration::from_secs(90)));
    let mut early = TaskData::new("u", "s", "image", "files");
    early.start(f);
    early.fail("x".to_string(), s);
    assert_eq!(early.elapsed(), Some(std::time::Duration::ZERO));
}
