use snatch::cli::{
    command_of, fetch_preview, gate_clipboard, list_items, parse_fetch_args, parse_run_args, parse_test_args,
    parse_usize_str, poll_interval_ms, Command,
};

fn args(v: &[&str]) -> Vec<String> {
    v.iter().map(|s| s.to_string()).collect()
}

#[test]
fn command_chosen_by_first_argument() {
    assert!(command_of(Some("fetch")) == Command::Fetch);
    assert!(command_of(Some("--fetch")) == Command::Fetch);
    assert!(command_of(Some("html")) == Command::Fetch);
    assert!(command_of(Some("test")) == Command::Test);
    assert!(command_of(Some("--test")) == Command::Test);
    assert!(command_of(Some("run")) == Command::Run);
    assert!(command_of(Some("--run")) == Command::Run);
    assert!(command_of(Some("get")) == Command::Run);
    assert!(command_of(Some("tui")) == Command::Dashboard);
    assert!(command_of(None) == Command::Dashboard);
}

#[test]
fn parse_usize_as_std_does() {
    assert_eq!(parse_usize_str("42"), Some(42));
    assert_eq!(parse_usize_str("+7"), Some(7));
    assert_eq!(parse_usize_str("0"), Some(0));
    assert_eq!(parse_usize_str(""), None);
    assert_eq!(parse_usize_str("-1"), None);
    assert_eq!(parse_usize_str("1x"), None);
    assert_eq!(parse_usize_str(" 1"), None);
    assert_eq!(parse_usize_str("99999999999999999999999"), None);
}

#[test]
fn fetch_arguments() {
    let a = parse_fetch_args(&args(&["https://e.com/", "--strip", "--limit", "20"]));
    assert_eq!((a.url.as_deref(), a.strip, a.limit), (Some("https://e.com/"), true, 20));
    let a = parse_fetch_args(&args(&["-n", "bad", "--x", "u1", "u2"]));
    assert_eq!((a.url.as_deref(), a.strip, a.limit), (Some("u1"), false, 0));
    let a = parse_fetch_args(&args(&["--limit"]));
    assert_eq!((a.url.as_deref(), a.limit), (None, 0));
}

#[test]
fn run_arguments() {
    let a = parse_run_args(&args(&["--source", "s.toml", "https://e.com/", "-f"]));
    assert_eq!((a.url.as_deref(), a.source.as_deref(), a.force), (Some("https://e.com/"), Some("s.toml"), true));
    let a = parse_run_args(&args(&["-s"]));
    assert_eq!((a.url.as_deref(), a.source.as_deref(), a.force), (None, None, false));
}

#[test]
fn test_arguments() {
    let a = parse_test_args(&args(&["u", "-s", "x.toml", "--limit", "3"]));
    assert_eq!((a.url.as_deref(), a.source.as_deref(), a.limit), (Some("u"), Some("x.toml"), 3));
    let a = parse_test_args(&args(&["u", "--limit", "zz"]));
    assert_eq!(a.limit, 10);
    let a = parse_test_args(&args(&[]));
    assert_eq!((a.url.as_deref(), a.limit), (None, 10));
}

#[test]
fn clipboard_gate_accepts_new_urls_once() {
    let mut last = String::new();
    assert_eq!(gate_clipboard("  https://e.com/a  ", &mut last), Some("https://e.com/a".to_string()));
    assert_eq!(last, "https://e.com/a");
    assert_eq!(gate_clipboard("https://e.com/a", &mut last), None);
    assert_eq!(gate_clipboard("just words", &mut last), None);
    assert_eq!(last, "https://e.com/a");
    assert_eq!(gate_clipboard("http://b.org", &mut last), Some("http://b.org".to_string()));
    assert_eq!(gate_clipboard("https://e.com/a", &mut last), Some("https://e.com/a".to_string()));
}

#[test]
fn fetch_preview_cuts_at_limit() {
    assert_eq!(fetch_preview("héllo", 0), ("héllo".to_string(), 5, false));
    assert_eq!(fetch_preview("héllo", 2), ("hé".to_string(), 5, true));
    assert_eq!(fetch_preview("héllo", 5), ("héllo".to_string(), 5, false));
    assert_eq!(fetch_preview("héllo", 9), ("héllo".to_string(), 5, false));
}

#[test]
fn list_items_numbers_and_counts_the_rest() {
    let items: Vec<Vec<char>> = vec!["a".chars().collect(), "b".chars().collect(), "c".chars().collect()];
    assert_eq!(list_items(&items, 2), vec!["    1. a".to_string(), "    2. b".to_string(), "  ... (+1 more)".to_string()]);
    assert_eq!(list_items(&items, 10).len(), 3);
    let many: Vec<Vec<char>> = (0..1000).map(|_| vec!['x']).collect();
    assert_eq!(list_items(&many, 1000)[999], "  1000. x");
}

#[test]
fn poll_interval_is_clamped() {
    assert_eq!(poll_interval_ms(0), 200);
    assert_eq!(poll_interval_ms(2000), 2000);
    assert_eq!(poll_interval_ms(99999), 5000);
}
