//! The download history's records (the SQLite ledger itself is driven by the program).
use vstd::prelude::*;

verus! {

/// A record of the download history, as the history panel shows it.
pub struct HistoryRow {
    pub url: String,
    pub title: String,
    pub source: String,
    pub count: i64,
    pub dir: String,
    pub created_at: String,
}

} // verus!
