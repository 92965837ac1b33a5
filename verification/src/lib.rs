//! Snatch: a clipboard-driven crawler. This library holds the verified core:
//! source definitions, URL and text helpers, the extraction pipeline over parsed
//! HTML, page planning, the output formats and the dashboard's decisions.
use vstd::prelude::*;

pub mod text;
pub mod config;
pub mod util;
pub mod logs;
pub mod state;
pub mod db;
pub mod crawler;
pub mod pages;
pub mod order;
pub mod extract;
pub mod download;
pub mod tui;
pub mod cli;
pub mod laws;
pub mod html;
pub mod pattern;
pub mod weburl;

verus! {
} // verus!
