# snatch

A clipboard-driven crawler: copy a URL, it is matched against your sources and
extracted (images, text, or rows to CSV). The decision logic is a library proved with
Verus; the program around it (network, files, SQLite, clipboard, terminal) is ordinary Rust.

## Layout

- `src/` — the verified library
  - `config` — settings and source definitions; which source files load
  - `util` — URL and file-name rules, `${ENV}` expansion, request headers, source matching
  - `crawler` — the extraction pipeline (locate, get, purify) and text assembly
  - `extract` — per-type extractors as steps over fetched pages
  - `pages` — pagination plans and next-link following
  - `download` — CSV building, persistence plans, directory naming, download policy
  - `logs`, `state`, `tui`, `cli` — the log buffer, task model, dashboard and command decisions
  - `html`, `pattern`, `weburl` — HTML parsing (scraper), regular expressions (regex) and URLs (url)
  - `text`, `order` — string and ordering helpers with their specifications
  - `laws` — properties of the library stated and proved over its specifications
- `tests/` — tests on concrete values
- `app/` — the program: fetching, saving, the SQLite ledger, the clipboard listener and the dashboard
