use snatch::crawler::Extracted;
use snatch::download::{
    concurrency, content_type_ok, csv_cell, data_csv, download_concurrency, download_outcome, links_csv,
    needs_referer, plan_persist, release_dir_lock, reserve_dir_name, retry_after, retry_delay_ms, retry_failure, Persist,
};

fn strings(v: &[&str]) -> Vec<String> {
    v.iter().map(|s| s.to_string()).collect()
}

#[test]
fn csv_cell_quotes_and_doubles_quotes() {
    assert_eq!(csv_cell("plain").into_iter().collect::<String>(), "\"plain\"");
    assert_eq!(csv_cell("a\"b").into_iter().collect::<String>(), "\"a\"\"b\"");
    assert_eq!(csv_cell("").into_iter().collect::<String>(), "\"\"");
}

#[test]
fn data_csv_has_bom_header_and_rows() {
    let headers = strings(&["name", "url"]);
    let rows = vec![strings(&["One", "https://e.com/p1"]), strings(&["T\"wo", "x,y"])];
    assert_eq!(
        data_csv(&headers, &rows),
        "\u{feff}\"name\",\"url\"\n\"One\",\"https://e.com/p1\"\n\"T\"\"wo\",\"x,y\"\n"
    );
}

#[test]
fn links_csv_numbers_from_zero() {
    assert_eq!(links_csv(&strings(&["u1", "u2"])), "\u{feff}index,url\n0,\"u1\"\n1,\"u2\"\n");
    assert_eq!(links_csv(&vec![]), "\u{feff}index,url\n");
}

#[test]
fn plan_persist_data_text_and_images() {
    let data = Extracted::Data { headers: strings(&["h"]), rows: vec![strings(&["v"]), strings(&["w"])] };
    match plan_persist("T", data, "csv") {
        Persist::Write { file, contents, count } => {
            assert_eq!(file, "T.csv");
            assert_eq!(contents, "\u{feff}\"h\"\n\"v\"\n\"w\"\n");
            assert_eq!(count, 2);
        }
        _ => panic!("data is written"),
    }
    match plan_persist("T", Extracted::Text("body".to_string()), "txt") {
        Persist::Write { file, contents, count } => {
            assert_eq!(file, "T.txt");
            assert_eq!(contents, "body");
            assert_eq!(count, 1);
        }
        _ => panic!("text is written"),
    }
    let urls = strings(&["https://e.com/cat.png", "https://e.com/x"]);
    match plan_persist("T", Extracted::Images(urls.clone()), "csv") {
        Persist::Write { file, contents, count } => {
            assert_eq!(file, "T.csv");
            assert_eq!(contents, "\u{feff}index,url\n0,\"https://e.com/cat.png\"\n1,\"https://e.com/x\"\n");
            assert_eq!(count, 2);
        }
        _ => panic!("links are written"),
    }
    match plan_persist("T", Extracted::Images(urls), "files") {
        Persist::Download { jobs } => {
            assert_eq!(
                jobs,
                vec![
                    ("https://e.com/cat.png".to_string(), "0000_cat.png".to_string()),
                    ("https://e.com/x".to_string(), "0001.jpg".to_string()),
                ]
            );
        }
        _ => panic!("images are downloaded"),
    }
}

#[test]
fn download_outcome_fails_only_without_successes() {
    match download_outcome("T".to_string(), 0, "/d".to_string()) {
        Err(e) => assert_eq!(e, "all downloads failed"),
        Ok(_) => panic!("no download succeeded"),
    }
    let r = download_outcome("T".to_string(), 3, "/d".to_string()).ok().unwrap();
    assert_eq!((r.title.as_str(), r.count, r.download_dir.as_str()), ("T", 3, "/d"));
}

#[test]
fn referer_policy_and_content_types() {
    assert!(needs_referer(&vec![]));
    assert!(needs_referer(&vec![("Cookie".to_string(), "a".to_string())]));
    assert!(!needs_referer(&vec![("REFERER".to_string(), "x".to_string())]));
    assert!(content_type_ok(""));
    assert!(content_type_ok("image/png"));
    assert!(!content_type_ok("text/html"));
    assert!(!content_type_ok("Image/png"));
}

#[test]
fn retry_and_concurrency_policy() {
    assert_eq!(retry_delay_ms(0), 0);
    assert_eq!(retry_delay_ms(3), 1500);
    assert_eq!(concurrency(0, 1), 2);
    assert_eq!(concurrency(0, 4), 4);
    assert_eq!(concurrency(0, 16), 6);
    assert_eq!(concurrency(5, 16), 5);
    assert_eq!(download_concurrency(3), 3);
    let auto = download_concurrency(0);
    assert!((2..=6).contains(&auto));
}

#[test]
fn reserve_dir_name_numbers_collisions() {
    let none: Vec<String> = vec![];
    assert_eq!(reserve_dir_name("T", "title", "number", 42, &none), ("T".to_string(), true));
    assert_eq!(reserve_dir_name("T", "title", "number", 42, &strings(&["T"])), ("T_2".to_string(), true));
    assert_eq!(reserve_dir_name("T", "title", "number", 42, &strings(&["T", "T_2"])), ("T_3".to_string(), true));
    assert_eq!(reserve_dir_name("T", "title", "merge", 42, &strings(&["T"])), ("T".to_string(), false));
    assert_eq!(reserve_dir_name("T", "title", "merge", 42, &none), ("T".to_string(), true));
}

#[test]
fn reserve_dir_name_timestamps() {
    let none: Vec<String> = vec![];
    assert_eq!(reserve_dir_name("T", "title_timestamp", "number", 42, &none), ("T_0000000042".to_string(), true));
    assert_eq!(reserve_dir_name("T", "title", "timestamp", 42, &none), ("T_0000000042".to_string(), true));
    assert_eq!(
        reserve_dir_name("T", "title", "timestamp", 42, &strings(&["T_0000000042"])),
        ("T_0000000042_2".to_string(), true)
    );
}

#[test]
fn csv_cell_reads_back_to_the_value() {
    for v in ["", "plain", "a\"b", "\"\"", "x,y\nz"] {
        let cell: String = csv_cell(v).into_iter().collect();
        let inner = &cell[1..cell.len() - 1];
        assert_eq!(inner.replace("\"\"", "\""), v);
    }
}

#[test]
fn release_dir_lock_drops_only_that_name() {
    let mut locked = strings(&["a", "b", "a", "c"]);
    release_dir_lock(&mut locked, "a");
    assert_eq!(locked, strings(&["b", "c"]));
    release_dir_lock(&mut locked, "zz");
    assert_eq!(locked, strings(&["b", "c"]));
}

#[test]
fn failing_download_is_tried_retries_plus_one_times() {
    let mut attempts = 1;
    let mut pauses = vec![];
    let mut attempt = 0;
    while let Some(ms) = retry_after(attempt, 3) {
        pauses.push(ms);
        attempts += 1;
        attempt += 1;
    }
    assert_eq!(attempts, 4);
    assert_eq!(pauses, vec![500, 1000, 1500]);
    assert_eq!(retry_after(0, 0), None);
    assert_eq!(retry_failure(3, "HTTP 404"), "failed after 3 retries: HTTP 404");
}
