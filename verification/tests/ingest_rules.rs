use utopia_server::ingest::{auth_header, custom_request_url};
use utopia_server::dates::Instant;
use utopia_server::ingest::{custom_batch, tombstone_keys, RawItem};
use utopia_server::ingest::{checked_entry_filename, entry_filename, entry_html};
use utopia_server::ingest::{
    checked_filename_from_url, custom_item, decide_item, ensure_extension, entry_key, filename_from_url, is_loopback_host, sha_hex,
    take_bytes, tombstone_key, url_slug, urls_outcome, IngestAction, SyncStats,
};

#[test]
fn a_sync_counts_creations_and_updates_only() {
    let mut s = SyncStats::new();
    for a in [
        IngestAction::Created,
        IngestAction::Updated,
        IngestAction::Moved,
        IngestAction::Unchanged,
        IngestAction::Tombstoned,
        IngestAction::Created,
    ] {
        s.absorb(a);
    }
    assert_eq!((s.created, s.updated, s.total()), (2, 1, 3));
}

#[test]
fn what_an_item_comes_to() {
    assert_eq!(decide_item(true, Some("abc"), "def", false, false), IngestAction::Unchanged);
    assert_eq!(decide_item(false, Some("abc"), "abc", false, false), IngestAction::Unchanged);
    assert_eq!(decide_item(false, Some("abc"), "def", true, false), IngestAction::Updated);
    assert_eq!(decide_item(false, None, "def", true, false), IngestAction::Moved);
    assert_eq!(decide_item(false, None, "def", false, true), IngestAction::Unchanged);
    assert_eq!(decide_item(false, None, "def", false, false), IngestAction::Created);
}

#[test]
fn content_is_addressed_by_its_sha256() {
    assert_eq!(
        sha_hex(b"abc"),
        "ba7816bf8f01cfea414140de5dae2223b00361a396177a9cb410ff61f20015ad"
    );
    assert_eq!(
        sha_hex(b""),
        "e3b0c44298fc1c149afbf4c8996fb92427ae41e4649b934ca495991b7852b855"
    );
}

#[test]
fn a_page_is_named_after_its_url() {
    assert_eq!(filename_from_url("https://example.com/docs/intro/", "text/html"), "example.com-docs-intro.html");
    assert_eq!(filename_from_url("http://example.com/report.pdf", "application/pdf"), "example.com-report.pdf");
    assert_eq!(filename_from_url("https://example.com/report.pdf", "text/html; charset=utf-8"), "example.com-report.pdf.html");
    assert_eq!(filename_from_url("https://example.com/a?b=c", "text/plain"), "example.com-a-b-c.html");
    assert_eq!(filename_from_url("https://example.com/a.verylongext", "text/plain"), "example.com-a.verylongext.html");
    assert_eq!(filename_from_url("https://https://x.org", "text/plain"), "x.org");
}

#[test]
fn a_long_url_is_cut_to_120_bytes() {
    let url = format!("https://example.com/{}", "a".repeat(300));
    let name = filename_from_url(&url, "text/html");
    assert_eq!(name.len(), 125);
    assert!(name.ends_with(".html"));
    let stem = url_slug(&url);
    assert_eq!(stem.len(), 312);
    let cut: String = take_bytes(&stem, 120).into_iter().collect();
    assert_eq!(cut.len(), 120);
}

#[test]
fn cutting_by_bytes_never_splits_a_character() {
    let v: Vec<char> = "éé€".chars().collect();
    assert_eq!(take_bytes(&v, 3), vec!['é']);
    assert_eq!(take_bytes(&v, 4), vec!['é', 'é']);
    assert_eq!(take_bytes(&v, 7), vec!['é', 'é', '€']);
}

#[test]
fn an_item_keeps_its_extension_or_gets_one_by_type() {
    assert_eq!(ensure_extension("notes.md", "text/markdown"), "notes.md");
    assert_eq!(ensure_extension("notes", "text/html"), "notes.html");
    assert_eq!(ensure_extension("notes", "text/plain"), "notes.txt");
    assert_eq!(ensure_extension("notes", "application/json"), "notes.md");
    assert_eq!(ensure_extension("v1.2 release", "text/plain"), "v1.2 release.txt");
    assert_eq!(ensure_extension("a.b", "text/plain"), "a.b.txt");
    assert_eq!(ensure_extension("data.csv", "text/html"), "data.csv");
}

#[test]
fn a_pushed_item_needs_an_id_and_content() {
    assert!(custom_item(None, Some("text"), None, None).is_none());
    assert!(custom_item(Some("  "), Some("text"), None, None).is_none());
    assert!(custom_item(Some("a1"), Some("   "), None, None).is_none());
    let it = custom_item(Some(" a1 "), Some("hello"), None, None).unwrap();
    assert_eq!(it.key, "custom:a1");
    assert_eq!(it.filename, "a1.md");
    assert_eq!(it.mime, "text/markdown");
    let it = custom_item(Some("a2"), Some("hello"), Some(" Weekly notes "), Some("text/html")).unwrap();
    assert_eq!(it.filename, "Weekly notes.html");
    assert_eq!(it.mime, "text/html");
    assert_eq!(tombstone_key("  a1 "), "custom:a1");
}

#[test]
fn a_feed_entry_is_keyed_by_id_then_link_then_title() {
    assert_eq!(entry_key(" urn:1 ", "https://x/1", "T"), "urn:1");
    assert_eq!(entry_key("  ", "https://x/1", "T"), "https://x/1");
    assert_eq!(
        entry_key("", "", "abc"),
        "entry:ba7816bf8f01cfea414140de5dae2223b00361a396177a9cb410ff61f20015ad"
    );
}

#[test]
fn loopback_endpoints_and_sync_outcomes() {
    assert!(is_loopback_host(Some("LocalHost")));
    assert!(is_loopback_host(Some("127.0.0.1")));
    assert!(is_loopback_host(Some("[::1]")));
    assert!(!is_loopback_host(Some("example.com")));
    assert!(!is_loopback_host(None));
    assert_eq!(urls_outcome(0, Some("https://x: HTTP 404".into())), Err("https://x: HTTP 404".to_string()));
    assert_eq!(urls_outcome(1, Some("https://x: HTTP 404".into())), Ok(()));
    assert_eq!(urls_outcome(0, None), Ok(()));
}

#[test]
fn a_cut_inside_a_character_gives_no_name() {
    // "example.com-" is 12 bytes; 107 ASCII bytes bring the stem to 119,
    // so byte 120 falls inside the two-byte 'é' that follows.
    let url = format!("https://example.com/{}é{}", "a".repeat(107), "b".repeat(10));
    assert_eq!(checked_filename_from_url(&url, "text/html"), None);
    let plain = "https://example.com/docs/intro/";
    assert_eq!(
        checked_filename_from_url(plain, "text/html"),
        Some("example.com-docs-intro.html".to_string())
    );
    let fits = format!("https://example.com/{}é", "a".repeat(106));
    assert_eq!(
        checked_filename_from_url(&fits, "text/plain"),
        Some(format!("example.com-{}é.html", "a".repeat(106)))
    );
}

#[test]
fn the_same_content_again_is_unchanged() {
    let sha = sha_hex(b"hello");
    for elsewhere in [false, true] {
        for dup in [false, true] {
            assert_eq!(decide_item(false, Some(&sha), &sha, elsewhere, dup), IngestAction::Unchanged);
        }
    }
    let mut s = SyncStats::new();
    s.absorb(IngestAction::Created);
    s.absorb(IngestAction::Moved);
    s.absorb(IngestAction::Updated);
    s.absorb(IngestAction::Unchanged);
    assert_eq!(s.total(), 2);
}

#[test]
fn a_custom_pull_reads_the_first_200_items() {
    let item = |id: &str, content: &str| RawItem {
        id: Some(id.to_string()),
        content: Some(content.to_string()),
        title: None,
        mime: None,
    };
    let mut items = vec![item(" a ", "x"), item("", "x"), item("b", "  ")];
    for i in 0..250 {
        items.push(item(&format!("n{i}"), "body"));
    }
    let taken = custom_batch(&items);
    assert_eq!(taken.len(), 198);
    assert_eq!(taken[0].key, "custom:a");
    assert_eq!(taken[0].filename, "a.md");
    assert_eq!(taken[0].mime, "text/markdown");
    assert_eq!(taken[1].key, "custom:n0");
    assert_eq!(taken[197].key, "custom:n196");
    assert_eq!(tombstone_keys(&vec![" x ".to_string(), "y".to_string()]), vec!["custom:x", "custom:y"]);
}

#[test]
fn a_feed_entry_is_stored_as_a_page_named_by_its_title() {
    assert_eq!(entry_filename("Q3 results: up 5%"), "Q3-results--up-5-.html");
    assert_eq!(entry_filename(&"x".repeat(100)), format!("{}.html", "x".repeat(80)));
    assert_eq!(checked_entry_filename(&format!("{}é", "a".repeat(79))), None);
    assert_eq!(checked_entry_filename("季度报告"), Some("季度报告.html".to_string()));
    assert_eq!(
        entry_html("T", "https://x/1", "<p>b</p>"),
        "<html><head><title>T</title></head><body><h1>T</h1>\n<p><a href=\"https://x/1\">https://x/1</a></p>\n<p>b</p></body></html>"
    );
}

#[test]
fn a_custom_pull_asks_for_what_came_since() {
    let t = Instant { secs: 1_772_323_200, nanos: 0 };
    assert_eq!(
        custom_request_url(Some("https://x.test/items"), Some(t)),
        Ok("https://x.test/items?since=2026-03-01T00%3A00%3A00%2B00%3A00".to_string())
    );
    assert_eq!(custom_request_url(Some("https://x.test/items"), None), Ok("https://x.test/items".to_string()));
    assert_eq!(custom_request_url(Some("  "), None), Err("custom source is missing config.endpoint".to_string()));
    assert_eq!(custom_request_url(None, None), Err("custom source is missing config.endpoint".to_string()));
    assert!(custom_request_url(Some("not a url"), None).unwrap_err().starts_with("Invalid endpoint URL: "));
    assert_eq!(auth_header(Some("  Bearer abc ")), Some("Bearer abc".to_string()));
    assert_eq!(auth_header(Some("   ")), None);
}
