use utopia_server::documents::file_extension;
use utopia_server::documents::{content_gate, document_arg, etag, upload_outcome, ContentGate, NO_DOCUMENT_TEXT};
use utopia_server::documents::{purge_answer, upload_part, upload_target, PurgeAnswer, UploadPart, DUPLICATE_REASON};
use utopia_server::client::user_agent_header;
use utopia_server::admin::{schema_doc, SchemaColumn};
use utopia_server::alerts::{job_alert, AlertKind, ListQuery, Severity};
use utopia_server::client::{client_ip, user_agent};
use utopia_server::documents::{blob_matches, content_time, hex, parse_scope, ContentQuery, DocsQuery};
use utopia_server::mcp::{is_exposed, not_exposed_message, route, unknown_method_message, exposed_tools, Method};

#[test]
fn xff_wins_and_takes_the_client_hop() {
    let peer = Some("10.0.0.9".to_string());
    assert_eq!(
        client_ip(Some("203.0.113.7, 10.0.0.1, 10.0.0.2"), None, peer).as_deref(),
        Some("203.0.113.7")
    );
}

#[test]
fn falls_back_to_real_ip_then_peer() {
    assert_eq!(client_ip(None, Some("198.51.100.4"), None).as_deref(), Some("198.51.100.4"));
    assert_eq!(client_ip(None, None, Some("192.0.2.5".to_string())).as_deref(), Some("192.0.2.5"));
    assert_eq!(client_ip(None, None, None), None);
}

#[test]
fn blank_headers_do_not_shadow_the_peer() {
    let peer = Some("192.0.2.5".to_string());
    assert_eq!(client_ip(Some("  "), Some(""), peer).as_deref(), Some("192.0.2.5"));
}

#[test]
fn user_agent_is_capped_at_256_bytes() {
    let long = "Mozilla/5.0 ".repeat(50);
    let got = user_agent(Some(long.as_str())).unwrap();
    assert_eq!(got.len(), 256);
    assert!(long.starts_with(&got), "截断后仍是原串的前缀");
}

#[test]
fn non_ascii_user_agent_is_dropped_rather_than_mangled() {
    assert_eq!(user_agent_header(Some("浏览器".as_bytes())), None);
    assert_eq!(user_agent_header(Some("Mozilla/5.0\tX".as_bytes())), Some("Mozilla/5.0\tX".to_string()));
    assert_eq!(user_agent_header(Some(b"bad\x7f")), None);
    assert_eq!(user_agent_header(None), None);
    assert_eq!(user_agent(Some("   ")), None);
}

#[test]
fn a_wide_user_agent_is_cut_at_a_character_boundary() {
    let wide = "浏览器".repeat(100);
    let got = user_agent(Some(wide.as_str())).unwrap();
    assert_eq!(got.len(), 255);
    assert!(wide.starts_with(&got));
}

#[test]
fn a_rate_limit_is_not_an_unreachable_endpoint() {
    assert_eq!(job_alert(3, 3, true, false), Some((AlertKind::LlmRateLimited, Severity::Warning)));
    assert_eq!(job_alert(3, 3, true, true), Some((AlertKind::LlmRateLimited, Severity::Warning)));
}

#[test]
fn an_ordinary_failure_raises_nothing() {
    assert_eq!(job_alert(3, 3, false, false), None);
    assert_eq!(job_alert(3, 3, false, true), Some((AlertKind::LlmUnreachable, Severity::Error)));
    assert_eq!(job_alert(2, 3, true, true), None, "a job with attempts left raises nothing");
}

#[test]
fn alert_pages_default_to_eight() {
    assert_eq!(ListQuery { q: None, limit: None, offset: None }.page(), (8, 0));
    assert_eq!(ListQuery { q: None, limit: Some(0), offset: Some(4) }.page(), (1, 4));
    assert_eq!(ListQuery { q: None, limit: Some(99), offset: Some(-1) }.page(), (50, 0));
}

#[test]
fn document_lists_are_scoped_and_paged() {
    assert_eq!(parse_scope(None), None);
    assert_eq!(parse_scope(Some("")), None);
    assert_eq!(parse_scope(Some("none")), Some(None));
    let id = "1f8ac10b-58cc-4372-a567-0e02b2c3d479";
    assert_eq!(parse_scope(Some(id)), Some(Some(id.parse().unwrap())));
    assert_eq!(parse_scope(Some("garbage")), None);
    let q = DocsQuery {
        source: Some("none".into()),
        q: Some(" report ".into()),
        graph: Some(String::new()),
        state: Some("deleted".into()),
        limit: None,
        offset: None,
    };
    let f = q.filter();
    assert_eq!(f.scope, Some(None));
    assert_eq!(f.q.as_deref(), Some("report"));
    assert_eq!(f.graph, None);
    assert!(f.deleted);
    assert_eq!((f.limit, f.offset), (15, 0));
    assert!(ContentQuery { version: Some(3) }.version_missing(false));
    assert!(!ContentQuery { version: None }.version_missing(false));
}

#[test]
fn stored_bytes_are_checked_against_their_address() {
    assert_eq!(hex(&[0x00, 0xab, 0x10, 0xff]), "00ab10ff");
    let sha = "ba7816bf8f01cfea414140de5dae2223b00361a396177a9cb410ff61f20015ad";
    assert!(blob_matches(b"abc", sha));
    assert!(!blob_matches(b"abd", sha));
}

#[test]
fn a_text_upload_is_dated_by_its_first_line() {
    let t = |s: &str| {
        let x: chrono::DateTime<chrono::Utc> = s.parse().unwrap();
        utopia_server::dates::Instant { secs: x.timestamp(), nanos: 0 }
    };
    assert_eq!(content_time("notes.md", "\u{feff}\n  2024-03-05  \nbody", false), Some(t("2024-03-05T00:00:00Z")));
    assert_eq!(content_time("notes.TXT", "（2024年3月5日）\nbody", false), Some(t("2024-03-05T00:00:00Z")));
    assert_eq!(content_time("notes.md", "(2024-03-05)", false), Some(t("2024-03-05T00:00:00Z")));
    assert_eq!(content_time("notes.pdf", "2024-03-05", false), None);
    assert_eq!(content_time("notes.md", "On 2024-03-05 we met", false), None);
    assert_eq!(content_time("notes.md", "2024-03-05 and more", false), None);
    assert_eq!(content_time("notes.md", "2024-03-05\nrest of a cut line", true), Some(t("2024-03-05T00:00:00Z")));
    assert_eq!(content_time("notes.md", "2024-03-05 cut off here", true), None);
    assert_eq!(content_time("README", "2024-03-05", false), None);
}

#[test]
fn mcp_exposes_reading_tools_only() {
    for name in ["search_chunks", "search_docs", "find_entities", "changes", "entity_facts"] {
        assert!(is_exposed(name), "{name}");
    }
    assert!(!is_exposed("query_data"));
    assert!(!is_exposed("remember"));
    assert_eq!(route("tools/call"), Method::ToolsCall);
    assert_eq!(route("notifications/cancelled"), Method::Notification);
    assert_eq!(route("resources/list"), Method::Unknown);
    assert_eq!(unknown_method_message("resources/list"), "Unknown method: resources/list");
    assert_eq!(not_exposed_message("remember"), "Tool 'remember' is not exposed over MCP in this version");
    let tools = utopia_server::chat::tools_schema(true, &vec!["w".to_string()]);
    let listed: Vec<&str> = exposed_tools(&tools).into_iter().map(|i| tools[i].name).collect();
    assert_eq!(listed, vec!["search_chunks", "search_docs", "find_entities", "entity_facts", "changes"]);
}

fn col(schema: &str, table: &str, column: &str, ty: &str, comment: Option<&str>) -> SchemaColumn {
    SchemaColumn {
        schema: schema.to_string(),
        table: table.to_string(),
        column: column.to_string(),
        data_type: ty.to_string(),
        comment: comment.map(|c| c.to_string()),
    }
}

#[test]
fn a_schema_document_lists_each_table_and_its_columns() {
    let cols = vec![
        col("public", "orders", "id", "bigint", None),
        col("public", "orders", "total", "numeric", Some("in CNY")),
        col("sales", "leads", "name", "text", None),
    ];
    let (md, tables) = schema_doc("warehouse", &cols);
    assert_eq!(tables, 2);
    assert_eq!(
        md,
        "# Data source: warehouse\n\nTables and columns available for SQL queries against this source.\n\n## public.orders\n- id (bigint)\n- total (numeric) — in CNY\n\n## sales.leads\n- name (text)\n"
    );
}

#[test]
fn a_schema_document_stops_at_two_hundred_tables() {
    let cols: Vec<SchemaColumn> = (0..205).map(|i| col("s", &format!("t{i}"), "c", "int", None)).collect();
    let (md, tables) = schema_doc("big", &cols);
    assert_eq!(tables, 200);
    assert!(md.ends_with("\n## s.t199\n- c (int)\n\n(further tables omitted)\n"));
    assert!(!md.contains("s.t200"));
}

#[test]
fn upload_parts_are_stored_skipped_or_ignored() {
    assert_eq!(upload_target(true, "folder"), Ok(()));
    assert_eq!(
        upload_target(true, "rss"),
        Err(("upload_needs_folder", "Uploads can only target a folder source in this knowledge base"))
    );
    assert!(upload_target(false, "folder").is_err());
    assert_eq!(upload_part(false, Some("text/plain"), 10), UploadPart::Ignored);
    assert_eq!(upload_part(true, Some("text/plain"), 0), UploadPart::Skipped("empty file".to_string()));
    assert_eq!(upload_part(true, None, 3), UploadPart::Stored("application/octet-stream".to_string()));
    assert_eq!(upload_part(true, Some("application/pdf"), 3), UploadPart::Stored("application/pdf".to_string()));
    assert_eq!(DUPLICATE_REASON, "duplicate content");
    assert_eq!(purge_answer(12, &vec!["a".to_string(), "b".to_string()]), PurgeAnswer { ok: true, chunks: 12, blobs: 2 });
}

#[test]
fn an_upload_with_no_file_is_refused() {
    assert_eq!(upload_outcome(0, 0), Err(("no_files", "No files received")));
    assert_eq!(upload_outcome(0, 1), Ok(()));
    assert_eq!(upload_outcome(2, 0), Ok(()));
}

#[test]
fn purged_content_is_gone_before_anything_else() {
    assert_eq!(
        content_gate(true, true, false),
        ContentGate::Purged { error: "document_purged", message: "this document's bytes have been permanently removed" }
    );
    assert_eq!(content_gate(false, true, false), ContentGate::NoSuchVersion);
    assert_eq!(content_gate(false, true, true), ContentGate::Serve);
    assert_eq!(content_gate(false, false, false), ContentGate::Serve);
    assert_eq!(etag("ab12"), "\"ab12\"");
}

#[test]
fn a_document_read_needs_an_id_of_the_knowledge_base() {
    let id = uuid::Uuid::parse_str("1f8ac10b-58cc-4372-a567-0e02b2c3d479").unwrap();
    assert_eq!(document_arg(Some(" 1f8ac10b-58cc-4372-a567-0e02b2c3d479 ")), Ok(id));
    assert_eq!(document_arg(Some("doc-7")), Err("invalid id"));
    assert_eq!(document_arg(None), Err("invalid id"));
    assert_eq!(NO_DOCUMENT_TEXT, "No document with that id in this knowledge base.");
}

#[test]
fn an_extension_is_what_path_finds() {
    for name in [
        "report.pdf", "archive.tar.gz", ".bashrc", ".a.b", "a.", "noext", "", "/", "dir/", "dir/file.txt",
        "dir/file.txt/", "a/./b.md", "a/b.md/.", "a/..", "..", ".", "x/../y.csv", "..a", "a//b.c", "./.hidden",
    ] {
        let std_ext = std::path::Path::new(name).extension().and_then(|e| e.to_str()).map(|e| e.to_string());
        assert_eq!(file_extension(name), std_ext, "{name:?}");
    }
}
