use chrono::NaiveDate;
use utopia_server::citations::ToolSink;
use utopia_server::lines::{EntityFact, GraphChange};
use utopia_server::tool_text::{
    changes_text, dispatch_target, entities_text, facts_text, manual_text, query_text, remember_text, search_text,
    unknown_source_text, unknown_tool_text,
    ChunkHit, EntityHit, ManualHit, ToolKind,
};

fn d(s: &str) -> NaiveDate {
    NaiveDate::parse_from_str(s, "%Y-%m-%d").unwrap()
}

#[test]
fn only_offered_tools_run() {
    assert_eq!(dispatch_target("search_chunks", false, false), Some(ToolKind::SearchChunks));
    assert_eq!(dispatch_target("changes", false, false), Some(ToolKind::Changes));
    assert_eq!(dispatch_target("query_data", false, true), None, "no source mounted");
    assert_eq!(dispatch_target("query_data", true, false), Some(ToolKind::QueryData));
    assert_eq!(dispatch_target("remember", true, false), None, "a reader cannot write");
    assert_eq!(dispatch_target("remember", false, true), Some(ToolKind::Remember));
    assert_eq!(dispatch_target("made_up", true, true), None);
    assert_eq!(unknown_tool_text("made_up"), "Unknown tool: made_up");
}

fn hit(key: &str, seq: i32, text: &str) -> ChunkHit {
    ChunkHit {
        key: key.to_string(),
        filename: "a.pdf".to_string(),
        seq,
        document_id: "d-1".to_string(),
        text: text.to_string(),
    }
}

#[test]
fn search_hits_are_cited_and_cut() {
    let mut sink: ToolSink<&str> = ToolSink::new();
    let long = "y".repeat(900);
    let text = search_text(&mut sink, vec![(hit("k1", 2, " Alpha "), "s1"), (hit("k2", 0, &long), "s2"), (hit("k1", 2, "again"), "s3")]);
    let expected = format!(
        "[1] \"a.pdf\" section 3 (document_id: d-1):\nAlpha\n\n[2] \"a.pdf\" section 1 (document_id: d-1):\n{}…\n\n[1] \"a.pdf\" section 3 (document_id: d-1):\nagain",
        "y".repeat(800)
    );
    assert_eq!(text, expected);
    assert_eq!(sink.sources, vec!["s1", "s2"], "a chunk found twice keeps its first number");
    assert_eq!(search_text(&mut ToolSink::<u8>::new(), vec![]), "No results.");
}

#[test]
fn manual_sections_are_cited_by_slug_and_anchor() {
    let mut sink: ToolSink<u8> = ToolSink::new();
    let h = ManualHit {
        slug: "mcp".to_string(),
        anchor: "tools".to_string(),
        title: "Agents over MCP".to_string(),
        heading: "Tools".to_string(),
        body: "Read only.".to_string(),
    };
    let text = manual_text(&mut sink, vec![(h, 0)]);
    assert_eq!(text, "[1] Utopia Charter — Agents over MCP › Tools:\nRead only.");
    assert_eq!(sink.source_ids, vec!["charter:mcp#tools".to_string()]);
    assert_eq!(manual_text(&mut ToolSink::<u8>::new(), vec![]), "No matching manual sections.");
}

#[test]
fn entity_rows_show_id_name_type_and_degree() {
    let hits = vec![
        EntityHit {
            id: "e1".to_string(),
            name: "Zhang Wei".to_string(),
            disambiguator: Some("engineer".to_string()),
            type_label: Some("Person".to_string()),
            degree: 12,
        },
        EntityHit { id: "e2".to_string(), name: "Acme".to_string(), disambiguator: None, type_label: None, degree: 0 },
    ];
    assert_eq!(entities_text(&hits), "e1 | Zhang Wei (engineer) | Person | 12 facts\ne2 | Acme | untyped | 0 facts");
    assert_eq!(entities_text(&vec![]), "No matching entities.");
}

#[test]
fn facts_say_when_there_are_none() {
    let (t, detail) = facts_text("Acme", Some(d("2020-01-01")), &vec![]);
    assert_eq!(t, "Acme: no facts valid as of 2020-01-01.");
    assert_eq!(detail, "0 facts as of 2020-01-01");
    let (t, detail) = facts_text("Acme", None, &vec![]);
    assert_eq!((t.as_str(), detail.as_str()), ("Acme: no recorded facts.", "0 facts"));
    let f = EntityFact {
        direction: "out".to_string(),
        other_name: Some("Berlin".to_string()),
        predicate_label: Some("located in".to_string()),
        valid_from: None,
        valid_to: None,
        confidence_pct: 80,
    };
    let (t, detail) = facts_text("Acme", None, &vec![f]);
    assert_eq!((t.as_str(), detail.as_str()), ("located in → Berlin [80%]", "1 facts"));
}

#[test]
fn an_empty_window_says_so() {
    assert_eq!(changes_text("2026-03-01 → now", &vec![]), "No recorded changes in 2026-03-01 → now.");
    let c = GraphChange {
        at: d("2026-08-28"),
        kind: "asserted".to_string(),
        subject_name: "Acme".to_string(),
        predicate_label: None,
        object_name: Some("Berlin".to_string()),
        object_value: None,
        valid_from: None,
        valid_to: None,
        filename: None,
        quote: None,
    };
    assert_eq!(changes_text("w", &vec![c]), "2026-08-28 asserted: Acme ? Berlin");
}

#[test]
fn a_query_reports_its_rows_and_the_cap() {
    assert_eq!(query_text(&vec![], None), "(no rows)");
    let rows = vec!["{\"n\":1}".to_string(), "{\"n\":2}".to_string()];
    assert_eq!(query_text(&rows, None), "{\"n\":1}\n{\"n\":2}\n(2 rows)");
    assert_eq!(
        query_text(&rows, Some(500)),
        "{\"n\":1}\n{\"n\":2}\n(2 rows, truncated at 500 — aggregate in SQL for totals)"
    );
    assert_eq!(
        unknown_source_text("crm", &vec!["warehouse".to_string(), "billing".to_string()]),
        "Unknown data source 'crm'. Mounted sources: warehouse, billing"
    );
    assert_eq!(unknown_source_text("crm", &vec![]), "Unknown data source 'crm'. Mounted sources: ");
}

#[test]
fn remember_records_a_sentence_and_refuses_a_blank_one() {
    assert_eq!(remember_text("   ", d("2026-01-01")), Err("remember requires non-empty text.".to_string()));
    let t = remember_text("  Ada joined Acme. ", d("2026-01-02")).unwrap();
    assert!(t.starts_with("Recorded the sentence (effective 2026-01-02): Ada joined Acme.\nFacts extracted"));
    assert!(t.ends_with("Do not claim any fact has been added to the knowledge graph."));
}
