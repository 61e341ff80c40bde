use chrono::NaiveDate;
use utopia_server::citations::ToolSink;
use utopia_server::lines::{change_line, document_text, fact_line, legacy_system_prompt, DocChunk, EntityFact, GraphChange, Literal, PromptChunk};

fn d(s: &str) -> NaiveDate {
    NaiveDate::parse_from_str(s, "%Y-%m-%d").unwrap()
}

fn change(kind: &str) -> GraphChange {
    GraphChange {
        at: d("2026-08-28"),
        kind: kind.to_string(),
        subject_name: "Acme".to_string(),
        predicate_label: Some("founded in".to_string()),
        object_name: None,
        object_value: None,
        valid_from: None,
        valid_to: None,
        filename: None,
        quote: None,
    }
}

fn literal_reads_as_itself() {
    let mut c = change("asserted");
    c.object_value = Some(Literal::Text("1993".to_string()));
    assert!(change_line(&c).ends_with("Acme founded in 1993"), "{}", change_line(&c));
}

fn record_time_and_valid_range_apart() {
    let mut c = change("corrected");
    c.object_name = Some("Berlin".to_string());
    c.predicate_label = Some("headquartered in".to_string());
    c.valid_from = Some(d("2019-01-01"));
    let line = change_line(&c);
    assert!(line.starts_with("2026-08-28 corrected: "), "{line}");
    assert!(line.contains("[valid 2019-01-01 → now]"), "{line}");
}

fn no_evidence_no_document() {
    let mut c = change("rejected");
    c.object_name = Some("Berlin".to_string());
    assert!(!change_line(&c).contains("from"), "{}", change_line(&c));
}

fn evidence_has_filename_and_quote() {
    let mut c = change("corrected");
    c.object_name = Some("Berlin".to_string());
    c.filename = Some("annual-report.pdf".to_string());
    c.quote = Some("moved its head office to Berlin".to_string());
    let line = change_line(&c);
    assert!(line.contains("from \"annual-report.pdf\""), "{line}");
    assert!(line.contains("\"moved its head office to Berlin\""), "{line}");
}

#[test]
fn chat_a_literal_value_reads_as_itself_not_as_json() {
    literal_reads_as_itself();
}

#[test]
fn chat_the_record_time_and_the_valid_range_do_not_read_as_one_date_run() {
    record_time_and_valid_range_apart();
}

#[test]
fn chat_a_fact_with_no_evidence_claims_no_document() {
    no_evidence_no_document();
}

#[test]
fn chat_evidence_carries_the_filename_and_the_quote() {
    evidence_has_filename_and_quote();
}

#[test]
fn tools_a_literal_value_reads_as_itself_not_as_json() {
    literal_reads_as_itself();
}

#[test]
fn tools_the_record_time_and_the_valid_range_do_not_read_as_one_date_run() {
    record_time_and_valid_range_apart();
}

#[test]
fn tools_a_fact_with_no_evidence_claims_no_document() {
    no_evidence_no_document();
}

#[test]
fn tools_evidence_carries_the_filename_and_the_quote() {
    evidence_has_filename_and_quote();
}

#[test]
fn a_whole_change_line_reads_exactly() {
    let mut c = change("corrected");
    c.object_value = Some(Literal::Json("12.5".to_string()));
    c.valid_from = Some(d("2019-01-01"));
    c.valid_to = Some(d("2020-06-30"));
    c.filename = Some("a.pdf".to_string());
    c.quote = Some(format!("  {}  ", "x".repeat(170)));
    assert_eq!(
        change_line(&c),
        format!(
            "2026-08-28 corrected: Acme founded in 12.5 [valid 2019-01-01 → 2020-06-30] — from \"a.pdf\": \"{}…\"",
            "x".repeat(160)
        )
    );
    c.predicate_label = None;
    c.object_value = None;
    c.valid_from = None;
    c.quote = None;
    assert_eq!(change_line(&c), "2026-08-28 corrected: Acme ? ? [valid → 2020-06-30] — from \"a.pdf\"");
}

#[test]
fn a_fact_line_shows_direction_range_and_confidence() {
    let f = EntityFact {
        direction: "out".to_string(),
        other_name: Some("Acme".to_string()),
        predicate_label: Some("works at".to_string()),
        valid_from: Some(d("2023-08-01")),
        valid_to: None,
        confidence_pct: 90,
    };
    assert_eq!(fact_line(&f), "works at → Acme (2023-08-01 → now) [90%]");
    let g = EntityFact {
        direction: "in".to_string(),
        other_name: None,
        predicate_label: None,
        valid_from: None,
        valid_to: Some(d("2024-01-15")),
        confidence_pct: 100,
    };
    assert_eq!(fact_line(&g), "? ← ? (→ 2024-01-15) [100%]");
    let h = EntityFact {
        direction: "out".to_string(),
        other_name: Some("B".to_string()),
        predicate_label: Some("owns".to_string()),
        valid_from: Some(d("2020-01-01")),
        valid_to: Some(d("2021-01-01")),
        confidence_pct: 7,
    };
    assert_eq!(fact_line(&h), "owns → B (2020-01-01 → 2021-01-01) [7%]");
}

#[test]
fn the_toolless_prompt_numbers_its_sources() {
    let none = legacy_system_prompt(&vec![]);
    assert!(none.starts_with("You are an enterprise knowledge base assistant. No relevant sources were retrieved"));
    assert!(none.ends_with("Always respond in the same language as the user's question."));
    let chunks = vec![
        PromptChunk { filename: "a.pdf".to_string(), seq: 0, text: "Alpha.".to_string() },
        PromptChunk { filename: "b.md".to_string(), seq: 11, text: "Beta.".to_string() },
    ];
    let p = legacy_system_prompt(&chunks);
    assert!(p.contains("say so explicitly — never fabricate."));
    assert!(p.ends_with("### Sources\n\n[1] \"a.pdf\" section 1:\nAlpha.\n\n[2] \"b.md\" section 12:\nBeta.\n"), "{p}");
}

fn doc_chunk(key: &str, seq: i32, text: &str) -> DocChunk {
    DocChunk { key: key.to_string(), filename: "report.pdf".to_string(), seq, text: text.to_string() }
}

#[test]
fn a_document_read_cites_each_shown_chunk_once() {
    let mut sink: ToolSink<u32> = ToolSink::new();
    sink.cite("earlier".to_string(), 0);
    let chunks = vec![(doc_chunk("c1", 0, "  First part. "), 1u32), (doc_chunk("earlier", 1, "Second."), 2u32)];
    let text = document_text(&mut sink, "report.pdf", Some(d("2026-03-01")), chunks);
    assert_eq!(
        text,
        "\"report.pdf\" (2026-03-01) — 2 section(s):\n\n[2] \"report.pdf\" section 1:\nFirst part.\n\n[1] \"report.pdf\" section 2:\nSecond."
    );
    assert_eq!(sink.source_ids, vec!["earlier".to_string(), "c1".to_string()]);
    assert_eq!(sink.sources, vec![0, 1], "a chunk cited before keeps its number and its source");
}

#[test]
fn a_document_past_the_budget_is_cut_and_says_how_much() {
    let mut sink: ToolSink<u8> = ToolSink::new();
    let big = "a".repeat(23_990);
    let chunks = vec![(doc_chunk("c1", 0, &big), 0u8), (doc_chunk("c2", 1, "0123456789abcdef"), 0u8), (doc_chunk("c3", 2, "xyz"), 0u8)];
    let text = document_text(&mut sink, "big.txt", None, chunks);
    assert!(text.starts_with("\"big.txt\" (no date) — 3 section(s):\n\n[1] "));
    assert!(text.contains("[2] \"report.pdf\" section 2:\n0123456789\n\n… truncated, 9 chars omitted"), "{}", &text[text.len() - 120..]);
    assert_eq!(sink.source_ids.len(), 2, "a chunk past the budget is not cited");
    let empty = document_text(&mut ToolSink::<u8>::new(), "e.txt", None, vec![]);
    assert_eq!(empty, "\"e.txt\" (no date) — 0 section(s):\n(no text)");
}

#[test]
fn only_shown_chunks_record_their_sources() {
    let mut sink: ToolSink<u8> = ToolSink::new();
    let big = "a".repeat(24_000);
    let chunks = vec![(doc_chunk("c1", 0, &big), 5u8), (doc_chunk("c2", 1, "more"), 6u8)];
    let _ = document_text(&mut sink, "big.txt", None, chunks);
    assert_eq!(sink.sources, vec![5]);
}
