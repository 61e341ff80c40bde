use utopia_server::docs::{article_sections, sections};

const BODY: &str = "# Ingest interfaces\r\nIntro line.\r\n\r\n## Choosing between them\nPick one.\n\n## `Custom` source — the *pull* interface\nPull.\n## Empty\n\n## Shared semantics\nSame rules.\n";

#[test]
fn an_article_splits_at_its_second_level_headings() {
    let s = article_sections("ingest", "Ingest interfaces", BODY);
    let got: Vec<(&str, &str, &str)> =
        s.iter().map(|x| (x.heading.as_str(), x.anchor.as_str(), x.body.as_str())).collect();
    assert_eq!(
        got,
        [
            ("Ingest interfaces", "", "Intro line."),
            ("Choosing between them", "choosing-between-them", "Pick one."),
            ("Custom source — the pull interface", "custom-source-the-pull-interface", "Pull."),
            ("Shared semantics", "shared-semantics", "Same rules."),
        ],
        "a section with no text is left out; the title line is not part of the introduction"
    );
    assert!(s.iter().all(|x| x.slug == "ingest" && x.title == "Ingest interfaces"));
}

#[test]
fn every_article_is_indexed_in_turn() {
    let articles = vec![
        ("ingest".to_string(), "Ingest interfaces".to_string(), BODY.to_string()),
        ("mcp".to_string(), "Agents over MCP".to_string(), "Connect an agent.\n## Tools\nRead only.".to_string()),
    ];
    let s = sections(&articles);
    assert_eq!(s.len(), 6);
    assert_eq!(s[4].slug, "mcp");
    assert_eq!(s[4].heading, "Agents over MCP");
    assert_eq!(s[5].anchor, "tools");
    assert_eq!(s[5].body, "Read only.");
}

#[test]
fn a_body_with_no_text_has_no_sections() {
    assert!(article_sections("x", "X", "").is_empty());
    assert!(article_sections("x", "X", "# X\n\n   \n").is_empty());
}
