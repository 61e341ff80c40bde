use utopia_server::bootstrap::adopt_forms;
use utopia_server::open_graph::{evidence_quote, malformed_detail, open_finish, time_words, OpenFinish};
use utopia_server::mappings::explore_allowed;
use utopia_server::bootstrap::{adoption, Adoption, Group};
use utopia_server::extraction::{finish_plan, still_owner, FinishPlan};
use utopia_server::open_graph::{open_drop_detail, quote_missing, target_drop, OpenDrop};
use utopia_server::mappings::{considered, exploration_alerts};
use utopia_server::admin::SchemaColumn;
use utopia_server::mappings::{exploration_prompt, schema_text, SourceSchema};
use utopia_server::ontology::{suggest_prompt, Miss};
use utopia_server::bootstrap::{count_group, enough_signals, relation_label, sort_by_rank, worth_recording, Form};
use utopia_server::extraction::{
    attribute_keys, entity_name, relation_for, route, specific_type, type_matches_domain, uniqueness_sides,
    Route, TypeNode,
};
use utopia_server::graph::{EntityPatch, EntitySearchQuery, HistoryQuery, NeighborhoodQuery, OverviewQuery};
use utopia_server::mappings::{read_proposals, screen, strip_fence, ConceptKind, ListQuery, ReviseReq};
use utopia_server::open_graph::{note_named, qualifier, resolve_name, statement_target, StatementDrop, Target};
use utopia_server::review::{
    close_check, conflict_audit_action, parse_resolution, plan_violation, split_merge_names, ConflictBody,
    DecideViolationReq, DecideBody,
    DecideMappingReq, DecidePendingBody, FactRepair, PendingDecision, Queue, Resolution, ReviewQuery,
    ReviewRefusal,
};

fn node(id: u128, parents: &[u128]) -> TypeNode {
    TypeNode { id, parents: parents.to_vec() }
}

#[test]
fn a_subtype_falls_under_its_ancestors_domains() {
    // 1 thing; 2 organisation < 1; 3 company < 2; 4 person < 1
    let types = vec![node(1, &[]), node(2, &[1]), node(3, &[2]), node(4, &[1])];
    assert!(type_matches_domain(&types, 3, 3));
    assert!(type_matches_domain(&types, 3, 2));
    assert!(type_matches_domain(&types, 3, 1));
    assert!(!type_matches_domain(&types, 3, 4));
    assert!(!type_matches_domain(&types, 1, 3));
    assert!(!type_matches_domain(&types, 9, 1));
}

#[test]
fn a_cycle_in_the_hierarchy_ends_the_walk() {
    let types = vec![node(1, &[2]), node(2, &[1]), node(3, &[])];
    assert!(type_matches_domain(&types, 1, 2));
    assert!(!type_matches_domain(&types, 1, 3));
    let diamond = vec![node(1, &[2, 3]), node(2, &[4]), node(3, &[4]), node(4, &[])];
    assert!(type_matches_domain(&diamond, 1, 4));
}

#[test]
fn entities_and_their_notes() {
    assert_eq!(entity_name("  Acme  "), Some("Acme".to_string()));
    assert_eq!(entity_name("   "), None);
    assert_eq!(entity_name(&"x".repeat(101)), None);
    assert_eq!(entity_name(&"名".repeat(100)), Some("名".repeat(100)));
    assert_eq!(specific_type(Some(" startup "), "organization"), Some("startup".to_string()));
    assert_eq!(specific_type(Some("Organization"), "organization"), None);
    assert_eq!(specific_type(Some("  "), "organization"), None);
    assert_eq!(specific_type(None, "organization"), None);
}

#[test]
fn where_a_statement_goes() {
    assert_eq!(route(true, false, Some("x"), true, true, false), Route::Attribute);
    assert_eq!(route(false, true, None, false, false, false), Route::Literal);
    assert_eq!(route(false, true, Some("  "), false, false, false), Route::Literal);
    assert_eq!(route(false, true, None, true, false, false), Route::Relation);
    assert_eq!(route(false, false, Some("2015"), false, false, true), Route::Literal);
    assert_eq!(route(false, false, Some("2015"), false, true, true), Route::Relation);
    assert_eq!(route(false, false, Some("Acme"), false, false, false), Route::Relation);
    assert_eq!(attribute_keys("weight"), vec!["weight".to_string()]);
    assert_eq!(attribute_keys("person.height"), vec!["person.height".to_string(), "height".to_string()]);
    assert_eq!(relation_for(true, Some(5), Some(9)), None);
    assert_eq!(relation_for(false, Some(5), Some(9)), Some(5));
    assert_eq!(relation_for(false, None, Some(9)), Some(9));
    assert_eq!(relation_for(false, None, None), None);
    assert_eq!(uniqueness_sides(true, true, true), (true, true));
    assert_eq!(uniqueness_sides(true, true, false), (false, false));
}

#[test]
fn statement_names_resolve_locally_first() {
    let local = vec![("acme".to_string(), 1u128)];
    let known = vec![("acme".to_string(), 2u128), ("bob".to_string(), 3u128)];
    assert_eq!(resolve_name(&local, &known, "  ACME "), Some(1));
    assert_eq!(resolve_name(&local, &known, "Bob"), Some(3));
    assert_eq!(resolve_name(&local, &known, "Carol"), None);
    match statement_target(1, Some("Bob"), Some(3), None) {
        Ok(Target::Entity(3)) => {}
        other => panic!("{other:?}"),
    }
    match statement_target(1, Some(" Berlin "), None, None) {
        Ok(Target::Value(v)) => assert_eq!(v, "Berlin"),
        other => panic!("{other:?}"),
    }
    match statement_target(1, Some("Berlin"), None, Some(" 1993 ")) {
        Ok(Target::Value(v)) => assert_eq!(v, "1993"),
        other => panic!("{other:?}"),
    }
    assert!(matches!(statement_target(1, Some("Acme"), Some(1), None), Err(StatementDrop::OwnSubject)));
    assert!(matches!(statement_target(1, None, None, Some("  ")), Err(StatementDrop::NoObject)));
    match qualifier(&local, &known, " role ", " Bob ") {
        Some((r, Target::Entity(3))) => assert_eq!(r, "role"),
        other => panic!("{other:?}"),
    }
    assert!(qualifier(&local, &known, " ", "Bob").is_none());
}

#[test]
fn graph_queries_read_their_defaults() {
    assert_eq!(OverviewQuery { at: None, as_of: None, limit: None }.node_limit(), 150);
    assert_eq!(OverviewQuery { at: None, as_of: None, limit: Some(3) }.node_limit(), 10);
    assert_eq!(OverviewQuery { at: None, as_of: None, limit: Some(5000) }.node_limit(), 1000);
    let id = uuid::Uuid::nil();
    assert_eq!(NeighborhoodQuery { entity: id, hops: None, at: None, as_of: None }.hop_count(), 2);
    let q = EntitySearchQuery { q: "  ".into(), limit: None, offset: None };
    assert!(q.is_blank());
    assert_eq!(q.page(), (10, 0));
    assert!(!EntityPatch { type_id: None, canonical_name: None }.has_changes());
    assert!(EntityPatch { type_id: None, canonical_name: Some("X".into()) }.has_changes());
    assert_eq!(HistoryQuery { page: 2, per: 500 }.window(), (200, 400));
    assert_eq!(HistoryQuery { page: -1, per: 0 }.window(), (1, 0));
}

#[test]
fn review_queues_and_decisions() {
    let q = ReviewQuery { queue: None, limit: None, offset: None };
    assert_eq!(q.read().unwrap(), (Queue::Duplicates, 10, 0));
    let q = ReviewQuery { queue: Some("lowconf".into()), limit: Some(900), offset: Some(-3) };
    assert_eq!(q.read().unwrap(), (Queue::LowConfidence, 200, 0));
    match (ReviewQuery { queue: Some("spam".into()), limit: None, offset: None }).read() {
        Err(ReviewRefusal::UnknownQueue(m)) => assert_eq!(m, "no review queue named spam"),
        other => panic!("{other:?}"),
    }
    assert_eq!(DecideBody { action: "merge".into() }.audit_action(), "review.merge");
    assert_eq!(DecideBody { action: "keep".into() }.audit_action(), "review.keep");
    assert_eq!(conflict_audit_action("close"), "conflict.close_old");
    assert_eq!(conflict_audit_action("keep"), "conflict.keep_both");
    assert_eq!(conflict_audit_action("reject"), "conflict.reject_new");
    assert!(DecideMappingReq { status: "confirmed".into() }.check().is_ok());
    assert!(DecideMappingReq { status: "proposed".into() }.check().is_err());
    assert_eq!(DecidePendingBody { action: "confirm".into() }.decision().unwrap(), PendingDecision::Confirm);
    match (DecidePendingBody { action: "maybe".into() }).decision() {
        Err(ReviewRefusal::UnknownAction(m)) => assert_eq!(m, "action must be confirm or reject, got maybe"),
        other => panic!("{other:?}"),
    }
    assert_eq!(split_merge_names("Acme → Acme Corp"), ("Acme".to_string(), "Acme Corp".to_string()));
    assert_eq!(split_merge_names("Acme"), ("Acme".to_string(), String::new()));
}

#[test]
fn a_violation_is_repaired_only_through_a_derived_contradiction() {
    let r = parse_resolution("fact_closed").unwrap();
    assert_eq!(r, Resolution::FactClosed);
    assert!(matches!(parse_resolution("ignored"), Err(ReviewRefusal::BadViolationResolution)));
    assert!(matches!(
        plan_violation(Resolution::FactRetracted, Some("derived_contradiction"), false),
        Ok((FactRepair::Retract, true))
    ));
    assert!(matches!(
        plan_violation(Resolution::FactClosed, Some("derived_contradiction"), false),
        Err(ReviewRefusal::CloseAtRequired)
    ));
    assert!(matches!(
        plan_violation(Resolution::FactClosed, Some("derived_contradiction"), true),
        Ok((FactRepair::Close, true))
    ));
    assert!(matches!(
        plan_violation(Resolution::FactClosed, Some("disjoint"), true),
        Err(ReviewRefusal::ClosedOnlyForDerived)
    ));
    assert!(matches!(plan_violation(Resolution::Accepted, Some("disjoint"), false), Ok((FactRepair::Keep, false))));
    assert!(matches!(plan_violation(Resolution::Accepted, None, false), Err(ReviewRefusal::NotFound)));
    assert!(matches!(close_check(false), Err(ReviewRefusal::NotOpen)));
}

#[test]
fn mapping_lists_and_revisions() {
    let q = ListQuery { status: Some("rejected".into()), q: Some(" rev ".into()), limit: None, offset: None };
    let (s, t, l, o) = q.read().unwrap();
    assert_eq!((s.as_deref(), t.as_deref(), l, o), (Some("rejected"), Some("rev"), 25, 0));
    assert!(ListQuery { status: Some("maybe".into()), q: None, limit: None, offset: None }.read().is_err());
    assert_eq!(ListQuery { status: Some(String::new()), q: None, limit: None, offset: None }.read().unwrap().0, None);
    let empty = ReviseReq { table_name: Some("  ".into()), expr: None, sql: None, unit: Some("EUR".into()), summary: None, derived: false };
    assert!(empty.cleaned().is_err());
    let ok = ReviseReq { table_name: None, expr: Some(" sum(x) ".into()), sql: None, unit: Some(" ".into()), summary: None, derived: true };
    let v = ok.cleaned().unwrap();
    assert_eq!(v.expr.as_deref(), Some("sum(x)"));
    assert_eq!(v.unit, None);
}

#[test]
fn proposals_are_read_out_of_their_fence_and_screened() {
    assert_eq!(strip_fence("```json\n[1]\n```"), "[1]");
    assert_eq!(strip_fence("  [1]  "), "[1]");
    let reply = "```json\n[{\"name\":\" Revenue \",\"kind\":\"metric\",\"source\":\"warehouse\",\"definition\":{\"expr\":\"sum(x)\"}},{\"name\":\"\",\"kind\":\"metric\",\"source\":\"warehouse\"},{\"name\":\"Region\",\"kind\":\"measure\",\"source\":\"warehouse\"}]\n```";
    let ps = read_proposals(reply).unwrap();
    assert_eq!(ps.len(), 3);
    let sources = vec!["Warehouse".to_string()];
    let first = screen(&ps[0], &sources).unwrap();
    assert_eq!((first.0.as_str(), first.1, first.2.as_str()), ("Revenue", ConceptKind::Metric, "warehouse"));
    assert!(screen(&ps[1], &sources).is_none());
    assert!(screen(&ps[2], &sources).is_none());
    assert_eq!(ps[0].definition.as_ref().unwrap().expr.as_deref(), Some("sum(x)"));
    assert!(ps[1].definition.is_none());
    assert!(read_proposals("not json").unwrap_err().starts_with("Mapping proposal parse error: "));
}

fn form(name: &str, facts: i64, docs: &[u128], existing: Option<(u128, bool)>) -> Form {
    Form { form: name.into(), fact_count: facts, docs: docs.to_vec(), existing }
}

#[test]
fn spellings_are_counted_as_one_relation() {
    let g = count_group(vec![
        form("works_at", 3, &[1, 2], None),
        form("employed_by", 5, &[2], Some((77, true))),
        form("works_for", 5, &[3], None),
    ])
    .unwrap();
    assert_eq!(g.key, "employed_by");
    assert_eq!(g.forms, vec!["employed_by", "works_for", "works_at"]);
    assert_eq!(g.facts, 13);
    assert_eq!(g.docs, 3);
    assert_eq!(g.existing, Some((77, true)));
    assert!(count_group(vec![form("rare", 9, &[4, 4], None)]).is_none());
    assert_eq!(relation_label("works_for"), "works for");
}

#[test]
fn groups_rank_by_facts_then_key() {
    let mk = |k: &str, f: i64| utopia_server::bootstrap::Group {
        key: k.into(),
        forms: vec![k.into()],
        facts: f,
        docs: 2,
        existing: None,
    };
    let sorted = sort_by_rank(vec![mk("b", 2), mk("a", 2), mk("c", 9)]);
    let keys: Vec<&str> = sorted.iter().map(|g| g.key.as_str()).collect();
    assert_eq!(keys, vec!["c", "a", "b"]);
    assert!(enough_signals(&vec![2, 1, 5], 1));
    assert!(!enough_signals(&vec![2, 1, 1], 1));
    assert!(enough_signals(&vec![], 3));
    assert!(!worth_recording(0, 0, 0));
    assert!(worth_recording(0, 1, 0));
}

#[test]
fn a_thing_is_noted_once_under_its_first_name() {
    let mut entities: Vec<(u128, String, String)> = Vec::new();
    let mut known: Vec<(String, u128)> = Vec::new();
    note_named(&mut entities, &mut known, 7, "organization", "Nebula  Tech");
    note_named(&mut entities, &mut known, 7, "org", "Nebula");
    note_named(&mut entities, &mut known, 9, "person", "Ada");
    assert_eq!(
        entities,
        vec![(7, "organization".to_string(), "Nebula  Tech".to_string()), (9, "person".to_string(), "Ada".to_string())]
    );
    assert_eq!(known, vec![("nebula tech".to_string(), 7), ("ada".to_string(), 9)]);
    assert_eq!(resolve_name(&vec![], &known, " NEBULA tech "), Some(7));
    note_named(&mut entities, &mut known, 11, "person", "ada");
    assert_eq!(resolve_name(&vec![], &known, "Ada"), Some(9), "the first thing keeps its name");
}

#[test]
fn extensions_are_asked_for_only_with_misses() {
    let none = suggest_prompt(&vec!["person".to_string()], &vec![], &vec![]);
    assert!(none.is_none());
    let misses = vec![
        Miss { kind: "relation_type".to_string(), key: "sued".to_string(), count: 4, example: Some("Acme → Beta".to_string()) },
        Miss { kind: "entity_type".to_string(), key: "film".to_string(), count: 2, example: None },
    ];
    let p = suggest_prompt(&vec!["person".to_string(), "organization".to_string()], &vec!["works_at".to_string()], &misses).unwrap();
    assert!(p.starts_with("You are an ontology engineer. A knowledge graph has this ontology:\nEntity type keys: person, organization\nRelation type keys: works_at\n\nDuring extraction, the LLM repeatedly produced types/relations OUTSIDE this ontology:\n- [relation_type] \"sued\" seen 4 times, e.g. Acme → Beta\n- [entity_type] \"film\" seen 2 times, e.g. -\n\nPropose ontology extensions"));
    assert!(p.ends_with("\"functional\":false,\"reason\":\"...\"}]}"));
}

fn schema_col(schema: &str, table: &str, column: &str, ty: &str, comment: Option<&str>) -> SchemaColumn {
    SchemaColumn {
        schema: schema.to_string(),
        table: table.to_string(),
        column: column.to_string(),
        data_type: ty.to_string(),
        comment: comment.map(|c| c.to_string()),
    }
}

#[test]
fn an_exploration_shows_each_source_schema() {
    let sources = vec![
        SourceSchema {
            name: "warehouse".to_string(),
            columns: vec![
                schema_col("public", "orders", "id", "bigint", None),
                schema_col("public", "orders", "amount", "numeric", Some("CNY")),
            ],
        },
        SourceSchema { name: "crm".to_string(), columns: vec![schema_col("s", "leads", "name", "text", None)] },
    ];
    assert_eq!(
        schema_text(&sources),
        "\n=== source: warehouse ===\ntable public.orders:\n  id bigint\n  amount numeric -- CNY\n\n=== source: crm ===\ntable s.leads:\n  name text\n"
    );
    let p = exploration_prompt(&vec![], "S");
    assert!(p.contains("reuse these names when the meaning matches): (none)\nSchemas:\nS\nReply with ONLY a JSON array"));
    let p = exploration_prompt(&vec!["Revenue".to_string(), "Region".to_string()], "S");
    assert!(p.contains("matches): Revenue, Region\nSchemas:"));
    assert!(p.ends_with("Propose at most 12, only well-grounded ones."));
}

#[test]
fn a_long_schema_is_cut_after_the_byte_limit() {
    let wide = "x".repeat(100);
    let cols: Vec<SchemaColumn> = (0..200).map(|i| schema_col("s", "t", &format!("c{i}"), &wide, None)).collect();
    let sources = vec![
        SourceSchema { name: "a".to_string(), columns: cols },
        SourceSchema { name: "b".to_string(), columns: vec![schema_col("s", "u", "k", "int", None)] },
    ];
    let t = schema_text(&sources);
    assert!(t.contains("(truncated)\n\n=== source: b ===\ntable s.u:\n  k int\n(truncated)\n"), "the limit is on the whole text");
    assert!(!t.contains("c199"));
}

#[test]
fn a_violation_decision_reads_its_resolution_before_anything_else() {
    let bad = DecideViolationReq { resolution: "undo".to_string(), close_at: None };
    assert_eq!(bad.plan(None).err().map(|e| e.code()), Some("bad_resolution"));
    let closed = DecideViolationReq { resolution: "fact_closed".to_string(), close_at: None };
    assert_eq!(closed.plan(Some("derived_contradiction")).err().map(|e| e.code()), Some("close_at_required"));
    let retracted = DecideViolationReq { resolution: "fact_retracted".to_string(), close_at: None };
    assert_eq!(retracted.plan(Some("derived_contradiction")).ok(), Some((Resolution::FactRetracted, FactRepair::Retract, true)));
    assert_eq!(retracted.plan(None).err().map(|e| e.code()), Some("not_found"));
    assert_eq!(ConflictBody { action: "keep".to_string(), close_at: None }.audit_action(), "conflict.keep_both");
}

fn proposal(name: &str, kind: &str, source: &str) -> utopia_server::mappings::Proposal {
    utopia_server::mappings::Proposal {
        name: Some(name.to_string()),
        kind: Some(kind.to_string()),
        source: Some(source.to_string()),
        definition: None,
        summary: None,
    }
}

#[test]
fn only_the_first_twelve_proposals_are_read() {
    let sources = vec!["Sales".to_string()];
    let mut ps = vec![proposal("revenue", "metric", "sales"), proposal("", "metric", "sales"),
        proposal("region", "dimension", "other"), proposal("x", "table", "sales")];
    for i in 0..12 {
        ps.push(proposal(&format!("m{i}"), "dimension", " SALES "));
    }
    assert_eq!(considered(&ps, &sources), vec![0, 4, 5, 6, 7, 8, 9, 10, 11]);
    let few = vec![proposal("revenue", "metric", "sales"), proposal("", "metric", "sales")];
    assert_eq!(considered(&few, &sources), vec![0]);
    assert!(exploration_alerts(0));
    assert!(!exploration_alerts(1));
}

#[test]
fn a_statement_drop_is_recorded_with_its_reason() {
    assert_eq!(open_drop_detail(OpenDrop::UnknownSubject), "a statement's subject is not a listed thing");
    assert_eq!(open_drop_detail(OpenDrop::QuoteNotInChunk), "a quoted sentence is not in the chunk verbatim");
    assert_eq!(target_drop(StatementDrop::OwnSubject), OpenDrop::OwnSubject);
    assert_eq!(open_drop_detail(target_drop(StatementDrop::NoObject)), "a statement has neither an object nor a value");
    let chunk = "Acme moved its head office to Berlin in 2019.";
    assert!(!quote_missing(chunk, Some(" moved its head office to Berlin ")));
    assert!(quote_missing(chunk, Some("relocated to Berlin")));
    assert!(!quote_missing(chunk, Some("   ")));
    assert!(!quote_missing(chunk, None));
}

#[test]
fn a_superseded_run_leaves_quietly() {
    assert!(still_owner(3, 3));
    assert!(!still_owner(4, 3));
    assert_eq!(finish_plan(4, 3, true, true, true, true), None);
    assert_eq!(
        finish_plan(3, 3, false, true, true, false),
        Some(FinishPlan { mark_done: true, adjudicate: false, notify_review: true, extend_ontology: false })
    );
    assert_eq!(
        finish_plan(3, 3, true, false, true, true),
        Some(FinishPlan { mark_done: true, adjudicate: true, notify_review: true, extend_ontology: true })
    );
}

#[test]
fn a_new_relation_carries_no_axioms() {
    let g = Group { key: "runs_on".to_string(), forms: vec!["runs_on".to_string()], facts: 3, docs: 2, existing: None };
    match adoption(&g) {
        Adoption::Create(n) => {
            assert_eq!((n.key.as_str(), n.label.as_str(), n.temporal, n.kind), ("runs_on", "runs on", "state", "relation"));
            assert!(!n.functional && !n.inverse_functional && n.description.is_empty());
        }
        Adoption::Existing(..) => panic!("no existing relation was named"),
    }
    let g = Group { key: "produced_by".to_string(), forms: vec![], facts: 1, docs: 2, existing: Some((7, true)) };
    assert!(matches!(adoption(&g), Adoption::Existing(7, true)));
}

#[test]
fn evidence_carries_the_quote_where_it_stands() {
    let chunk = "Acme moved to Berlin in 2019.";
    assert_eq!(evidence_quote(chunk, Some("  moved to Berlin ")), Some(("moved to Berlin".to_string(), Some((5, 20)))));
    assert_eq!(evidence_quote(chunk, Some("went to Paris")), Some(("went to Paris".to_string(), None)));
    assert_eq!(evidence_quote(chunk, Some("  ")), None);
    assert_eq!(evidence_quote(chunk, None), None);
    assert_eq!(time_words(Some(" in 2019 "), Some("")), vec!["in 2019".to_string()]);
    assert_eq!(time_words(None, Some("until 2021")), vec!["until 2021".to_string()]);
    assert_eq!(malformed_detail(3), "3 items in the open reply were malformed");
}

#[test]
fn an_open_run_with_unread_chunks_is_not_done() {
    assert_eq!(open_finish(2, 1, vec![], false, true, true), OpenFinish::Superseded);
    assert_eq!(open_finish(1, 1, vec![3, 7], false, true, true), OpenFinish::Incomplete(vec![3, 7]));
    assert_eq!(
        open_finish(1, 1, vec![], true, false, true),
        OpenFinish::Done { govern: true, adjudicate: false, notify_review: true }
    );
    assert_eq!(
        open_finish(1, 1, vec![], false, true, false),
        OpenFinish::Done { govern: false, adjudicate: true, notify_review: true }
    );
    assert_eq!(explore_allowed(0), Err(("no_data_sources", "No data sources mounted")));
    assert_eq!(explore_allowed(2), Ok(()));
}

#[test]
fn only_a_group_seen_in_two_documents_is_adopted() {
    let f = |form: &str, n: i64, docs: Vec<u128>, existing: Option<(u128, bool)>| Form {
        form: form.to_string(), fact_count: n, docs, existing,
    };
    match adopt_forms(vec![f("runs_on", 3, vec![1], None), f("ran_on", 5, vec![2], None)]) {
        Some((g, Adoption::Create(n))) => {
            assert_eq!(g.key, "ran_on");
            assert_eq!(g.docs, 2);
            assert_eq!((n.key.as_str(), n.label.as_str(), n.temporal), ("ran_on", "ran on", "state"));
            assert!(!n.functional && !n.inverse_functional && n.description.is_empty());
        }
        _ => panic!("two documents are enough"),
    }
    assert!(adopt_forms(vec![f("runs_on", 3, vec![1], None), f("ran_on", 5, vec![1], None)]).is_none());
    match adopt_forms(vec![f("produced_by", 2, vec![1, 2], Some((9, true)))]) {
        Some((_, Adoption::Existing(9, true))) => {}
        _ => panic!("an existing relation is reused"),
    }
}
