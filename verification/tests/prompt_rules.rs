use utopia_server::prompt::{build_lists, chunk_selection, ClassEntry, RelationEntry};

fn class(id: u128, key: &str, label: &str, description: &str) -> ClassEntry {
    ClassEntry { id, key: key.to_string(), label: label.to_string(), description: description.to_string() }
}

fn rel(id: u128, key: &str, kind: &str, domains: Vec<u128>, ranges: Vec<u128>) -> RelationEntry {
    RelationEntry {
        id,
        key: key.to_string(),
        label: key.to_string(),
        description: String::new(),
        kind: kind.to_string(),
        domains,
        ranges,
        datatype: None,
        unit: None,
    }
}

fn ontology() -> (Vec<ClassEntry>, Vec<RelationEntry>) {
    let classes = vec![
        class(1, "person", "Person", "A human"),
        class(2, "organization", "Organization", ""),
        class(3, "concept", "Concept", ""),
    ];
    let mut salary = rel(20, "salary", "attribute", vec![1], vec![]);
    salary.datatype = Some("number".to_string());
    salary.unit = Some("CNY".to_string());
    salary.description = "  yearly pay ".to_string();
    let rels = vec![
        rel(10, "works_at", "relation", vec![1], vec![2]),
        rel(11, "related_to", "relation", vec![], vec![]),
        rel(12, "partners_with", "relation", vec![2, 1], vec![]),
        rel(13, "mentions", "relation", vec![], vec![]),
        salary,
        rel(21, "founded", "attribute", vec![2, 9], vec![]),
    ];
    (classes, rels)
}

#[test]
fn the_whole_ontology_lists_every_class_relation_and_attribute() {
    let (classes, rels) = ontology();
    let l = build_lists(&classes, &rels, None, None);
    let keys: Vec<&str> = l.types.iter().map(|t| t.0.as_str()).collect();
    assert_eq!(keys, ["person", "organization", "concept"]);
    let r: Vec<(&str, &str)> = l.relations.iter().map(|r| (r.key.as_str(), r.signature.as_str())).collect();
    assert_eq!(
        r,
        [
            ("works_at", "person → organization"),
            ("partners_with", "organization|person → *"),
            ("mentions", ""),
        ],
        "the fallback relation is never offered; keys in a signature are sorted"
    );
    assert_eq!(l.attributes, ["- person.salary (number, CNY): yearly pay", "- organization.founded (text)"]);
}

#[test]
fn a_selection_shows_only_the_picked_classes() {
    let (classes, rels) = ontology();
    let picked_classes = vec![1u128, 3];
    let picked_rels = vec![10u128, 20, 21];
    let l = build_lists(&classes, &rels, Some(&picked_classes), Some(&picked_rels));
    let keys: Vec<&str> = l.types.iter().map(|t| t.0.as_str()).collect();
    assert_eq!(keys, ["person", "concept"]);
    assert_eq!(l.relations.len(), 1);
    assert_eq!(l.relations[0].signature, "person → *", "a side with no shown class reads *");
    assert_eq!(l.attributes, ["- person.salary (number, CNY): yearly pay"], "an attribute goes with its class");
}

#[test]
fn the_budget_counts_the_bytes_laid_out() {
    let classes = vec![class(1, "a", "B", "é")];
    let rels = vec![rel(5, "r", "relation", vec![1], vec![]), rel(6, "n", "attribute", vec![1], vec![])];
    let l = build_lists(&classes, &rels, None, None);
    // a + B + é (2 bytes) + 6 = 10; r + r + "" + "a → *" (7 bytes) + 8 = 17; "- a.n (text)" + 1 = 13
    assert_eq!(l.relations[0].signature, "a → *");
    assert_eq!(l.attributes, ["- a.n (text)"]);
    assert!(!l.over_budget(40));
    assert!(l.over_budget(39));
    assert!(l.over_budget(0));
}

#[test]
fn a_chunk_with_nothing_retrieved_falls_back_to_the_whole_ontology() {
    let seeds = vec![1u128, 2];
    assert!(chunk_selection(&seeds, &vec![2, 1], &vec![], &vec![]).is_none());
    let (c, t) = chunk_selection(&seeds, &vec![7], &vec![], &vec![]).unwrap();
    assert!(c.contains(&1) && c.contains(&2) && c.contains(&7), "the built-in classes are always there");
    assert!(t.is_empty());
    let (c, t) = chunk_selection(&seeds, &vec![], &vec![30], &vec![40]).unwrap();
    assert!(c.contains(&1) && c.contains(&2) && c.len() == 2);
    assert!(t.contains(&30) && t.contains(&40));
}
