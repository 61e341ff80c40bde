//! The ontology editor's requests: entity and relation types, the misses an
//! editor dismisses, the proposals one adopts, and the instance pages.
use vstd::prelude::*;
use uuid::Uuid;
use crate::paging::{numbered_page, opt_view, page_offset};
use crate::text::{chars_of, string_of, trim_seq, trim_str};

verus! {

pub struct InstancesQuery {
    pub page: i64,
    pub per: i64,
}

/// How many instances a page shows when nothing is asked for.
pub fn default_per() -> (r: i64)
    ensures
        r == 12,
{
    12
}

impl InstancesQuery {
    /// The page size within `1..=100` and the offset of the page asked for.
    pub fn window(&self) -> (r: (i64, i64))
        requires
            numbered_page(self.page, self.per, 100).1 <= i64::MAX,
        ensures
            r.0 == numbered_page(self.page, self.per, 100).0,
            r.1 == numbered_page(self.page, self.per, 100).1,
    {
        page_offset(self.page, self.per, 100)
    }
}

pub struct EntityTypeReq {
    pub key: Option<String>,
    pub label: String,
    pub color: Option<String>,
    pub shape: Option<String>,
    pub parent_id: Option<Uuid>,
    pub description: Option<String>,
}

pub struct RelationTypeReq {
    pub key: Option<String>,
    pub label: String,
    pub temporal: String,
    pub functional: bool,
    pub inverse_functional: bool,
    pub description: Option<String>,
    pub kind: Option<String>,
    pub domain_type_id: Option<Uuid>,
    pub datatype: Option<String>,
    pub unit: Option<String>,
}

pub struct DismissMissReq {
    pub kind: String,
    pub key: String,
}

/// How a relation holds in time when nothing is said: as a state.
pub fn default_temporal() -> (s: String)
    ensures
        s@ == "state"@,
{
    string_of(&chars_of("state"))
}

/// The key a new type is created under: required, and trimmed.
pub open spec fn new_key(key: Option<Seq<char>>) -> Option<Seq<char>> {
    match key {
        Some(k) => if trim_seq(k).len() > 0 {
            Some(trim_seq(k))
        } else {
            None
        },
        None => None,
    }
}

/// The key a create request names; `None` is the refusal `key is required`.
pub fn required_key(key: &Option<String>) -> (r: Option<String>)
    ensures
        opt_view(r) == new_key(opt_view(*key)),
{
    crate::paging::search_term(key)
}

/// The fields an entity type is stored with: the trimmed label, the colour and
/// shape asked for or `#8ea5bd` and `circle`, and the trimmed description (empty
/// when none).
pub struct EntityTypeFields {
    pub label: String,
    pub color: String,
    pub shape: String,
    pub description: String,
}

fn text_or(v: &Option<String>, fallback: &str) -> (r: String)
    ensures
        r@ == match v {
            Some(s) => s@,
            None => fallback@,
        },
{
    match v {
        Some(s) => string_of(&chars_of(s.as_str())),
        None => string_of(&chars_of(fallback)),
    }
}

impl EntityTypeReq {
    pub fn fields(&self) -> (r: EntityTypeFields)
        ensures
            r.label@ == trim_seq(self.label@),
            r.color@ == match self.color {
                Some(c) => c@,
                None => "#8ea5bd"@,
            },
            r.shape@ == match self.shape {
                Some(s) => s@,
                None => "circle"@,
            },
            r.description@ == trim_seq(
                match self.description {
                    Some(d) => d@,
                    None => ""@,
                },
            ),
    {
        let d = text_or(&self.description, "");
        EntityTypeFields {
            label: trim_str(self.label.as_str()),
            color: text_or(&self.color, "#8ea5bd"),
            shape: text_or(&self.shape, "circle"),
            description: trim_str(d.as_str()),
        }
    }
}

impl RelationTypeReq {
    /// The kind of a new relation type: as asked, else `relation`.
    pub fn kind_or_default(&self) -> (r: String)
        ensures
            r@ == match self.kind {
                Some(k) => k@,
                None => "relation"@,
            },
    {
        text_or(&self.kind, "relation")
    }

    /// The unit a relation's values carry: trimmed, and none when blank.
    pub fn unit_text(&self) -> (r: Option<String>)
        ensures
            opt_view(r) == crate::paging::term(opt_view(self.unit)),
    {
        crate::paging::search_term(&self.unit)
    }

    /// The trimmed description, empty when none.
    pub fn description_text(&self) -> (r: String)
        ensures
            r@ == trim_seq(
                match self.description {
                    Some(d) => d@,
                    None => ""@,
                },
            ),
    {
        let d = text_or(&self.description, "");
        trim_str(d.as_str())
    }
}


// ---------------------------------------------------------------------------
// Asking for ontology extensions
// ---------------------------------------------------------------------------

/// A word extraction kept producing outside the ontology.
pub struct Miss {
    /// `entity_type`, `relation_type` or `attribute_type`.
    pub kind: String,
    pub key: String,
    pub count: i64,
    pub example: Option<String>,
}

/// `- [kind] "key" seen n times, e.g. example` (`-` without an example).
pub open spec fn miss_line(m: Miss) -> Seq<char> {
    "- ["@ + m.kind@ + "] \""@ + m.key@ + "\" seen "@ + crate::lines::signed_text(m.count as int)
        + " times, e.g. "@ + match m.example {
        Some(e) => e@,
        None => "-"@,
    }
}

pub open spec fn miss_lines(ms: Seq<Miss>) -> Seq<Seq<char>>
    decreases ms.len(),
{
    if ms.len() == 0 {
        Seq::empty()
    } else {
        miss_lines(ms.drop_last()).push(miss_line(ms.last()))
    }
}

/// The request for ontology extensions: the current keys, the misses one per
/// line, and the shape of the answer. No request when nothing was missed.
pub open spec fn suggest_prompt_of(entity_keys: Seq<String>, relation_keys: Seq<String>, misses: Seq<Miss>) -> Option<
    Seq<char>,
> {
    if misses.len() == 0 {
        None
    } else {
        Some(
            "You are an ontology engineer. A knowledge graph has this ontology:\nEntity type keys: "@ + crate::tool_text::names_list(entity_keys) + "\nRelation type keys: "@ + crate::tool_text::names_list(
                relation_keys,
            ) + "\n\nDuring extraction, the LLM repeatedly produced types/relations OUTSIDE this ontology:\n"@ + crate::prompt::join(miss_lines(misses), "\n"@) + "\n\nPropose ontology extensions that would cover these misses. Merge near-duplicates. Only propose what is clearly warranted by the misses. Output exactly one JSON object:\n{\"entity_types\":[{\"key\":\"snake_case\",\"label\":\"Display Name\",\"reason\":\"...\"}],\n\"relation_types\":[{\"key\":\"snake_case\",\"label\":\"display label\",\"temporal\":\"state|event|eternal\",\"functional\":false,\"reason\":\"...\"}]}"@,
        )
    }
}

fn joined(names: &Vec<String>, sep: &str) -> (r: Vec<char>)
    ensures
        r@ == crate::prompt::join(names@.map_values(|n: String| n@), sep@),
{
    let mut parts: Vec<Vec<char>> = Vec::new();
    let mut i: usize = 0;
    while i < names.len()
        invariant
            i <= names@.len(),
            crate::prompt::vecs_view(parts@) == names@.take(i as int).map_values(|n: String| n@),
        decreases names.len() - i,
    {
        let ghost before = crate::prompt::vecs_view(parts@);
        parts.push(chars_of(names[i].as_str()));
        proof {
            assert(crate::prompt::vecs_view(parts@) =~= before.push(names@[i as int]@));
            assert(names@.take(i + 1).map_values(|n: String| n@) =~= names@.take(i as int).map_values(
                |n: String| n@,
            ).push(names@[i as int]@));
        }
        i = i + 1;
    }
    proof {
        assert(names@.take(names@.len() as int) =~= names@);
    }
    crate::prompt::join_chars(&parts, &chars_of(sep))
}

pub fn suggest_prompt(entity_keys: &Vec<String>, relation_keys: &Vec<String>, misses: &Vec<Miss>) -> (r: Option<String>)
    ensures
        match (r, suggest_prompt_of(entity_keys@, relation_keys@, misses@)) {
            (Some(a), Some(b)) => a@ == b,
            (None, None) => true,
            _ => false,
        },
{
    if misses.len() == 0 {
        return None;
    }
    let mut lines: Vec<Vec<char>> = Vec::new();
    let mut i: usize = 0;
    proof {
        assert(misses@.take(0) =~= Seq::<Miss>::empty());
        assert(crate::prompt::vecs_view(lines@) =~= Seq::<Seq<char>>::empty());
    }
    while i < misses.len()
        invariant
            i <= misses@.len(),
            crate::prompt::vecs_view(lines@) == miss_lines(misses@.take(i as int)),
        decreases misses.len() - i,
    {
        let m = &misses[i];
        proof {
            assert(misses@.take(i + 1).drop_last() =~= misses@.take(i as int));
            assert(misses@.take(i + 1).last() == misses@[i as int]);
        }
        let ghost before = crate::prompt::vecs_view(lines@);
        let mut l = chars_of("- [");
        let mut k = chars_of(m.kind.as_str());
        l.append(&mut k);
        let mut q = chars_of("] \"");
        l.append(&mut q);
        let mut key = chars_of(m.key.as_str());
        l.append(&mut key);
        let mut seen = chars_of("\" seen ");
        l.append(&mut seen);
        let mut n = crate::lines::signed_decimal(m.count);
        l.append(&mut n);
        let mut eg = chars_of(" times, e.g. ");
        l.append(&mut eg);
        let mut ex = match &m.example {
            Some(e) => chars_of(e.as_str()),
            None => chars_of("-"),
        };
        l.append(&mut ex);
        proof {
            assert(l@ =~= miss_line(*m));
        }
        lines.push(l);
        proof {
            assert(crate::prompt::vecs_view(lines@) =~= before.push(miss_line(*m)));
        }
        i = i + 1;
    }
    proof {
        assert(misses@.take(misses@.len() as int) =~= misses@);
    }
    let mut out = chars_of("You are an ontology engineer. A knowledge graph has this ontology:\nEntity type keys: ");
    let mut et = joined(entity_keys, ", ");
    out.append(&mut et);
    let mut p1 = chars_of("\nRelation type keys: ");
    out.append(&mut p1);
    let mut rt = joined(relation_keys, ", ");
    out.append(&mut rt);
    let mut p2 = chars_of("\n\nDuring extraction, the LLM repeatedly produced types/relations OUTSIDE this ontology:\n");
    out.append(&mut p2);
    let mut ml = crate::prompt::join_chars(&lines, &chars_of("\n"));
    out.append(&mut ml);
    let mut p3 = chars_of("\n\nPropose ontology extensions that would cover these misses. Merge near-duplicates. Only propose what is clearly warranted by the misses. Output exactly one JSON object:\n{\"entity_types\":[{\"key\":\"snake_case\",\"label\":\"Display Name\",\"reason\":\"...\"}],\n\"relation_types\":[{\"key\":\"snake_case\",\"label\":\"display label\",\"temporal\":\"state|event|eternal\",\"functional\":false,\"reason\":\"...\"}]}");
    out.append(&mut p3);
    Some(string_of(&out))
}

} // verus!
