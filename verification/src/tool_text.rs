//! What the read tools answer the model: which tool a call runs, and the text
//! each tool makes of what it found, citing what it shows.
use vstd::prelude::*;
use chrono::NaiveDate;
use crate::chat::{decimal, decimal_text};
use crate::citations::{keys_after, lemma_cite_pair, sources_after, ToolSink};
use crate::dates::ymd_text;
use crate::lines::{
    change_line, change_line_of, cite_keys, cite_number, fact_line, fact_line_of, push_day, push_str,
    signed_decimal, signed_text, EntityFact, GraphChange,
};
use crate::prompt::{join, join_chars, vecs_view};
use crate::text::{chars_of, str_eq, string_of, truncate, truncated};

verus! {

// ---------------------------------------------------------------------------
// Which tool runs
// ---------------------------------------------------------------------------

/// The tools a call can run.
#[derive(Clone, Copy, Debug, PartialEq, Eq, Structural)]
pub enum ToolKind {
    SearchChunks,
    GetDocument,
    SearchDocs,
    FindEntities,
    EntityFacts,
    Changes,
    QueryData,
    Remember,
}

/// The tool a name runs: `query_data` only with a data source mounted,
/// `remember` only for a caller who may write; any other name is no tool.
pub open spec fn tool_for(name: Seq<char>, has_sources: bool, can_write: bool) -> Option<ToolKind> {
    if name == "search_chunks"@ {
        Some(ToolKind::SearchChunks)
    } else if name == "get_document"@ {
        Some(ToolKind::GetDocument)
    } else if name == "search_docs"@ {
        Some(ToolKind::SearchDocs)
    } else if name == "find_entities"@ {
        Some(ToolKind::FindEntities)
    } else if name == "entity_facts"@ {
        Some(ToolKind::EntityFacts)
    } else if name == "changes"@ {
        Some(ToolKind::Changes)
    } else if name == "query_data"@ && has_sources {
        Some(ToolKind::QueryData)
    } else if name == "remember"@ && can_write {
        Some(ToolKind::Remember)
    } else {
        None
    }
}

/// The name each tool is called by in the tool table.
pub open spec fn kind_name(k: ToolKind) -> Seq<char> {
    match k {
        ToolKind::SearchChunks => "search_chunks"@,
        ToolKind::GetDocument => "get_document"@,
        ToolKind::SearchDocs => "search_docs"@,
        ToolKind::FindEntities => "find_entities"@,
        ToolKind::EntityFacts => "entity_facts"@,
        ToolKind::Changes => "changes"@,
        ToolKind::QueryData => "query_data"@,
        ToolKind::Remember => "remember"@,
    }
}

/// Every name of the tool table runs the tool of that name, whatever the turn
/// may do (`query_data` only with a data source mounted, `remember` only for a
/// caller who may write); and a name that runs a tool is that tool's own name,
/// so no two names run the same tool.
pub proof fn law_each_name_runs_its_own_tool(name: Seq<char>, has_sources: bool, can_write: bool)
    ensures
        tool_for("search_chunks"@, has_sources, can_write) == Some(ToolKind::SearchChunks),
        tool_for("get_document"@, has_sources, can_write) == Some(ToolKind::GetDocument),
        tool_for("search_docs"@, has_sources, can_write) == Some(ToolKind::SearchDocs),
        tool_for("find_entities"@, has_sources, can_write) == Some(ToolKind::FindEntities),
        tool_for("entity_facts"@, has_sources, can_write) == Some(ToolKind::EntityFacts),
        tool_for("changes"@, has_sources, can_write) == Some(ToolKind::Changes),
        tool_for("query_data"@, has_sources, can_write) == (if has_sources {
            Some(ToolKind::QueryData)
        } else {
            None
        }),
        tool_for("remember"@, has_sources, can_write) == (if can_write {
            Some(ToolKind::Remember)
        } else {
            None
        }),
        tool_for(name, has_sources, can_write) matches Some(k) ==> name == kind_name(k),
{
    reveal_strlit("search_chunks");
    reveal_strlit("get_document");
    reveal_strlit("search_docs");
    reveal_strlit("find_entities");
    reveal_strlit("entity_facts");
    reveal_strlit("changes");
    reveal_strlit("query_data");
    reveal_strlit("remember");
    let names = seq![
        "search_chunks"@,
        "get_document"@,
        "search_docs"@,
        "find_entities"@,
        "entity_facts"@,
        "changes"@,
        "query_data"@,
        "remember"@,
    ];
    assert forall|i: int, j: int| 0 <= i < j < 8 implies names[i] != names[j] by {
        if names[i].len() == names[j].len() {
            assert(names[i][0] != names[j][0] || names[i][1] != names[j][1]);
        }
    }
}

pub fn dispatch_target(name: &str, has_sources: bool, can_write: bool) -> (r: Option<ToolKind>)
    ensures
        r == tool_for(name@, has_sources, can_write),
{
    if str_eq(name, "search_chunks") {
        Some(ToolKind::SearchChunks)
    } else if str_eq(name, "get_document") {
        Some(ToolKind::GetDocument)
    } else if str_eq(name, "search_docs") {
        Some(ToolKind::SearchDocs)
    } else if str_eq(name, "find_entities") {
        Some(ToolKind::FindEntities)
    } else if str_eq(name, "entity_facts") {
        Some(ToolKind::EntityFacts)
    } else if str_eq(name, "changes") {
        Some(ToolKind::Changes)
    } else if str_eq(name, "query_data") && has_sources {
        Some(ToolKind::QueryData)
    } else if str_eq(name, "remember") && can_write {
        Some(ToolKind::Remember)
    } else {
        None
    }
}

/// What a call to no tool is answered: the model picks another tool next
/// round rather than the conversation stopping.
pub fn unknown_tool_text(name: &str) -> (r: String)
    ensures
        r@ == "Unknown tool: "@ + name@,
{
    let mut out: Vec<char> = Vec::new();
    push_str(&mut out, "Unknown tool: ");
    push_str(&mut out, name);
    string_of(&out)
}

// ---------------------------------------------------------------------------
// Search hits
// ---------------------------------------------------------------------------

/// Characters of a chunk a search shows.
pub const TOOL_CHUNK_CHARS: usize = 800;

/// Characters of a manual section a search shows.
pub const MANUAL_SECTION_CHARS: usize = 1600;

/// A chunk a search found.
pub struct ChunkHit {
    /// The chunk's id, its citation key.
    pub key: String,
    pub filename: String,
    /// Its place in the document, from 0.
    pub seq: i32,
    pub document_id: String,
    pub text: String,
}

/// `[n] "file" section k (document_id: d):` and the text cut to 800
/// characters; the document id lets the model read the whole document.
pub open spec fn hit_block(n: nat, h: ChunkHit) -> Seq<char> {
    "["@ + decimal_text(n) + "] \""@ + h.filename@ + "\" section "@ + signed_text(h.seq + 1)
        + " (document_id: "@ + h.document_id@ + "):\n"@ + truncated(h.text@, 800)
}

/// The blocks of the hits, each cited (a chunk cited before keeps its number),
/// and the keys cited afterwards.
pub open spec fn hit_blocks(hits: Seq<ChunkHit>, keys: Seq<Seq<char>>) -> (Seq<Seq<char>>, Seq<Seq<char>>)
    decreases hits.len(),
{
    if hits.len() == 0 {
        (Seq::empty(), keys)
    } else {
        let (before, k) = hit_blocks(hits.drop_last(), keys);
        let h = hits.last();
        (before.push(hit_block(cite_number(k, h.key@), h)), cite_keys(k, h.key@))
    }
}

/// What a chunk search answers: the blocks, or `No results.`.
pub open spec fn search_text_of(hits: Seq<ChunkHit>, keys: Seq<Seq<char>>) -> (Seq<char>, Seq<Seq<char>>) {
    let (blocks, k) = hit_blocks(hits, keys);
    (
        if blocks.len() == 0 {
            "No results."@
        } else {
            join(blocks, "\n\n"@)
        },
        k,
    )
}

pub open spec fn hits_of<S>(pairs: Seq<(ChunkHit, S)>) -> Seq<ChunkHit> {
    pairs.map_values(|p: (ChunkHit, S)| p.0)
}

/// The (key, source) pairs a chunk search cites, in order.
pub open spec fn hit_pairs<S>(pairs: Seq<(ChunkHit, S)>) -> Seq<(Seq<char>, S)> {
    pairs.map_values(|p: (ChunkHit, S)| (p.0.key@, p.1))
}

/// The text a chunk search answers, citing each hit in `sink` with the source
/// given beside it.
pub fn search_text<S>(sink: &mut ToolSink<S>, hits: Vec<(ChunkHit, S)>) -> (r: String)
    requires
        old(sink).wf(),
        old(sink).source_ids@.len() + hits@.len() < usize::MAX,
        forall|i: int| 0 <= i < hits@.len() ==> #[trigger] hits@[i].0.seq < i32::MAX,
    ensures
        final(sink).wf(),
        r@ == search_text_of(hits_of(hits@), old(sink).keys()).0,
        final(sink).keys() == search_text_of(hits_of(hits@), old(sink).keys()).1,
        final(sink).sources@ == sources_after(hit_pairs(hits@), old(sink).keys(), old(sink).sources@),
{
    let ghost hs = hits_of(hits@);
    let ghost ps = hit_pairs(hits@);
    let ghost keys0 = sink.keys();
    let ghost sources0 = sink.sources@;
    let mut blocks: Vec<Vec<char>> = Vec::new();
    let mut rest = hits;
    let ghost mut done: int = 0;
    proof {
        assert(hs.take(0) =~= Seq::<ChunkHit>::empty());
        assert(vecs_view(blocks@) =~= Seq::<Seq<char>>::empty());
    }
    while rest.len() > 0
        invariant
            sink.wf(),
            0 <= done <= hs.len(),
            done + rest@.len() == hs.len(),
            hits_of(rest@) == hs.skip(done),
            hit_pairs(rest@) == ps.skip(done),
            ps.len() == hs.len(),
            sink.keys() == keys_after(ps.take(done), keys0),
            sink.sources@ == sources_after(ps.take(done), keys0, sources0),
            sink.source_ids@.len() + rest@.len() < usize::MAX,
            forall|i: int| 0 <= i < rest@.len() ==> #[trigger] rest@[i].0.seq < i32::MAX,
            (vecs_view(blocks@), sink.keys()) == hit_blocks(hs.take(done), keys0),
        decreases rest@.len(),
    {
        let ghost before_rest = rest@;
        let (h, src) = rest.remove(0);
        proof {
            assert(before_rest =~= seq![(h, src)] + rest@);
            assert(hs.skip(done)[0] == h);
            assert(hs[done] == h);
            assert(hs.skip(done).drop_first() =~= hs.skip(done + 1));
            assert(hits_of(rest@) =~= hits_of(before_rest).drop_first());
            assert(hits_of(rest@) =~= hs.skip(done + 1));
            assert(hs.take(done + 1).drop_last() =~= hs.take(done));
            assert(hs.take(done + 1).last() == h);
            assert(ps.skip(done)[0] == (h.key@, src));
            assert(hit_pairs(rest@) =~= hit_pairs(before_rest).drop_first());
            assert(hit_pairs(rest@) =~= ps.skip(done + 1));
            assert(ps.take(done + 1) =~= ps.take(done).push((h.key@, src)));
            assert forall|i: int| 0 <= i < rest@.len() implies #[trigger] rest@[i].0.seq < i32::MAX by {
                assert(rest@[i] == before_rest[i + 1]);
            }
            assert(before_rest[0].0.seq < i32::MAX);
        }
        let ghost before_blocks = vecs_view(blocks@);
        let ghost keys_before = sink.keys();
        let ghost sink_before = *sink;
        let ghost key_g = h.key;
        let ghost src_g = src;
        let n = sink.cite(h.key.clone(), src);
        proof {
            lemma_cite_pair(sink_before, *sink, key_g, src_g, ps.take(done), keys0, sources0);
        }
        let mut b: Vec<char> = Vec::new();
        push_str(&mut b, "[");
        let mut num = decimal(n as u64);
        b.append(&mut num);
        push_str(&mut b, "] \"");
        push_str(&mut b, h.filename.as_str());
        push_str(&mut b, "\" section ");
        let mut k = signed_decimal((h.seq + 1) as i64);
        b.append(&mut k);
        push_str(&mut b, " (document_id: ");
        push_str(&mut b, h.document_id.as_str());
        push_str(&mut b, "):\n");
        let cut = truncate(h.text.as_str(), TOOL_CHUNK_CHARS);
        push_str(&mut b, cut.as_str());
        proof {
            assert(b@ =~= hit_block(n as nat, h));
        }
        blocks.push(b);
        proof {
            assert(vecs_view(blocks@) =~= before_blocks.push(hit_block(cite_number(keys_before, h.key@), h)));
            done = done + 1;
        }
    }
    proof {
        assert(hs.take(done) =~= hs);
        assert(ps.take(done) =~= ps);
    }
    if blocks.len() == 0 {
        let mut out: Vec<char> = Vec::new();
        push_str(&mut out, "No results.");
        return string_of(&out);
    }
    let sep = chars_of("\n\n");
    string_of(&join_chars(&blocks, &sep))
}

/// A section of the manual a search found.
pub struct ManualHit {
    pub slug: String,
    pub anchor: String,
    pub title: String,
    pub heading: String,
    pub body: String,
}

/// The citation key of a manual section: `charter:{slug}#{anchor}`.
pub open spec fn manual_key(h: ManualHit) -> Seq<char> {
    "charter:"@ + h.slug@ + "#"@ + h.anchor@
}

/// `[n] Utopia Charter — title › heading:` and the body cut to 1600 characters.
pub open spec fn manual_block(n: nat, h: ManualHit) -> Seq<char> {
    "["@ + decimal_text(n) + "] Utopia Charter \u{2014} "@ + h.title@ + " \u{203a} "@ + h.heading@ + ":\n"@
        + truncated(h.body@, 1600)
}

pub open spec fn manual_blocks(hits: Seq<ManualHit>, keys: Seq<Seq<char>>) -> (Seq<Seq<char>>, Seq<Seq<char>>)
    decreases hits.len(),
{
    if hits.len() == 0 {
        (Seq::empty(), keys)
    } else {
        let (before, k) = manual_blocks(hits.drop_last(), keys);
        let h = hits.last();
        (before.push(manual_block(cite_number(k, manual_key(h)), h)), cite_keys(k, manual_key(h)))
    }
}

/// What a manual search answers: the blocks, or `No matching manual
/// sections.`.
pub open spec fn manual_text_of(hits: Seq<ManualHit>, keys: Seq<Seq<char>>) -> (Seq<char>, Seq<Seq<char>>) {
    let (blocks, k) = manual_blocks(hits, keys);
    (
        if blocks.len() == 0 {
            "No matching manual sections."@
        } else {
            join(blocks, "\n\n"@)
        },
        k,
    )
}

pub open spec fn manual_hits_of<S>(pairs: Seq<(ManualHit, S)>) -> Seq<ManualHit> {
    pairs.map_values(|p: (ManualHit, S)| p.0)
}

/// The (key, source) pairs a manual search cites, in order.
pub open spec fn manual_pairs<S>(pairs: Seq<(ManualHit, S)>) -> Seq<(Seq<char>, S)> {
    pairs.map_values(|p: (ManualHit, S)| (manual_key(p.0), p.1))
}

/// The text a manual search answers, citing each section in `sink` with the
/// source given beside it.
pub fn manual_text<S>(sink: &mut ToolSink<S>, hits: Vec<(ManualHit, S)>) -> (r: String)
    requires
        old(sink).wf(),
        old(sink).source_ids@.len() + hits@.len() < usize::MAX,
    ensures
        final(sink).wf(),
        r@ == manual_text_of(manual_hits_of(hits@), old(sink).keys()).0,
        final(sink).keys() == manual_text_of(manual_hits_of(hits@), old(sink).keys()).1,
        final(sink).sources@ == sources_after(manual_pairs(hits@), old(sink).keys(), old(sink).sources@),
{
    let ghost hs = manual_hits_of(hits@);
    let ghost ps = manual_pairs(hits@);
    let ghost keys0 = sink.keys();
    let ghost sources0 = sink.sources@;
    let mut blocks: Vec<Vec<char>> = Vec::new();
    let mut rest = hits;
    let ghost mut done: int = 0;
    proof {
        assert(hs.take(0) =~= Seq::<ManualHit>::empty());
        assert(vecs_view(blocks@) =~= Seq::<Seq<char>>::empty());
    }
    while rest.len() > 0
        invariant
            sink.wf(),
            0 <= done <= hs.len(),
            done + rest@.len() == hs.len(),
            manual_hits_of(rest@) == hs.skip(done),
            manual_pairs(rest@) == ps.skip(done),
            ps.len() == hs.len(),
            sink.keys() == keys_after(ps.take(done), keys0),
            sink.sources@ == sources_after(ps.take(done), keys0, sources0),
            sink.source_ids@.len() + rest@.len() < usize::MAX,
            (vecs_view(blocks@), sink.keys()) == manual_blocks(hs.take(done), keys0),
        decreases rest@.len(),
    {
        let ghost before_rest = rest@;
        let (h, src) = rest.remove(0);
        proof {
            assert(before_rest =~= seq![(h, src)] + rest@);
            assert(hs.skip(done)[0] == h);
            assert(hs.skip(done).drop_first() =~= hs.skip(done + 1));
            assert(manual_hits_of(rest@) =~= manual_hits_of(before_rest).drop_first());
            assert(manual_hits_of(rest@) =~= hs.skip(done + 1));
            assert(hs.take(done + 1).drop_last() =~= hs.take(done));
            assert(hs.take(done + 1).last() == h);
            assert(ps.skip(done)[0] == (manual_key(h), src));
            assert(manual_pairs(rest@) =~= manual_pairs(before_rest).drop_first());
            assert(manual_pairs(rest@) =~= ps.skip(done + 1));
            assert(ps.take(done + 1) =~= ps.take(done).push((manual_key(h), src)));
        }
        let ghost before_blocks = vecs_view(blocks@);
        let ghost keys_before = sink.keys();
        let mut key: Vec<char> = Vec::new();
        push_str(&mut key, "charter:");
        push_str(&mut key, h.slug.as_str());
        push_str(&mut key, "#");
        push_str(&mut key, h.anchor.as_str());
        let key_s = string_of(&key);
        proof {
            assert(key_s@ =~= manual_key(h));
        }
        let ghost sink_before = *sink;
        let ghost key_g = key_s;
        let ghost src_g = src;
        let n = sink.cite(key_s, src);
        proof {
            lemma_cite_pair(sink_before, *sink, key_g, src_g, ps.take(done), keys0, sources0);
        }
        let mut b: Vec<char> = Vec::new();
        push_str(&mut b, "[");
        let mut num = decimal(n as u64);
        b.append(&mut num);
        push_str(&mut b, "] Utopia Charter \u{2014} ");
        push_str(&mut b, h.title.as_str());
        push_str(&mut b, " \u{203a} ");
        push_str(&mut b, h.heading.as_str());
        push_str(&mut b, ":\n");
        let cut = truncate(h.body.as_str(), MANUAL_SECTION_CHARS);
        push_str(&mut b, cut.as_str());
        proof {
            assert(b@ =~= manual_block(n as nat, h));
        }
        blocks.push(b);
        proof {
            assert(vecs_view(blocks@) =~= before_blocks.push(
                manual_block(cite_number(keys_before, manual_key(h)), h),
            ));
            done = done + 1;
        }
    }
    proof {
        assert(hs.take(done) =~= hs);
        assert(ps.take(done) =~= ps);
    }
    if blocks.len() == 0 {
        let mut out: Vec<char> = Vec::new();
        push_str(&mut out, "No matching manual sections.");
        return string_of(&out);
    }
    let sep = chars_of("\n\n");
    string_of(&join_chars(&blocks, &sep))
}

// ---------------------------------------------------------------------------
// Entities, facts and changes
// ---------------------------------------------------------------------------

/// An entity a name search found.
pub struct EntityHit {
    pub id: String,
    pub name: String,
    /// What tells it apart from namesakes.
    pub disambiguator: Option<String>,
    pub type_label: Option<String>,
    /// How many facts it takes part in.
    pub degree: i64,
}

/// `id | name (disambiguator) | type | n facts`; an entity with no type reads
/// `untyped`.
pub open spec fn entity_row(h: EntityHit) -> Seq<char> {
    h.id@ + " | "@ + h.name@ + match h.disambiguator {
        Some(d) => " ("@ + d@ + ")"@,
        None => Seq::empty(),
    } + " | "@ + match h.type_label {
        Some(t) => t@,
        None => "untyped"@,
    } + " | "@ + signed_text(h.degree as int) + " facts"@
}

pub open spec fn entity_rows(hits: Seq<EntityHit>) -> Seq<Seq<char>>
    decreases hits.len(),
{
    if hits.len() == 0 {
        Seq::empty()
    } else {
        entity_rows(hits.drop_last()).push(entity_row(hits.last()))
    }
}

/// What a name search answers: a row per entity, or `No matching entities.`.
pub open spec fn entities_text_of(hits: Seq<EntityHit>) -> Seq<char> {
    if hits.len() == 0 {
        "No matching entities."@
    } else {
        join(entity_rows(hits), "\n"@)
    }
}

pub fn entities_text(hits: &Vec<EntityHit>) -> (r: String)
    ensures
        r@ == entities_text_of(hits@),
{
    if hits.len() == 0 {
        let mut out: Vec<char> = Vec::new();
        push_str(&mut out, "No matching entities.");
        return string_of(&out);
    }
    let mut rows: Vec<Vec<char>> = Vec::new();
    let mut i: usize = 0;
    proof {
        assert(hits@.take(0) =~= Seq::<EntityHit>::empty());
        assert(vecs_view(rows@) =~= Seq::<Seq<char>>::empty());
    }
    while i < hits.len()
        invariant
            i <= hits@.len(),
            vecs_view(rows@) == entity_rows(hits@.take(i as int)),
        decreases hits.len() - i,
    {
        let h = &hits[i];
        proof {
            assert(hits@.take(i + 1).drop_last() =~= hits@.take(i as int));
            assert(hits@.take(i + 1).last() == hits@[i as int]);
        }
        let ghost before = vecs_view(rows@);
        let mut b: Vec<char> = Vec::new();
        push_str(&mut b, h.id.as_str());
        push_str(&mut b, " | ");
        push_str(&mut b, h.name.as_str());
        let ghost p1 = b@;
        match &h.disambiguator {
            Some(d) => {
                push_str(&mut b, " (");
                push_str(&mut b, d.as_str());
                push_str(&mut b, ")");
            },
            None => {},
        }
        push_str(&mut b, " | ");
        match &h.type_label {
            Some(t) => push_str(&mut b, t.as_str()),
            None => push_str(&mut b, "untyped"),
        }
        push_str(&mut b, " | ");
        let mut dg = signed_decimal(h.degree);
        b.append(&mut dg);
        push_str(&mut b, " facts");
        proof {
            assert(b@ =~= entity_row(*h));
        }
        rows.push(b);
        proof {
            assert(vecs_view(rows@) =~= before.push(entity_row(*h)));
        }
        i = i + 1;
    }
    proof {
        assert(hits@.take(hits@.len() as int) =~= hits@);
    }
    let nl = chars_of("\n");
    string_of(&join_chars(&rows, &nl))
}

pub open spec fn fact_rows(facts: Seq<EntityFact>) -> Seq<Seq<char>>
    decreases facts.len(),
{
    if facts.len() == 0 {
        Seq::empty()
    } else {
        fact_rows(facts.drop_last()).push(fact_line_of(facts.last()))
    }
}

/// What `entity_facts` answers for an entity named `name`, its facts already
/// limited to those valid at `at` when a day is given: a line per fact, or a
/// sentence saying there is none (as of that day).
pub open spec fn facts_text_of(name: Seq<char>, at: Option<NaiveDate>, facts: Seq<EntityFact>) -> Seq<char> {
    if facts.len() == 0 {
        match at {
            Some(d) => name + ": no facts valid as of "@ + ymd_text(d) + "."@,
            None => name + ": no recorded facts."@,
        }
    } else {
        join(fact_rows(facts), "\n"@)
    }
}

/// The step's detail: `n facts`, `as of` the day when one is given.
pub open spec fn facts_detail_of(at: Option<NaiveDate>, n: nat) -> Seq<char> {
    match at {
        Some(d) => decimal_text(n) + " facts as of "@ + ymd_text(d),
        None => decimal_text(n) + " facts"@,
    }
}

pub fn facts_text(name: &str, at: Option<NaiveDate>, facts: &Vec<EntityFact>) -> (r: (String, String))
    ensures
        r.0@ == facts_text_of(name@, at, facts@),
        r.1@ == facts_detail_of(at, facts@.len()),
{
    let mut detail = decimal(facts.len() as u64);
    match at {
        Some(d) => {
            push_str(&mut detail, " facts as of ");
            push_day(&mut detail, d);
        },
        None => push_str(&mut detail, " facts"),
    }
    let detail = string_of(&detail);
    if facts.len() == 0 {
        let mut out: Vec<char> = Vec::new();
        push_str(&mut out, name);
        match at {
            Some(d) => {
                push_str(&mut out, ": no facts valid as of ");
                push_day(&mut out, d);
                push_str(&mut out, ".");
            },
            None => push_str(&mut out, ": no recorded facts."),
        }
        return (string_of(&out), detail);
    }
    let mut rows: Vec<Vec<char>> = Vec::new();
    let mut i: usize = 0;
    proof {
        assert(facts@.take(0) =~= Seq::<EntityFact>::empty());
        assert(vecs_view(rows@) =~= Seq::<Seq<char>>::empty());
    }
    while i < facts.len()
        invariant
            i <= facts@.len(),
            vecs_view(rows@) == fact_rows(facts@.take(i as int)),
        decreases facts.len() - i,
    {
        proof {
            assert(facts@.take(i + 1).drop_last() =~= facts@.take(i as int));
            assert(facts@.take(i + 1).last() == facts@[i as int]);
        }
        let ghost before = vecs_view(rows@);
        let line = fact_line(&facts[i]);
        rows.push(chars_of(line.as_str()));
        proof {
            assert(vecs_view(rows@) =~= before.push(fact_line_of(facts@[i as int])));
        }
        i = i + 1;
    }
    proof {
        assert(facts@.take(facts@.len() as int) =~= facts@);
    }
    let nl = chars_of("\n");
    (string_of(&join_chars(&rows, &nl)), detail)
}

pub open spec fn change_rows(rows: Seq<GraphChange>) -> Seq<Seq<char>>
    decreases rows.len(),
{
    if rows.len() == 0 {
        Seq::empty()
    } else {
        change_rows(rows.drop_last()).push(change_line_of(rows.last()))
    }
}

/// What `changes` answers for a window labelled `window`: a line per change, or
/// that nothing was recorded in it.
pub open spec fn changes_text_of(window: Seq<char>, rows: Seq<GraphChange>) -> Seq<char> {
    if rows.len() == 0 {
        "No recorded changes in "@ + window + "."@
    } else {
        join(change_rows(rows), "\n"@)
    }
}

pub fn changes_text(window: &str, rows: &Vec<GraphChange>) -> (r: String)
    ensures
        r@ == changes_text_of(window@, rows@),
{
    if rows.len() == 0 {
        let mut out: Vec<char> = Vec::new();
        push_str(&mut out, "No recorded changes in ");
        push_str(&mut out, window);
        push_str(&mut out, ".");
        return string_of(&out);
    }
    let mut lines: Vec<Vec<char>> = Vec::new();
    let mut i: usize = 0;
    proof {
        assert(rows@.take(0) =~= Seq::<GraphChange>::empty());
        assert(vecs_view(lines@) =~= Seq::<Seq<char>>::empty());
    }
    while i < rows.len()
        invariant
            i <= rows@.len(),
            vecs_view(lines@) == change_rows(rows@.take(i as int)),
        decreases rows.len() - i,
    {
        proof {
            assert(rows@.take(i + 1).drop_last() =~= rows@.take(i as int));
            assert(rows@.take(i + 1).last() == rows@[i as int]);
        }
        let ghost before = vecs_view(lines@);
        let line = change_line(&rows[i]);
        lines.push(chars_of(line.as_str()));
        proof {
            assert(vecs_view(lines@) =~= before.push(change_line_of(rows@[i as int])));
        }
        i = i + 1;
    }
    proof {
        assert(rows@.take(rows@.len() as int) =~= rows@);
    }
    let nl = chars_of("\n");
    string_of(&join_chars(&lines, &nl))
}

// ---------------------------------------------------------------------------
// Data sources and notes
// ---------------------------------------------------------------------------

/// The mounted sources' names, joined by `, `.
pub open spec fn names_list(names: Seq<String>) -> Seq<char> {
    join(names.map_values(|n: String| n@), ", "@)
}

/// What a query against a source that is not mounted answers: the name asked
/// for, and the names that are mounted.
pub fn unknown_source_text(name: &str, mounted: &Vec<String>) -> (r: String)
    ensures
        r@ == "Unknown data source '"@ + name@ + "'. Mounted sources: "@ + names_list(mounted@),
{
    let mut parts: Vec<Vec<char>> = Vec::new();
    let mut i: usize = 0;
    while i < mounted.len()
        invariant
            i <= mounted@.len(),
            vecs_view(parts@) == mounted@.take(i as int).map_values(|n: String| n@),
        decreases mounted.len() - i,
    {
        let ghost before = vecs_view(parts@);
        parts.push(chars_of(mounted[i].as_str()));
        proof {
            assert(vecs_view(parts@) =~= before.push(mounted@[i as int]@));
            assert(mounted@.take(i + 1).map_values(|n: String| n@) =~= mounted@.take(i as int).map_values(
                |n: String| n@,
            ).push(mounted@[i as int]@));
        }
        i = i + 1;
    }
    proof {
        assert(mounted@.take(mounted@.len() as int) =~= mounted@);
    }
    let sep = chars_of(", ");
    let joined = join_chars(&parts, &sep);
    let mut out: Vec<char> = Vec::new();
    push_str(&mut out, "Unknown data source '");
    push_str(&mut out, name);
    push_str(&mut out, "'. Mounted sources: ");
    let ghost head = out@;
    let mut j = joined;
    out.append(&mut j);
    string_of(&out)
}

/// What a query answers: its rows, one per line, then how many there are and,
/// when the engine stopped at its cap, that totals need aggregating in SQL;
/// `(no rows)` when there are none.
pub open spec fn query_text_of(rows: Seq<String>, truncated_at: Option<u64>) -> Seq<char> {
    if rows.len() == 0 {
        "(no rows)"@
    } else {
        join(rows.map_values(|r: String| r@), "\n"@) + "\n("@ + decimal_text(rows.len()) + " rows"@
            + match truncated_at {
            Some(cap) => ", truncated at "@ + decimal_text(cap as nat)
                + " \u{2014} aggregate in SQL for totals"@,
            None => Seq::empty(),
        } + ")"@
    }
}

pub fn query_text(rows: &Vec<String>, truncated_at: Option<u64>) -> (r: String)
    ensures
        r@ == query_text_of(rows@, truncated_at),
{
    if rows.len() == 0 {
        let mut out: Vec<char> = Vec::new();
        push_str(&mut out, "(no rows)");
        return string_of(&out);
    }
    let mut parts: Vec<Vec<char>> = Vec::new();
    let mut i: usize = 0;
    while i < rows.len()
        invariant
            i <= rows@.len(),
            vecs_view(parts@) == rows@.take(i as int).map_values(|n: String| n@),
        decreases rows.len() - i,
    {
        let ghost before = vecs_view(parts@);
        parts.push(chars_of(rows[i].as_str()));
        proof {
            assert(vecs_view(parts@) =~= before.push(rows@[i as int]@));
            assert(rows@.take(i + 1).map_values(|n: String| n@) =~= rows@.take(i as int).map_values(
                |n: String| n@,
            ).push(rows@[i as int]@));
        }
        i = i + 1;
    }
    proof {
        assert(rows@.take(rows@.len() as int) =~= rows@);
    }
    let nl = chars_of("\n");
    let mut out = join_chars(&parts, &nl);
    push_str(&mut out, "\n(");
    let mut n = decimal(rows.len() as u64);
    out.append(&mut n);
    push_str(&mut out, " rows");
    match truncated_at {
        Some(cap) => {
            push_str(&mut out, ", truncated at ");
            let mut c = decimal(cap);
            out.append(&mut c);
            push_str(&mut out, " \u{2014} aggregate in SQL for totals");
        },
        None => {},
    }
    push_str(&mut out, ")");
    string_of(&out)
}

/// What `remember` answers for a sentence: that a blank one is refused, or that
/// it was recorded as of its day, with the instruction to tell the user that
/// the facts drawn from it still await their confirmation.
pub open spec fn remember_text_of(text: Seq<char>, effective: NaiveDate) -> Result<Seq<char>, Seq<char>> {
    let t = crate::text::trim_seq(text);
    if t.len() == 0 {
        Err("remember requires non-empty text."@)
    } else {
        Ok(
            "Recorded the sentence (effective "@ + ymd_text(effective) + "): "@ + t
                + "\nFacts extracted from it will be shown to the user for confirmation before entering the graph. Tell the user exactly that: the sentence is recorded, and the extracted facts await their confirmation. Do not claim any fact has been added to the knowledge graph."@,
        )
    }
}

pub fn remember_text(text: &str, effective: NaiveDate) -> (r: Result<String, String>)
    ensures
        match (r, remember_text_of(text@, effective)) {
            (Ok(a), Ok(b)) => a@ == b,
            (Err(a), Err(b)) => a@ == b,
            _ => false,
        },
{
    let t = crate::text::trim_str(text);
    if t.unicode_len() == 0 {
        let mut out: Vec<char> = Vec::new();
        push_str(&mut out, "remember requires non-empty text.");
        return Err(string_of(&out));
    }
    let mut out: Vec<char> = Vec::new();
    push_str(&mut out, "Recorded the sentence (effective ");
    push_day(&mut out, effective);
    push_str(&mut out, "): ");
    push_str(&mut out, t.as_str());
    push_str(
        &mut out,
        "\nFacts extracted from it will be shown to the user for confirmation before entering the graph. Tell the user exactly that: the sentence is recorded, and the extracted facts await their confirmation. Do not claim any fact has been added to the knowledge graph.",
    );
    Ok(string_of(&out))
}

} // verus!
