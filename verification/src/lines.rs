//! Texts the chat hands the model: the one-line renderings of a fact about an
//! entity and of a change on the record axis, a document read in full within a
//! budget of characters, and the system prompt of the answer path that runs
//! without tools. In a change line the two time axes are
//! kept apart: when a thing was recorded comes first and bare, when it held in
//! the world comes after, in brackets.
use vstd::prelude::*;
use chrono::NaiveDate;
use crate::chat::{decimal, decimal_text};
use crate::dates::{format_ymd, ymd_text};
use crate::citations::{index_of_key, keys_after, lemma_cite_pair, sources_after, ToolSink};
use crate::prompt::{join, join_chars, vecs_view};
use crate::text::{chars_of, lemma_lead, lemma_tail_ws, str_eq, string_of, trim_chars, trim_seq, truncate, truncated};

verus! {

/// The value of a change whose object is not an entity: a JSON string is shown
/// as its content, any other JSON value as its JSON text.
#[derive(Debug)]
pub enum Literal {
    Text(String),
    Json(String),
}

/// A change on the record axis, as far as its line reads it.
pub struct GraphChange {
    /// The day it was recorded.
    pub at: NaiveDate,
    pub kind: String,
    pub subject_name: String,
    pub predicate_label: Option<String>,
    pub object_name: Option<String>,
    pub object_value: Option<Literal>,
    pub valid_from: Option<NaiveDate>,
    pub valid_to: Option<NaiveDate>,
    pub filename: Option<String>,
    pub quote: Option<String>,
}

/// A fact about an entity, as far as its line reads it.
pub struct EntityFact {
    /// `out` when the entity is the subject; anything else reads as incoming.
    pub direction: String,
    pub other_name: Option<String>,
    pub predicate_label: Option<String>,
    pub valid_from: Option<NaiveDate>,
    pub valid_to: Option<NaiveDate>,
    /// The confidence as a whole percentage.
    pub confidence_pct: i32,
}

/// The text of an optional name, `?` when there is none.
pub open spec fn or_unknown(o: Option<String>) -> Seq<char> {
    match o {
        Some(s) => s@,
        None => "?"@,
    }
}

pub open spec fn object_text(c: GraphChange) -> Seq<char> {
    match (c.object_name, c.object_value) {
        (Some(n), _) => n@,
        (None, Some(Literal::Text(s))) => s@,
        (None, Some(Literal::Json(s))) => s@,
        (None, None) => "?"@,
    }
}

/// The world-axis range of a change: ` [valid from → to]`, with `now` for an
/// open end, nothing when neither end is known.
pub open spec fn valid_text(from: Option<NaiveDate>, to: Option<NaiveDate>) -> Seq<char> {
    match (from, to) {
        (Some(f), Some(t)) => " [valid "@ + ymd_text(f) + " \u{2192} "@ + ymd_text(t) + "]"@,
        (Some(f), None) => " [valid "@ + ymd_text(f) + " \u{2192} now]"@,
        (None, Some(t)) => " [valid \u{2192} "@ + ymd_text(t) + "]"@,
        (None, None) => Seq::empty(),
    }
}

/// Where a change came from: the file and, when there is one, the quote cut to
/// 160 characters; nothing at all without a file.
pub open spec fn source_text(filename: Option<String>, quote: Option<String>) -> Seq<char> {
    match (filename, quote) {
        (Some(f), Some(q)) => " \u{2014} from \""@ + f@ + "\": \""@ + truncated(q@, 160) + "\""@,
        (Some(f), None) => " \u{2014} from \""@ + f@ + "\""@,
        _ => Seq::empty(),
    }
}

/// `{recorded day} {kind}: {subject} {predicate} {object}{range}{source}`.
pub open spec fn change_line_of(c: GraphChange) -> Seq<char> {
    ymd_text(c.at) + " "@ + c.kind@ + ": "@ + c.subject_name@ + " "@ + or_unknown(c.predicate_label)
        + " "@ + object_text(c) + valid_text(c.valid_from, c.valid_to) + source_text(
        c.filename,
        c.quote,
    )
}

/// The range of a fact: ` (from → to)`, `now` for an open end.
pub open spec fn span_text(from: Option<NaiveDate>, to: Option<NaiveDate>) -> Seq<char> {
    match (from, to) {
        (Some(f), Some(t)) => " ("@ + ymd_text(f) + " \u{2192} "@ + ymd_text(t) + ")"@,
        (Some(f), None) => " ("@ + ymd_text(f) + " \u{2192} now)"@,
        (None, Some(t)) => " (\u{2192} "@ + ymd_text(t) + ")"@,
        (None, None) => Seq::empty(),
    }
}

/// A whole number in decimal, with a minus sign when negative.
pub open spec fn signed_text(n: int) -> Seq<char> {
    if n < 0 {
        "-"@ + decimal_text((-n) as nat)
    } else {
        decimal_text(n as nat)
    }
}

/// `{predicate} → {other}` (or `←` for an incoming fact), the range, and the
/// confidence: `works at → Acme (2023-08-01 → now) [90%]`.
pub open spec fn fact_line_of(f: EntityFact) -> Seq<char> {
    let arrow = if f.direction@ == "out"@ {
        " \u{2192} "@
    } else {
        " \u{2190} "@
    };
    or_unknown(f.predicate_label) + arrow + or_unknown(f.other_name) + span_text(
        f.valid_from,
        f.valid_to,
    ) + " ["@ + signed_text(f.confidence_pct as int) + "%]"@
}

/// A whole number in decimal, with a minus sign when negative.
pub fn signed_decimal(n: i64) -> (r: Vec<char>)
    ensures
        r@ == signed_text(n as int),
{
    if n < 0 {
        let mut out = chars_of("-");
        let m: u64 = if n == i64::MIN {
            0x8000_0000_0000_0000u64
        } else {
            (-n) as u64
        };
        let mut d = decimal(m);
        let ghost a = out@;
        out.append(&mut d);
        proof {
            reveal_strlit("-");
            assert(out@ =~= a + decimal_text((-n) as nat));
        }
        out
    } else {
        decimal(n as u64)
    }
}

pub(crate) fn push_str(out: &mut Vec<char>, s: &str)
    ensures
        final(out)@ == old(out)@ + s@,
{
    let mut v = chars_of(s);
    out.append(&mut v);
}

pub(crate) fn push_opt(out: &mut Vec<char>, o: &Option<String>)
    ensures
        final(out)@ == old(out)@ + or_unknown(*o),
{
    match o {
        Some(s) => push_str(out, s.as_str()),
        None => {
            push_str(out, "?");
            proof {
                reveal_strlit("?");
            }
        },
    }
}

pub(crate) fn push_day(out: &mut Vec<char>, d: NaiveDate)
    ensures
        final(out)@ == old(out)@ + ymd_text(d),
{
    let s = format_ymd(d);
    push_str(out, s.as_str());
}

pub fn change_line(c: &GraphChange) -> (r: String)
    ensures
        r@ == change_line_of(*c),
{
    let mut out: Vec<char> = Vec::new();
    push_day(&mut out, c.at);
    push_str(&mut out, " ");
    push_str(&mut out, c.kind.as_str());
    push_str(&mut out, ": ");
    push_str(&mut out, c.subject_name.as_str());
    push_str(&mut out, " ");
    push_opt(&mut out, &c.predicate_label);
    push_str(&mut out, " ");
    let ghost head = out@;
    match (&c.object_name, &c.object_value) {
        (Some(n), _) => push_str(&mut out, n.as_str()),
        (None, Some(Literal::Text(s))) => push_str(&mut out, s.as_str()),
        (None, Some(Literal::Json(s))) => push_str(&mut out, s.as_str()),
        (None, None) => {
            push_str(&mut out, "?");
            proof {
                reveal_strlit("?");
            }
        },
    }
    assert(out@ == head + object_text(*c));
    let ghost head = out@;
    match (c.valid_from, c.valid_to) {
        (Some(f), Some(t)) => {
            push_str(&mut out, " [valid ");
            push_day(&mut out, f);
            push_str(&mut out, " \u{2192} ");
            push_day(&mut out, t);
            push_str(&mut out, "]");
        },
        (Some(f), None) => {
            push_str(&mut out, " [valid ");
            push_day(&mut out, f);
            push_str(&mut out, " \u{2192} now]");
        },
        (None, Some(t)) => {
            push_str(&mut out, " [valid \u{2192} ");
            push_day(&mut out, t);
            push_str(&mut out, "]");
        },
        (None, None) => {},
    }
    assert(out@ =~= head + valid_text(c.valid_from, c.valid_to));
    let ghost head = out@;
    match (&c.filename, &c.quote) {
        (Some(f), Some(q)) => {
            push_str(&mut out, " \u{2014} from \"");
            push_str(&mut out, f.as_str());
            push_str(&mut out, "\": \"");
            let cut = truncate(q.as_str(), 160);
            push_str(&mut out, cut.as_str());
            push_str(&mut out, "\"");
        },
        (Some(f), None) => {
            push_str(&mut out, " \u{2014} from \"");
            push_str(&mut out, f.as_str());
            push_str(&mut out, "\"");
        },
        _ => {},
    }
    assert(out@ =~= head + source_text(c.filename, c.quote));
    string_of(&out)
}

pub fn fact_line(f: &EntityFact) -> (r: String)
    ensures
        r@ == fact_line_of(*f),
{
    let mut out: Vec<char> = Vec::new();
    push_opt(&mut out, &f.predicate_label);
    let out_bound = str_eq(f.direction.as_str(), "out");
    if out_bound {
        push_str(&mut out, " \u{2192} ");
    } else {
        push_str(&mut out, " \u{2190} ");
    }
    push_opt(&mut out, &f.other_name);
    let ghost head = out@;
    match (f.valid_from, f.valid_to) {
        (Some(a), Some(b)) => {
            push_str(&mut out, " (");
            push_day(&mut out, a);
            push_str(&mut out, " \u{2192} ");
            push_day(&mut out, b);
            push_str(&mut out, ")");
        },
        (Some(a), None) => {
            push_str(&mut out, " (");
            push_day(&mut out, a);
            push_str(&mut out, " \u{2192} now)");
        },
        (None, Some(b)) => {
            push_str(&mut out, " (\u{2192} ");
            push_day(&mut out, b);
            push_str(&mut out, ")");
        },
        (None, None) => {},
    }
    assert(out@ =~= head + span_text(f.valid_from, f.valid_to));
    push_str(&mut out, " [");
    let mut pct = signed_decimal(f.confidence_pct as i64);
    out.append(&mut pct);
    push_str(&mut out, "%]");
    string_of(&out)
}

// ---------------------------------------------------------------------------
// The answer path without tools
// ---------------------------------------------------------------------------

/// A retrieved chunk as the tool-less prompt cites it.
pub struct PromptChunk {
    pub filename: String,
    /// The chunk's place in its document, from 0.
    pub seq: i32,
    pub text: String,
}

pub open spec fn no_sources_prompt() -> Seq<char> {
    "You are an enterprise knowledge base assistant. No relevant sources were retrieved for this question. Tell the user the knowledge base lacks material on this topic, answer cautiously from general knowledge, and clearly separate sourced statements from speculation. Always respond in the same language as the user's question."@
}

pub open spec fn sources_header() -> Seq<char> {
    "You are an enterprise knowledge base assistant. Answer strictly based on the numbered sources below. When a source supports a statement, append its citation number, e.g. [1] or [2], at the end of the sentence. If the sources are insufficient, say so explicitly \u{2014} never fabricate. Always respond in the same language as the user's question.\n\n### Sources\n"@
}

/// `[n] "file" section k:` and the text, numbered from 1 and with sections
/// counted from 1.
pub open spec fn source_block(n: nat, c: PromptChunk) -> Seq<char> {
    "\n["@ + decimal_text(n) + "] \""@ + c.filename@ + "\" section "@ + signed_text(c.seq + 1) + ":\n"@
        + c.text@ + "\n"@
}

pub open spec fn source_blocks(chunks: Seq<PromptChunk>) -> Seq<char>
    decreases chunks.len(),
{
    if chunks.len() == 0 {
        Seq::empty()
    } else {
        source_blocks(chunks.drop_last()) + source_block(chunks.len(), chunks.last())
    }
}

/// The system prompt when the model cannot call tools: the retrieved chunks as
/// numbered sources to cite, or, when nothing was retrieved, the instruction to
/// say that the knowledge base has nothing on it.
pub open spec fn legacy_prompt_of(chunks: Seq<PromptChunk>) -> Seq<char> {
    if chunks.len() == 0 {
        no_sources_prompt()
    } else {
        sources_header() + source_blocks(chunks)
    }
}

pub fn legacy_system_prompt(chunks: &Vec<PromptChunk>) -> (r: String)
    requires
        forall|i: int| 0 <= i < chunks@.len() ==> #[trigger] chunks@[i].seq < i32::MAX,
    ensures
        r@ == legacy_prompt_of(chunks@),
{
    if chunks.len() == 0 {
        let mut out: Vec<char> = Vec::new();
        push_str(
            &mut out,
            "You are an enterprise knowledge base assistant. No relevant sources were retrieved for this question. Tell the user the knowledge base lacks material on this topic, answer cautiously from general knowledge, and clearly separate sourced statements from speculation. Always respond in the same language as the user's question.",
        );
        return string_of(&out);
    }
    let mut out: Vec<char> = Vec::new();
    push_str(
        &mut out,
        "You are an enterprise knowledge base assistant. Answer strictly based on the numbered sources below. When a source supports a statement, append its citation number, e.g. [1] or [2], at the end of the sentence. If the sources are insufficient, say so explicitly \u{2014} never fabricate. Always respond in the same language as the user's question.\n\n### Sources\n",
    );
    let ghost head = out@;
    let mut i: usize = 0;
    proof {
        assert(chunks@.take(0) =~= Seq::<PromptChunk>::empty());
        assert(out@ =~= head + source_blocks(chunks@.take(0)));
    }
    while i < chunks.len()
        invariant
            i <= chunks@.len(),
            forall|k: int| 0 <= k < chunks@.len() ==> #[trigger] chunks@[k].seq < i32::MAX,
            out@ == head + source_blocks(chunks@.take(i as int)),
        decreases chunks.len() - i,
    {
        let c = &chunks[i];
        proof {
            assert(chunks@.take(i + 1).drop_last() =~= chunks@.take(i as int));
            assert(chunks@.take(i + 1).last() == chunks@[i as int]);
            assert(chunks@[i as int].seq < i32::MAX);
        }
        let ghost before = out@;
        push_str(&mut out, "\n[");
        let mut n = decimal((i + 1) as u64);
        out.append(&mut n);
        push_str(&mut out, "] \"");
        push_str(&mut out, c.filename.as_str());
        push_str(&mut out, "\" section ");
        let mut k = signed_decimal((c.seq + 1) as i64);
        out.append(&mut k);
        push_str(&mut out, ":\n");
        push_str(&mut out, c.text.as_str());
        push_str(&mut out, "\n");
        proof {
            assert(out@ =~= before + source_block((i + 1) as nat, *c));
        }
        i = i + 1;
    }
    proof {
        assert(chunks@.take(chunks@.len() as int) =~= chunks@);
    }
    string_of(&out)
}

// ---------------------------------------------------------------------------
// A document read in full
// ---------------------------------------------------------------------------

/// How many characters of a document's text one read shows.
pub const DOCUMENT_CHARS: usize = 24000;

/// A chunk of a document as a full read shows it: its citation key, the
/// document's file name, its place in the document (from 0) and its text.
pub struct DocChunk {
    pub key: String,
    pub filename: String,
    pub seq: i32,
    pub text: String,
}

/// The number a key is cited under, given the keys cited so far.
pub open spec fn cite_number(keys: Seq<Seq<char>>, key: Seq<char>) -> nat {
    match index_of_key(keys, key) {
        Some(i) => (i + 1) as nat,
        None => keys.len() + 1,
    }
}

/// The keys cited after citing `key`.
pub open spec fn cite_keys(keys: Seq<Seq<char>>, key: Seq<char>) -> Seq<Seq<char>> {
    match index_of_key(keys, key) {
        Some(_) => keys,
        None => keys.push(key),
    }
}

/// `[n] "file" section k:` and the text shown of the chunk.
pub open spec fn chunk_block(n: nat, c: DocChunk, shown: Seq<char>) -> Seq<char> {
    "["@ + decimal_text(n) + "] \""@ + c.filename@ + "\" section "@ + signed_text(c.seq + 1) + ":\n"@ + shown
}

/// Reads the chunks in order, with `used` characters of the budget spent:
/// each chunk's trimmed text is shown as far as the budget reaches and cited;
/// once the budget is spent a chunk is neither shown nor cited. Gives the
/// blocks, the characters left out, and the keys cited.
pub open spec fn read_chunks(
    cs: Seq<DocChunk>,
    used: nat,
    omitted: nat,
    blocks: Seq<Seq<char>>,
    keys: Seq<Seq<char>>,
) -> (Seq<Seq<char>>, nat, Seq<Seq<char>>)
    decreases cs.len(),
{
    if cs.len() == 0 {
        (blocks, omitted, keys)
    } else {
        let c = cs[0];
        let body = trim_seq(c.text@);
        if used >= DOCUMENT_CHARS {
            read_chunks(cs.drop_first(), used, omitted + body.len(), blocks, keys)
        } else {
            let room = (DOCUMENT_CHARS - used) as nat;
            let shown = if body.len() > room {
                body.take(room as int)
            } else {
                body
            };
            let om = if body.len() > room {
                omitted + (body.len() - room) as nat
            } else {
                omitted
            };
            read_chunks(
                cs.drop_first(),
                used + shown.len(),
                om,
                blocks.push(chunk_block(cite_number(keys, c.key@), c, shown)),
                cite_keys(keys, c.key@),
            )
        }
    }
}

/// Once the budget is spent, the chunks that are left are neither shown nor
/// cited: they only add to the count of characters left out.
pub proof fn law_spent_budget_cites_nothing(
    cs: Seq<DocChunk>,
    used: nat,
    omitted: nat,
    blocks: Seq<Seq<char>>,
    keys: Seq<Seq<char>>,
)
    requires
        used >= DOCUMENT_CHARS,
    ensures
        read_chunks(cs, used, omitted, blocks, keys).0 == blocks,
        read_chunks(cs, used, omitted, blocks, keys).2 == keys,
        read_chunks(cs, used, omitted, blocks, keys).1 >= omitted,
    decreases cs.len(),
{
    if cs.len() > 0 {
        law_spent_budget_cites_nothing(
            cs.drop_first(),
            used,
            omitted + trim_seq(cs[0].text@).len(),
            blocks,
            keys,
        );
    }
}

/// What a full read of a document says: a header with the file name, its date
/// (`no date` without one) and how many sections it has, then the blocks, and a
/// note of how many characters the budget left out; `(no text)` when nothing is
/// shown.
pub open spec fn document_text_of(
    filename: Seq<char>,
    when: Option<NaiveDate>,
    cs: Seq<DocChunk>,
    keys: Seq<Seq<char>>,
) -> (Seq<char>, Seq<Seq<char>>) {
    let (blocks, omitted, keys2) = read_chunks(cs, 0, 0, Seq::empty(), keys);
    let all = if omitted > 0 {
        blocks.push("\u{2026} truncated, "@ + decimal_text(omitted) + " chars omitted"@)
    } else {
        blocks
    };
    let header = "\""@ + filename + "\" ("@ + match when {
        Some(d) => ymd_text(d),
        None => "no date"@,
    } + ") \u{2014} "@ + decimal_text(cs.len()) + " section(s):"@;
    let text = if all.len() == 0 {
        header + "\n(no text)"@
    } else {
        header + "\n\n"@ + join(all, "\n\n"@)
    };
    (text, keys2)
}

/// Characters of all the chunks' texts.
pub open spec fn chunk_chars(cs: Seq<DocChunk>) -> nat
    decreases cs.len(),
{
    if cs.len() == 0 {
        0
    } else {
        cs[0].text@.len() + chunk_chars(cs.drop_first())
    }
}

pub open spec fn chunks_of<S>(pairs: Seq<(DocChunk, S)>) -> Seq<DocChunk> {
    pairs.map_values(|p: (DocChunk, S)| p.0)
}

proof fn lemma_trim_len(s: Seq<char>)
    ensures
        trim_seq(s).len() <= s.len(),
{
    lemma_lead(s);
    lemma_tail_ws(s);
    crate::text::lemma_trim_bounds(s);
}

/// How many chunks, from the first, are shown (and so cited) with `used`
/// characters of the budget already spent: each chunk is shown while some of
/// the budget is left.
pub open spec fn shown_count(cs: Seq<DocChunk>, used: nat) -> nat
    decreases cs.len(),
{
    if cs.len() == 0 || used >= DOCUMENT_CHARS {
        0
    } else {
        let body = trim_seq(cs[0].text@);
        let room = (DOCUMENT_CHARS - used) as nat;
        let shown = if body.len() > room {
            room
        } else {
            body.len()
        };
        1 + shown_count(cs.drop_first(), used + shown)
    }
}

/// The (key, source) pairs of the chunks, in order.
pub open spec fn doc_pairs<S>(pairs: Seq<(DocChunk, S)>) -> Seq<(Seq<char>, S)> {
    pairs.map_values(|p: (DocChunk, S)| (p.0.key@, p.1))
}

/// A document read in full for the model: the chunks are cited in order in
/// `sink` (with the source given beside each), as far as the budget shows them.
pub fn document_text<S>(
    sink: &mut ToolSink<S>,
    filename: &str,
    when: Option<NaiveDate>,
    chunks: Vec<(DocChunk, S)>,
) -> (r: String)
    requires
        old(sink).wf(),
        old(sink).source_ids@.len() + chunks@.len() < usize::MAX,
        chunk_chars(chunks_of(chunks@)) <= usize::MAX,
        forall|i: int| 0 <= i < chunks@.len() ==> #[trigger] chunks@[i].0.seq < i32::MAX,
    ensures
        final(sink).wf(),
        r@ == document_text_of(filename@, when, chunks_of(chunks@), old(sink).keys()).0,
        final(sink).keys() == document_text_of(filename@, when, chunks_of(chunks@), old(sink).keys()).1,
        final(sink).sources@ == sources_after(
            doc_pairs(chunks@).take(shown_count(chunks_of(chunks@), 0) as int),
            old(sink).keys(),
            old(sink).sources@,
        ),
{
    let ghost cs = chunks_of(chunks@);
    let ghost ps = doc_pairs(chunks@);
    let ghost orig = chunks@;
    let ghost keys0 = sink.keys();
    let ghost sources0 = sink.sources@;
    let ghost mut cited: nat = 0;
    let n_chunks = chunks.len();
    let mut blocks: Vec<Vec<char>> = Vec::new();
    let mut used: usize = 0;
    let mut omitted: usize = 0;
    let mut rest = chunks;
    let ghost mut done: nat = 0;
    proof {
        assert(cs.skip(0) =~= cs);
        assert(vecs_view(blocks@) =~= Seq::<Seq<char>>::empty());
    }
    while rest.len() > 0
        invariant
            sink.wf(),
            n_chunks == cs.len(),
            done + rest@.len() == cs.len(),
            chunks_of(rest@) == cs.skip(done as int),
            ps.len() == cs.len(),
            ps == doc_pairs(orig),
            cs == chunks_of(orig),
            rest@ == orig.skip(done as int),
            cited <= done,
            used < DOCUMENT_CHARS ==> cited == done,
            cited + shown_count(cs.skip(done as int), used as nat) == shown_count(cs, 0),
            sink.keys() == keys_after(ps.take(cited as int), keys0),
            sink.sources@ == sources_after(ps.take(cited as int), keys0, sources0),
            sink.source_ids@.len() + rest@.len() < usize::MAX,
            chunk_chars(cs) <= usize::MAX,
            omitted + chunk_chars(cs.skip(done as int)) <= chunk_chars(cs),
            used <= DOCUMENT_CHARS,
            forall|i: int| 0 <= i < rest@.len() ==> #[trigger] rest@[i].0.seq < i32::MAX,
            read_chunks(cs, 0, 0, Seq::empty(), keys0) == read_chunks(
                cs.skip(done as int),
                used as nat,
                omitted as nat,
                vecs_view(blocks@),
                sink.keys(),
            ),
        decreases rest@.len(),
    {
        let ghost before_rest = rest@;
        let (c, src) = rest.remove(0);
        proof {
            assert(before_rest =~= seq![(c, src)] + rest@);
            assert(cs.skip(done as int)[0] == c);
            assert(cs.skip(done as int).drop_first() =~= cs.skip((done + 1) as int));
            assert(chunks_of(rest@) =~= cs.skip((done + 1) as int));
            assert(chunk_chars(cs.skip(done as int)) == c.text@.len() + chunk_chars(cs.skip((done + 1) as int)));
            lemma_trim_len(c.text@);
            assert forall|i: int| 0 <= i < rest@.len() implies #[trigger] rest@[i].0.seq < i32::MAX by {
                assert(rest@[i] == before_rest[i + 1]);
            }
            assert(before_rest[0].0.seq < i32::MAX);
        }
        proof {
            assert(orig.skip(done as int)[0] == before_rest[0]);
            assert(orig[done as int] == (c, src));
            assert(ps[done as int] == (c.key@, src));
            assert(orig.skip((done + 1) as int) =~= rest@);
        }
        let body = trim_chars(&chars_of(c.text.as_str()));
        let len = body.len();
        let ghost before_blocks = vecs_view(blocks@);
        let ghost used0 = used;
        if used >= DOCUMENT_CHARS {
            omitted = omitted + len;
        } else {
            let room = DOCUMENT_CHARS - used;
            let shown = if len > room {
                omitted = omitted + (len - room);
                crate::text::slice_chars(&body, 0, room)
            } else {
                body
            };
            proof {
                if len > room {
                    assert(shown@ =~= trim_seq(c.text@).take(room as int));
                }
            }
            used = used + shown.len();
            let ghost keys_before = sink.keys();
            let ghost sink_before = *sink;
            let ghost key_g = c.key;
            let ghost src_g = src;
            let n = sink.cite(c.key.clone(), src);
            proof {
                assert(n == cite_number(keys_before, c.key@));
                assert(sink.keys() =~= cite_keys(keys_before, c.key@));
                assert(ps.take((cited + 1) as int) =~= ps.take(cited as int).push((c.key@, src_g)));
                lemma_cite_pair(sink_before, *sink, key_g, src_g, ps.take(cited as int), keys0, sources0);
                cited = cited + 1;
            }
            let mut block = chars_of("[");
            let mut num = decimal(n as u64);
            block.append(&mut num);
            let mut mid = chars_of("] \"");
            block.append(&mut mid);
            let mut f = chars_of(c.filename.as_str());
            block.append(&mut f);
            let mut sec = chars_of("\" section ");
            block.append(&mut sec);
            let mut k = signed_decimal((c.seq + 1) as i64);
            block.append(&mut k);
            let mut colon = chars_of(":\n");
            block.append(&mut colon);
            let mut sh = shown.clone();
            block.append(&mut sh);
            proof {
                assert(block@ =~= chunk_block(n as nat, c, shown@));
            }
            blocks.push(block);
            proof {
                assert(vecs_view(blocks@) =~= before_blocks.push(chunk_block(n as nat, c, shown@)));
            }
        }
        proof {
            let sk = cs.skip(done as int);
            assert(sk[0] == c);
            assert(sk.drop_first() =~= cs.skip((done + 1) as int));
            done = done + 1;
        }
    }
    proof {
        assert(cs.skip(done as int) =~= Seq::<DocChunk>::empty());
        assert(shown_count(cs.skip(done as int), used as nat) == 0);
    }
    let ghost final_blocks = vecs_view(blocks@);
    if omitted > 0 {
        let mut note = chars_of("\u{2026} truncated, ");
        let mut d = decimal(omitted as u64);
        note.append(&mut d);
        let mut tail = chars_of(" chars omitted");
        note.append(&mut tail);
        let ghost nv = note@;
        blocks.push(note);
        proof {
            assert(nv =~= "\u{2026} truncated, "@ + decimal_text(omitted as nat) + " chars omitted"@);
            assert(vecs_view(blocks@) =~= final_blocks.push(nv));
        }
    }
    let mut header = chars_of("\"");
    let mut f = chars_of(filename);
    header.append(&mut f);
    let mut open = chars_of("\" (");
    header.append(&mut open);
    let mut w = match when {
        Some(d) => chars_of(format_ymd(d).as_str()),
        None => chars_of("no date"),
    };
    header.append(&mut w);
    let mut dash = chars_of(") \u{2014} ");
    header.append(&mut dash);
    let mut cnt = decimal(n_chunks as u64);
    header.append(&mut cnt);
    let mut tail = chars_of(" section(s):");
    header.append(&mut tail);
    let ghost hv = header@;
    proof {
        assert(hv =~= "\""@ + filename@ + "\" ("@ + match when {
            Some(d) => ymd_text(d),
            None => "no date"@,
        } + ") \u{2014} "@ + decimal_text(cs.len()) + " section(s):"@);
    }
    if blocks.len() == 0 {
        let mut t = chars_of("\n(no text)");
        header.append(&mut t);
        return string_of(&header);
    }
    let sep = chars_of("\n\n");
    let body = join_chars(&blocks, &sep);
    let mut s2 = sep.clone();
    header.append(&mut s2);
    let mut b = body;
    header.append(&mut b);
    string_of(&header)
}

} // verus!
