//! Concept mappings: how the mapping list is filtered and paged, what a
//! revision must carry, what an exploration asks the model (the mounted
//! sources' schemas within a byte limit), and which of its proposals are taken.
use vstd::prelude::*;
use crate::paging::{opt_view, page_window, search_term, term, window};
use crate::admin::{table_key, SchemaColumn};
use crate::text::{chars_of, str_eq, string_of, trim_chars, trim_seq, utf8_len};
use crate::ingest::{drop_leading, strip_leading};

verus! {

/// Mappings per page when nothing is asked for.
pub const MAPPING_PAGE: i64 = 25;

pub struct ListQuery {
    pub status: Option<String>,
    pub q: Option<String>,
    pub limit: Option<i64>,
    pub offset: Option<i64>,
}

/// The status filter: none when absent or empty; otherwise one of
/// `proposed`, `confirmed`, `rejected`, and `None` (a refusal, `bad_status`)
/// for anything else.
pub open spec fn status_filter(status: Option<Seq<char>>) -> Option<Option<Seq<char>>> {
    match status {
        None => Some(None),
        Some(s) => if s.len() == 0 {
            Some(None)
        } else if s == "proposed"@ || s == "confirmed"@ || s == "rejected"@ {
            Some(Some(s))
        } else {
            None
        },
    }
}

impl ListQuery {
    /// The status filter, the search term and the page (25 by default, within
    /// `1..=200`); `Err` when the status is not one a mapping can have.
    pub fn read(&self) -> (r: Result<(Option<String>, Option<String>, i64, i64), ()>)
        ensures
            match status_filter(opt_view(self.status)) {
                None => r is Err,
                Some(f) => r matches Ok((s, q, l, o)) && opt_view(s) == f && opt_view(q) == term(
                    opt_view(self.q),
                ) && l == window(self.limit, self.offset, MAPPING_PAGE, 1, 200).0 && o
                    == window(self.limit, self.offset, MAPPING_PAGE, 1, 200).1,
            },
    {
        let status: Option<String> = match &self.status {
            None => None,
            Some(s) => {
                if s.as_str().unicode_len() == 0 {
                    None
                } else if str_eq(s.as_str(), "proposed") || str_eq(s.as_str(), "confirmed")
                    || str_eq(s.as_str(), "rejected") {
                    Some(s.clone())
                } else {
                    return Err(());
                }
            },
        };
        let (l, o) = page_window(self.limit, self.offset, MAPPING_PAGE, 1, 200);
        Ok((status, search_term(&self.q), l, o))
    }
}

/// A revision of a mapping. Each text field counts only trimmed and not blank;
/// a revision needs at least a table, an expression or SQL.
pub struct ReviseReq {
    pub table_name: Option<String>,
    pub expr: Option<String>,
    pub sql: Option<String>,
    pub unit: Option<String>,
    pub summary: Option<String>,
    pub derived: bool,
}

/// The cleaned fields of a revision: table, expression, SQL, unit, summary.
pub struct Revision {
    pub table_name: Option<String>,
    pub expr: Option<String>,
    pub sql: Option<String>,
    pub unit: Option<String>,
    pub summary: Option<String>,
}

impl ReviseReq {
    /// The cleaned revision, or `Err` (`empty_mapping`) when it has no table,
    /// expression or SQL left.
    pub fn cleaned(&self) -> (r: Result<Revision, ()>)
        ensures
            ({
                let t = term(opt_view(self.table_name));
                let e = term(opt_view(self.expr));
                let s = term(opt_view(self.sql));
                if t is None && e is None && s is None {
                    r is Err
                } else {
                    r matches Ok(v) && opt_view(v.table_name) == t && opt_view(v.expr) == e
                        && opt_view(v.sql) == s && opt_view(v.unit) == term(opt_view(self.unit))
                        && opt_view(v.summary) == term(opt_view(self.summary))
                }
            }),
    {
        let table_name = search_term(&self.table_name);
        let expr = search_term(&self.expr);
        let sql = search_term(&self.sql);
        if table_name.is_none() && expr.is_none() && sql.is_none() {
            return Err(());
        }
        Ok(
            Revision {
                table_name,
                expr,
                sql,
                unit: search_term(&self.unit),
                summary: search_term(&self.summary),
            },
        )
    }
}


// ---------------------------------------------------------------------------
// Exploring a data source for mappings
// ---------------------------------------------------------------------------

/// How much schema text a proposal prompt carries, in bytes, before it is cut.
pub const MAX_SCHEMA_CHARS: usize = 12_000;

/// Proposals read from one exploration at most.
pub const MAX_PROPOSALS: usize = 12;

/// `s` with every trailing copy of `p` removed (`str::trim_end_matches`).
pub open spec fn strip_trailing(s: Seq<char>, p: Seq<char>) -> Seq<char>
    decreases s.len(),
{
    if p.len() > 0 && p.len() <= s.len() && s.skip(s.len() - p.len()) == p {
        strip_trailing(s.take(s.len() - p.len()), p)
    } else {
        s
    }
}

fn ends_at(s: &Vec<char>, n: usize, p: &Vec<char>) -> (r: bool)
    requires
        p@.len() <= n <= s@.len(),
    ensures
        r == (s@.take(n as int).skip(n - p@.len()) == p@),
{
    let mut k: usize = 0;
    while k < p.len()
        invariant
            p@.len() <= n <= s@.len(),
            k <= p@.len(),
            forall|m: int| 0 <= m < k ==> s@[n - p@.len() + m] == p@[m],
        decreases p.len() - k,
    {
        if s[n - p.len() + k] != p[k] {
            proof {
                assert(s@.take(n as int).skip(n - p@.len())[k as int] != p@[k as int]);
            }
            return false;
        }
        k = k + 1;
    }
    proof {
        assert(s@.take(n as int).skip(n - p@.len()) =~= p@);
    }
    true
}

fn drop_trailing(s: &Vec<char>, p: &Vec<char>) -> (r: Vec<char>)
    requires
        p@.len() > 0,
    ensures
        r@ == strip_trailing(s@, p@),
{
    let mut n = s.len();
    proof {
        assert(s@.take(n as int) =~= s@);
    }
    while n >= p.len() && ends_at(s, n, p)
        invariant
            p@.len() > 0,
            n <= s@.len(),
            strip_trailing(s@, p@) == strip_trailing(s@.take(n as int), p@),
        decreases n,
    {
        proof {
            let t = s@.take(n as int);
            assert(t.take(t.len() - p@.len()) =~= s@.take(n - p@.len()));
        }
        n = n - p.len();
    }
    crate::text::slice_chars(s, 0, n)
}

/// A model's reply with the Markdown fence around its JSON taken off.
pub open spec fn unfenced(reply: Seq<char>) -> Seq<char> {
    trim_seq(
        strip_trailing(strip_leading(strip_leading(trim_seq(reply), "```json"@), "```"@), "```"@),
    )
}

pub fn strip_fence(reply: &str) -> (r: String)
    ensures
        r@ == unfenced(reply@),
{
    let t = trim_chars(&chars_of(reply));
    let a = chars_of("```json");
    let b = chars_of("```");
    proof {
        reveal_strlit("```json");
        reveal_strlit("```");
    }
    let x = drop_leading(&t, &a);
    let y = drop_leading(&x, &b);
    let z = drop_trailing(&y, &b);
    string_of(&trim_chars(&z))
}

/// A concept a model proposes, as far as it is read.
#[derive(Debug)]
pub struct Proposal {
    pub name: Option<String>,
    pub kind: Option<String>,
    pub source: Option<String>,
    /// `None` when the definition is missing or not an object.
    pub definition: Option<Definition>,
    pub summary: Option<String>,
}

#[derive(Debug)]
pub struct Definition {
    pub table: Option<String>,
    pub expr: Option<String>,
    pub sql: Option<String>,
    pub unit: Option<String>,
    pub summary: Option<String>,
    pub derived: Option<bool>,
}

/// The proposals a JSON array holds (`None` when the text is not a JSON array),
/// each read field by field; a function of the text alone.
pub uninterp spec fn proposals_in(text: Seq<char>) -> Option<Seq<Proposal>>;

/// `serde_json::from_str::<Vec<serde_json::Value>>`, each value's fields read
/// off as text (or, for `derived`, as a boolean) where they are that. The
/// wording of a parse error is not stated.
#[verifier::external_body]
fn parse_proposals(text: &str) -> (r: Result<Vec<Proposal>, String>)
    ensures
        match r {
            Ok(v) => proposals_in(text@) == Some(v@),
            Err(_) => proposals_in(text@) is None,
        },
{
    let values: Vec<serde_json::Value> = serde_json::from_str(text).map_err(|e| e.to_string())?;
    let s = |v: &serde_json::Value, k: &str| v[k].as_str().map(String::from);
    Ok(values.iter().map(|p| {
        let d = &p["definition"];
        Proposal {
            name: s(p, "name"), kind: s(p, "kind"), source: s(p, "source"), summary: s(p, "summary"),
            definition: if d.is_object() { Some(Definition {
                table: s(d, "table"), expr: s(d, "expr"), sql: s(d, "sql"), unit: s(d, "unit"),
                summary: s(d, "summary"), derived: d["derived"].as_bool(),
            }) } else { None },
        }
    }).collect())
}

/// The proposals of a reply: the fence taken off, then parsed; the error reads
/// `Mapping proposal parse error: ...`.
pub fn read_proposals(reply: &str) -> (r: Result<Vec<Proposal>, String>)
    ensures
        match r {
            Ok(v) => proposals_in(unfenced(reply@)) == Some(v@),
            Err(_) => proposals_in(unfenced(reply@)) is None,
        },
{
    let text = strip_fence(reply);
    match parse_proposals(text.as_str()) {
        Ok(v) => Ok(v),
        Err(e) => {
            let mut m = chars_of("Mapping proposal parse error: ");
            let mut rest = chars_of(e.as_str());
            m.append(&mut rest);
            Err(string_of(&m))
        },
    }
}

/// What a concept is.
#[derive(Clone, Copy, Debug, PartialEq, Eq, Structural)]
pub enum ConceptKind {
    /// An aggregatable quantity.
    Metric,
    /// A group-by attribute.
    Dimension,
}

/// Whether a proposal is taken: a name that is not blank, a kind that is
/// `metric` or `dimension`, and a source that is one of the mounted ones
/// (ignoring ASCII case). The name and source are taken trimmed.
pub open spec fn screened(p: Proposal, sources: Seq<Seq<char>>) -> Option<(Seq<char>, ConceptKind, Seq<char>)> {
    let name = match p.name {
        Some(n) => trim_seq(n@),
        None => Seq::empty(),
    };
    let kind = match p.kind {
        Some(k) => k@,
        None => Seq::empty(),
    };
    let source = match p.source {
        Some(s) => trim_seq(s@),
        None => Seq::empty(),
    };
    if name.len() == 0 || !(kind == "metric"@ || kind == "dimension"@)
        || crate::chat::source_index(sources, source) is None {
        None
    } else {
        Some((name, if kind == "metric"@ { ConceptKind::Metric } else { ConceptKind::Dimension }, source))
    }
}

pub fn screen(p: &Proposal, sources: &Vec<String>) -> (r: Option<(String, ConceptKind, String)>)
    ensures
        match (r, screened(*p, crate::chat::string_views(sources@))) {
            (Some((n, k, s)), Some((n2, k2, s2))) => n@ == n2 && k == k2 && s@ == s2,
            (None, None) => true,
            _ => false,
        },
{
    let name = match &p.name {
        Some(n) => crate::text::trim_str(n.as_str()),
        None => string_of(&Vec::new()),
    };
    let kind: &str = match &p.kind {
        Some(k) => k.as_str(),
        None => "",
    };
    let source = match &p.source {
        Some(s) => crate::text::trim_str(s.as_str()),
        None => string_of(&Vec::new()),
    };
    proof {
        reveal_strlit("");
        reveal_strlit("metric");
        reveal_strlit("dimension");
        assert("metric"@[0] != "dimension"@[0]);
        assert(""@ =~= Seq::<char>::empty());
    }
    let is_metric = str_eq(kind, "metric");
    let is_dimension = str_eq(kind, "dimension");
    if name.unicode_len() == 0 || !(is_metric || is_dimension) {
        return None;
    }
    let found = crate::chat::find_source(sources, source.as_str());
    proof {
        let sv = match &p.source {
            Some(x) => trim_seq(x@),
            None => Seq::empty(),
        };
        assert(source@ == sv);
        assert(found is None <==> crate::chat::source_index(crate::chat::string_views(sources@), sv) is None);
    }
    if found.is_none() {
        return None;
    }
    Some((name, if is_metric { ConceptKind::Metric } else { ConceptKind::Dimension }, source))
}

/// Of the first `n` proposals, the positions of those the screen takes, in order.
pub open spec fn screened_upto(ps: Seq<Proposal>, sources: Seq<Seq<char>>, n: int) -> Seq<usize>
    decreases n,
{
    if n <= 0 {
        Seq::empty()
    } else {
        let before = screened_upto(ps, sources, n - 1);
        if screened(ps[n - 1], sources) is Some {
            before.push((n - 1) as usize)
        } else {
            before
        }
    }
}

/// The proposals an exploration goes on with: only the first `MAX_PROPOSALS`
/// are read, and of those the ones the screen takes, by position.
pub open spec fn considered_of(ps: Seq<Proposal>, sources: Seq<Seq<char>>) -> Seq<usize> {
    screened_upto(ps, sources, if ps.len() < MAX_PROPOSALS { ps.len() as int } else { MAX_PROPOSALS as int })
}

pub fn considered(ps: &Vec<Proposal>, sources: &Vec<String>) -> (r: Vec<usize>)
    ensures
        r@ == considered_of(ps@, crate::chat::string_views(sources@)),
{
    let n = if ps.len() < MAX_PROPOSALS { ps.len() } else { MAX_PROPOSALS };
    let ghost sv = crate::chat::string_views(sources@);
    let mut out: Vec<usize> = Vec::new();
    let mut i: usize = 0;
    while i < n
        invariant
            i <= n,
            n <= ps@.len(),
            n == if ps@.len() < MAX_PROPOSALS { ps@.len() as int } else { MAX_PROPOSALS as int },
            sv == crate::chat::string_views(sources@),
            out@ == screened_upto(ps@, sv, i as int),
        decreases n - i,
    {
        if screen(&ps[i], sources).is_some() {
            out.push(i);
        }
        i = i + 1;
    }
    out
}

/// An exploration that proposed nothing raises an alert: otherwise nothing on
/// the page would change and nobody would know to refresh the schema.
pub fn exploration_alerts(accepted: usize) -> (r: bool)
    ensures
        r == (accepted == 0),
{
    accepted == 0
}

/// A definition field counts when it is there and not empty (it is not trimmed).
pub fn definition_field(v: &Option<String>) -> (r: Option<String>)
    ensures
        match v {
            Some(x) => if x@.len() > 0 {
                r matches Some(y) && y@ == x@
            } else {
                r is None
            },
            None => r is None,
        },
{
    match v {
        Some(x) => if x.as_str().unicode_len() > 0 {
            Some(x.clone())
        } else {
            None
        },
        None => None,
    }
}

// ---------------------------------------------------------------------------
// What an exploration asks
// ---------------------------------------------------------------------------

/// A mounted source's schema: its name and its columns in the order the
/// source reports them.
pub struct SourceSchema {
    pub name: String,
    pub columns: Vec<SchemaColumn>,
}

/// `  column type`, with ` -- comment` when there is one.
pub open spec fn column_text(c: SchemaColumn) -> Seq<char> {
    "  "@ + c.column@ + " "@ + c.data_type@ + match c.comment {
        Some(x) => " -- "@ + x@,
        None => Seq::empty(),
    } + "\n"@
}

/// One source's columns after `text`: a `table schema.table:` line whenever the
/// table changes, a line per column; once the whole text passes the byte
/// limit, `(truncated)` ends this source's part.
pub open spec fn walk_columns(cols: Seq<SchemaColumn>, current: Seq<char>, text: Seq<char>) -> Seq<char>
    decreases cols.len(),
{
    if cols.len() == 0 {
        text
    } else {
        let c = cols[0];
        let key = table_key(c);
        let t1 = if key != current {
            text + "table "@ + key + ":\n"@
        } else {
            text
        };
        let t2 = t1 + column_text(c);
        if utf8_len(t2) > MAX_SCHEMA_CHARS {
            t2 + "(truncated)\n"@
        } else {
            walk_columns(cols.drop_first(), key, t2)
        }
    }
}

/// The schema text of all sources, each under `=== source: name ===`.
pub open spec fn walk_sources(srcs: Seq<SourceSchema>, text: Seq<char>) -> Seq<char>
    decreases srcs.len(),
{
    if srcs.len() == 0 {
        text
    } else {
        walk_sources(
            srcs.drop_first(),
            walk_columns(srcs[0].columns@, Seq::empty(), text + "\n=== source: "@ + srcs[0].name@ + " ===\n"@),
        )
    }
}

proof fn lemma_utf8_concat(a: Seq<char>, b: Seq<char>)
    ensures
        utf8_len(a + b) == utf8_len(a) + utf8_len(b),
    decreases b.len(),
{
    if b.len() > 0 {
        lemma_utf8_concat(a, b.drop_last());
        assert((a + b).drop_last() =~= a + b.drop_last());
    } else {
        assert(a + b =~= a);
    }
}

proof fn lemma_utf8_bound(s: Seq<char>)
    ensures
        utf8_len(s) <= 4 * s.len(),
    decreases s.len(),
{
    if s.len() > 0 {
        lemma_utf8_bound(s.drop_last());
    }
}

/// Appends a text and keeps count of the bytes written.
fn append_counted(out: &mut Vec<char>, n: &mut u128, s: &str)
    requires
        *old(n) == utf8_len(old(out)@),
    ensures
        final(out)@ == old(out)@ + s@,
        *final(n) == utf8_len(final(out)@),
{
    let v = chars_of(s);
    let mut i: usize = 0;
    let ghost start = out@;
    proof {
        assert(v@.take(0) =~= Seq::<char>::empty());
        assert(start + v@.take(0) =~= start);
    }
    while i < v.len()
        invariant
            v@ == s@,
            i <= v@.len(),
            out@ == start + v@.take(i as int),
            *n == utf8_len(out@),
        decreases v.len() - i,
    {
        let c = v[i];
        let w: u128 = if (c as u32) < 0x80 {
            1
        } else if (c as u32) < 0x800 {
            2
        } else if (c as u32) < 0x10000 {
            3
        } else {
            4
        };
        let len = out.len();
        proof {
            lemma_utf8_bound(out@);
            assert(out@.push(c).drop_last() =~= out@);
            assert(len == out@.len());
        }
        out.push(c);
        *n = *n + w;
        proof {
            assert(start + v@.take(i + 1) =~= (start + v@.take(i as int)).push(c));
        }
        i = i + 1;
    }
    proof {
        assert(v@.take(v@.len() as int) =~= v@);
    }
}

/// The schemas an exploration shows the model, within about 12,000 bytes.
pub fn schema_text(sources: &Vec<SourceSchema>) -> (r: String)
    ensures
        r@ == walk_sources(sources@, Seq::empty()),
{
    let mut out: Vec<char> = Vec::new();
    let mut n: u128 = 0;
    let mut si: usize = 0;
    proof {
        assert(sources@.skip(0) =~= sources@);
    }
    while si < sources.len()
        invariant
            si <= sources@.len(),
            n == utf8_len(out@),
            walk_sources(sources@, Seq::empty()) == walk_sources(sources@.skip(si as int), out@),
        decreases sources.len() - si,
    {
        let src = &sources[si];
        proof {
            assert(sources@.skip(si as int)[0] == sources@[si as int]);
            assert(sources@.skip(si as int).drop_first() =~= sources@.skip(si + 1));
        }
        let ghost before = out@;
        append_counted(&mut out, &mut n, "\n=== source: ");
        append_counted(&mut out, &mut n, src.name.as_str());
        append_counted(&mut out, &mut n, " ===\n");
        proof {
            assert(out@ =~= before + "\n=== source: "@ + src.name@ + " ===\n"@);
        }
        let ghost header_done = out@;
        let cols = &src.columns;
        let mut current: Vec<char> = Vec::new();
        let mut ci: usize = 0;
        proof {
            assert(cols@.skip(0) =~= cols@);
            assert(current@ =~= Seq::<char>::empty());
        }
        let mut stopped = false;
        while ci < cols.len()
            invariant
                ci <= cols@.len(),
                n == utf8_len(out@),
                !stopped ==> walk_columns(cols@, Seq::empty(), header_done) == walk_columns(
                    cols@.skip(ci as int),
                    current@,
                    out@,
                ),
                stopped ==> walk_columns(cols@, Seq::empty(), header_done) == out@,
                stopped ==> ci == cols@.len(),
            decreases cols.len() - ci,
        {
            let c = &cols[ci];
            proof {
                assert(cols@.skip(ci as int)[0] == cols@[ci as int]);
                assert(cols@.skip(ci as int).drop_first() =~= cols@.skip(ci + 1));
            }
            let mut key = chars_of(c.schema.as_str());
            let mut dot = chars_of(".");
            let mut tb = chars_of(c.table.as_str());
            let ghost a = key@;
            let ghost b = dot@;
            let ghost t = tb@;
            key.append(&mut dot);
            key.append(&mut tb);
            proof {
                assert(key@ =~= a + b + t);
            }
            let key_s = string_of(&key);
            let ghost at_col = out@;
            if !str_eq(key_s.as_str(), string_of(&current).as_str()) {
                append_counted(&mut out, &mut n, "table ");
                append_counted(&mut out, &mut n, key_s.as_str());
                append_counted(&mut out, &mut n, ":\n");
                proof {
                    assert(out@ =~= at_col + "table "@ + key@ + ":\n"@);
                }
            }
            let ghost t1 = out@;
            append_counted(&mut out, &mut n, "  ");
            append_counted(&mut out, &mut n, c.column.as_str());
            append_counted(&mut out, &mut n, " ");
            append_counted(&mut out, &mut n, c.data_type.as_str());
            match &c.comment {
                Some(x) => {
                    append_counted(&mut out, &mut n, " -- ");
                    append_counted(&mut out, &mut n, x.as_str());
                },
                None => {},
            }
            append_counted(&mut out, &mut n, "\n");
            proof {
                assert(out@ =~= t1 + column_text(*c));
            }
            current = key;
            if n > MAX_SCHEMA_CHARS as u128 {
                append_counted(&mut out, &mut n, "(truncated)\n");
                stopped = true;
                ci = cols.len();
            } else {
                ci = ci + 1;
            }
        }
        proof {
            if !stopped {
                assert(cols@.skip(ci as int) =~= Seq::<SchemaColumn>::empty());
            }
        }
        si = si + 1;
    }
    proof {
        assert(sources@.skip(sources@.len() as int) =~= Seq::<SourceSchema>::empty());
    }
    string_of(&out)
}

/// What an exploration asks the model: the existing concept names to reuse
/// (`(none)` when there are none), the schemas, and the shape of the reply.
pub open spec fn exploration_prompt_of(existing: Seq<String>, schemas: Seq<char>) -> Seq<char> {
    "You are building the semantic layer of a BI system. Given database schemas, propose business concepts a user would ask about, each mapped to a concrete definition.\nExisting concepts (reuse these names when the meaning matches): "@ + if existing.len() == 0 {
        "(none)"@
    } else {
        crate::tool_text::names_list(existing)
    } + "\nSchemas:\n"@ + schemas + "\nReply with ONLY a JSON array, each item:\n{\"name\": \"business concept name\", \"kind\": \"metric\"|\"dimension\", \"source\": \"data source name\", \"definition\": {\"table\": \"schema.table\", \"expr\": \"SQL expression\", \"sql\": \"full SELECT if joins are needed (optional)\", \"unit\": \"optional\"}, \"summary\": \"one line: source + expression, shown to those who confirm it\", \"rationale\": \"why this mapping, citing column comments\"}\nMetrics are aggregatable quantities (use sum/count/avg in expr); dimensions are group-by columns. Propose at most 12, only well-grounded ones."@
}

pub fn exploration_prompt(existing: &Vec<String>, schemas: &str) -> (r: String)
    ensures
        r@ == exploration_prompt_of(existing@, schemas@),
{
    let mut out = chars_of("You are building the semantic layer of a BI system. Given database schemas, propose business concepts a user would ask about, each mapped to a concrete definition.\nExisting concepts (reuse these names when the meaning matches): ");
    if existing.len() == 0 {
        let mut none = chars_of("(none)");
        out.append(&mut none);
    } else {
        let mut parts: Vec<Vec<char>> = Vec::new();
        let mut i: usize = 0;
        while i < existing.len()
            invariant
                i <= existing@.len(),
                crate::prompt::vecs_view(parts@) == existing@.take(i as int).map_values(|x: String| x@),
            decreases existing.len() - i,
        {
            let ghost before = crate::prompt::vecs_view(parts@);
            parts.push(chars_of(existing[i].as_str()));
            proof {
                assert(crate::prompt::vecs_view(parts@) =~= before.push(existing@[i as int]@));
                assert(existing@.take(i + 1).map_values(|x: String| x@) =~= existing@.take(i as int).map_values(
                    |x: String| x@,
                ).push(existing@[i as int]@));
            }
            i = i + 1;
        }
        proof {
            assert(existing@.take(existing@.len() as int) =~= existing@);
        }
        let mut listed = crate::prompt::join_chars(&parts, &chars_of(", "));
        out.append(&mut listed);
    }
    let mut p1 = chars_of("\nSchemas:\n");
    out.append(&mut p1);
    let mut sc = chars_of(schemas);
    out.append(&mut sc);
    let mut p2 = chars_of("\nReply with ONLY a JSON array, each item:\n{\"name\": \"business concept name\", \"kind\": \"metric\"|\"dimension\", \"source\": \"data source name\", \"definition\": {\"table\": \"schema.table\", \"expr\": \"SQL expression\", \"sql\": \"full SELECT if joins are needed (optional)\", \"unit\": \"optional\"}, \"summary\": \"one line: source + expression, shown to those who confirm it\", \"rationale\": \"why this mapping, citing column comments\"}\nMetrics are aggregatable quantities (use sum/count/avg in expr); dimensions are group-by columns. Propose at most 12, only well-grounded ones.");
    out.append(&mut p2);
    string_of(&out)
}

/// An exploration needs a mounted data source: with none it is refused as
/// `no_data_sources`, `No data sources mounted`.
pub fn explore_allowed(mounted: usize) -> (r: Result<(), (&'static str, &'static str)>)
    ensures
        mounted > 0 ==> r is Ok,
        mounted == 0 ==> (r matches Err((c, m)) && c@ == "no_data_sources"@ && m@ == "No data sources mounted"@),
{
    if mounted == 0 {
        Err(("no_data_sources", "No data sources mounted"))
    } else {
        Ok(())
    }
}

} // verus!
