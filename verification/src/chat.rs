//! The chat turn's rules: what a question must be, the tool table the model is
//! offered, the guard every tool call passes before it runs, the round budget,
//! and the small texts a turn shows (step details, frames). Streaming, the
//! model and the tools' own store work are the caller's.
use vstd::prelude::*;
use uuid::Uuid;
use crate::dates::Instant;
use crate::paging::{opt_view, page_window, search_term, term, window};
use crate::text::{chars_of, str_eq, string_of, trim_seq, trim_str};

verus! {

#[verifier::external_type_specification]
#[verifier::external_body]
pub struct ExJsonValue(serde_json::Value);

/// Earlier turns sent along with a question.
pub const MAX_HISTORY: usize = 20;

/// Tool rounds before the model must answer.
pub const MAX_ROUNDS: usize = 6;

/// Excerpts a search returns.
pub const SEARCH_TOP_K: usize = 6;

/// How much of an excerpt a tool result shows, in characters.
pub const TOOL_CHUNK_CHARS: usize = 800;

/// Changes a `changes` call lists at most.
pub const CHANGES_LIMIT: i64 = 40;

/// Entities found earlier that are recalled to the model at most.
pub const KNOWN_ENTITY_LIMIT: usize = 20;

// ---------------------------------------------------------------------------
// Requests
// ---------------------------------------------------------------------------

pub struct ChatReq {
    /// The conversation to continue; a new one when absent.
    pub conversation_id: Option<Uuid>,
    pub message: String,
}

impl ChatReq {
    /// The question, trimmed; `Err` (`Missing user message`) when blank.
    pub fn question(&self) -> (r: Result<String, ()>)
        ensures
            trim_seq(self.message@).len() == 0 ==> r is Err,
            trim_seq(self.message@).len() > 0 ==> (r matches Ok(q) && q@ == trim_seq(
                self.message@,
            )),
    {
        let q = trim_str(self.message.as_str());
        if q.unicode_len() == 0 {
            Err(())
        } else {
            Ok(q)
        }
    }
}

pub struct ConversationsQuery {
    pub q: Option<String>,
    pub limit: Option<i64>,
    pub offset: Option<i64>,
}

impl ConversationsQuery {
    /// The search term (titles and message text), and the page: 30 by
    /// default, within `1..=100`, offset at least 0.
    pub fn read(&self) -> (r: (Option<String>, i64, i64))
        ensures
            opt_view(r.0) == term(opt_view(self.q)),
            r.1 == window(self.limit, self.offset, 30, 1, 100).0,
            r.2 == window(self.limit, self.offset, 30, 1, 100).1,
    {
        let (l, o) = page_window(self.limit, self.offset, 30, 1, 100);
        (search_term(&self.q), l, o)
    }
}

pub struct RenameConversationReq {
    pub title: String,
}

// ---------------------------------------------------------------------------
// Frames
// ---------------------------------------------------------------------------

/// One server-sent event of a chat turn.
pub struct Frame {
    pub event: &'static str,
    pub data: String,
}

/// The frame that ends a turn well.
pub fn done_event() -> (f: Frame)
    ensures
        f.event@ == "done"@,
        f.data@ == "{}"@,
{
    Frame { event: "done", data: string_of(&chars_of("{}")) }
}

/// What `serde_json::to_string` writes for a string: the JSON string literal,
/// quotes and escapes included; a function of the text alone.
pub uninterp spec fn json_string(s: Seq<char>) -> Seq<char>;

/// `serde_json::to_string` on a string slice. Writing a string into memory
/// cannot fail, so the error arm is never taken.
#[verifier::external_body]
pub(crate) fn json_quote(s: &str) -> (r: String)
    ensures
        r@ == json_string(s@),
{
    serde_json::to_string(s).unwrap_or_default()
}

/// The data of an error frame: the envelope `{error, code}` a refused request
/// also carries, as serde_json writes an object (keys in sorted order).
pub open spec fn error_data(message: Seq<char>, code: Seq<char>) -> Seq<char> {
    "{\"code\":"@ + json_string(code) + ",\"error\":"@ + json_string(message) + "}"@
}

/// The frame that ends a turn with an error: the interface looks its wording
/// up by `code`; the English sentence stays for logs and clients that do not
/// translate.
pub fn error_event(message: &str, code: &str) -> (f: Frame)
    ensures
        f.event@ == "error"@,
        f.data@ == error_data(message@, code@),
{
    let mut d = chars_of("{\"code\":");
    let mut c = chars_of(json_quote(code).as_str());
    let mut m = chars_of(",\"error\":");
    let mut e = chars_of(json_quote(message).as_str());
    let mut z = chars_of("}");
    let ghost (d0, c0, m0, e0, z0) = (d@, c@, m@, e@, z@);
    d.append(&mut c);
    d.append(&mut m);
    d.append(&mut e);
    d.append(&mut z);
    proof {
        assert(d@ =~= d0 + c0 + m0 + e0 + z0);
    }
    Frame { event: "error", data: string_of(&d) }
}

/// The code a model endpoint's HTTP refusal is shown by: out of credit (402),
/// rate limited (429), unavailable (503), key rejected (401).
pub open spec fn model_status_code(status: u16) -> Option<Seq<char>> {
    if status == 402 {
        Some("model_out_of_credit"@)
    } else if status == 429 {
        Some("model_rate_limited"@)
    } else if status == 503 {
        Some("model_unavailable"@)
    } else if status == 401 {
        Some("model_rejected"@)
    } else {
        None
    }
}

/// The code of a failed turn: the code of an unpublishable answer where the
/// message carries one of its sentences, else the code of the model
/// endpoint's HTTP refusal, where there was one.
pub open spec fn failure_code_of(message: Seq<char>, model_status: Option<u16>) -> Option<Seq<char>> {
    match crate::answer::code_for(message) {
        Some(c) => Some(c),
        None => match model_status {
            Some(s) => model_status_code(s),
            None => None,
        },
    }
}

pub fn failure_code(message: &str, model_status: Option<u16>) -> (r: Option<&'static str>)
    ensures
        r is Some <==> failure_code_of(message@, model_status) is Some,
        r matches Some(c) ==> c@ == failure_code_of(message@, model_status)->0,
{
    if let Some(c) = crate::answer::unpublishable_code(message) {
        return Some(c);
    }
    match model_status {
        Some(s) => if s == 402 {
            Some("model_out_of_credit")
        } else if s == 429 {
            Some("model_rate_limited")
        } else if s == 503 {
            Some("model_unavailable")
        } else if s == 401 {
            Some("model_rejected")
        } else {
            None
        },
        None => None,
    }
}

/// The code of an answer the store refused to keep.
pub const ANSWER_NOT_SAVED: &'static str = "answer_not_saved";

// ---------------------------------------------------------------------------
// The tool table
// ---------------------------------------------------------------------------

/// What `search_chunks` is for.
pub const SEARCH_CHUNKS_TEXT: &'static str = "Full-text + semantic search over the knowledge base documents. Returns numbered source excerpts you can cite as [n].";

/// What `search_docs` is for.
pub const SEARCH_DOCS_TEXT: &'static str = "Search Utopia's own user manual (the Charter): how the platform itself works \u{2014} sources and ingestion, sync semantics (missing markers, tombstones, versions), the knowledge graph and review flow, roles and permissions, settings. Use ONLY for questions about using or understanding Utopia itself, or to explain platform concepts that appear in other tool results (e.g. why a document is marked missing). NEVER use it to answer questions about the content stored in the knowledge base.";

/// What `find_entities` is for.
pub const FIND_ENTITIES_TEXT: &'static str = "Look up entities in the knowledge graph by (partial) name. Returns id, name, type and a disambiguator when several entities share a name.";

/// What `entity_facts` is for.
pub const ENTITY_FACTS_TEXT: &'static str = "Facts about one entity from the bi-temporal knowledge graph: relations with validity ranges (from \u{2192} to; 'now' = still ongoing). The best tool for who/when/history questions. Use after find_entities. Pass `at` to see the world as of that date (server-side filter) \u{2014} always do this for \"who was X in <year/month>\" questions.";

/// What `changes` is for.
pub const CHANGES_TEXT: &'static str = "What the graph LEARNED or REVISED in a window of record time \u{2014} the belief axis. Answers \"what changed since X\", \"what did we get wrong\", \"what is new this quarter\", and needs no entity, so use it when the question names a period rather than a subject. Events: asserted (new claim), corrected (a claim replaced by a revised one), rejected (a claim withdrawn), merged (folded into another claim) \u{2014} each with the document it came from. NOT the same axis as entity_facts(at): that asks \"what was true on date D\"; this asks \"what did we change our mind about between D1 and D2\". A fact about 2019 can be recorded in 2026 \u{2014} this windows on when we recorded it.";

/// What `remember` is for.
pub const REMEMBER_TEXT: &'static str = "Record one memory episode into the knowledge base's temporal memory. Use ONLY when the user explicitly asks to remember/record something, or clearly states a decision or fact to keep. The episode is extracted into the knowledge graph; if it contradicts an existing single-valued fact, the old fact's validity is closed automatically (never deleted). Do not use for casual conversation.";

/// One parameter of a tool.
pub struct Param {
    pub name: &'static str,
    /// `string`, or `array` (of strings)
    pub kind: &'static str,
    pub description: &'static str,
}

impl Param {
    /// The type of an array parameter's items: its items are strings; other
    /// parameters have none.
    pub fn item_type(&self) -> (r: Option<&'static str>)
        ensures
            r is Some <==> self.kind@ == "array"@,
            r matches Some(t) ==> t@ == "string"@,
    {
        if str_eq(self.kind, "array") {
            Some("string")
        } else {
            None
        }
    }
}

/// A tool the model may call: its name, what it is for, its parameters, and
/// which of them are required. The table is the only place where required
/// parameters are written down; the call guard reads them from here.
pub struct ToolSpec {
    pub name: &'static str,
    pub description: String,
    pub params: Vec<Param>,
    pub required: Vec<&'static str>,
}

pub open spec fn names_of(tools: Seq<ToolSpec>) -> Seq<Seq<char>> {
    tools.map_values(|t: ToolSpec| t.name@)
}

pub open spec fn required_view(t: ToolSpec) -> Seq<Seq<char>> {
    t.required@.map_values(|k: &'static str| k@)
}

/// A parameter as (name, kind, description).
pub type ParamView = (Seq<char>, Seq<char>, Seq<char>);

/// A tool as (name, description, parameters, required parameters).
pub type ToolView = (Seq<char>, Seq<char>, Seq<ParamView>, Seq<Seq<char>>);

pub open spec fn param_view(p: Param) -> ParamView {
    (p.name@, p.kind@, p.description@)
}

pub open spec fn tool_view(t: ToolSpec) -> ToolView {
    (t.name@, t.description@, t.params@.map_values(|p: Param| param_view(p)), required_view(t))
}

pub open spec fn tools_view(ts: Seq<ToolSpec>) -> Seq<ToolView> {
    ts.map_values(|t: ToolSpec| tool_view(t))
}

/// The tools every turn has, as a table.
pub open spec fn base_table() -> Seq<ToolView> {
    seq![
        (
            "search_chunks"@,
            SEARCH_CHUNKS_TEXT@,
            seq![("query"@, "string"@, "Search query, phrased in the corpus language."@)],
            seq!["query"@],
        ),
        (
            "search_docs"@,
            SEARCH_DOCS_TEXT@,
            seq![("query"@, "string"@, "What to look up in the manual."@)],
            seq!["query"@],
        ),
        (
            "find_entities"@,
            FIND_ENTITIES_TEXT@,
            seq![("name"@, "string"@, "Entity name or a fragment of it."@)],
            seq!["name"@],
        ),
        (
            "entity_facts"@,
            ENTITY_FACTS_TEXT@,
            seq![
                ("entity_id"@, "string"@, "Entity id (uuid) from find_entities."@),
                (
                    "at"@,
                    "string"@,
                    "Optional as-of date (YYYY-MM-DD). Only facts valid on this date are returned. Omit for the full history."@,
                ),
            ],
            seq!["entity_id"@],
        ),
        (
            "changes"@,
            CHANGES_TEXT@,
            seq![
                ("since"@, "string"@, "Start of the window (YYYY-MM-DD), inclusive."@),
                (
                    "until"@,
                    "string"@,
                    "End of the window (YYYY-MM-DD), inclusive of that whole day. Omit for 'up to now'."@,
                ),
                (
                    "entity_id"@,
                    "string"@,
                    "Optional entity id from find_entities, to narrow the window to changes touching that one entity."@,
                ),
                (
                    "kinds"@,
                    "array"@,
                    "Optional filter. A freshly ingested corpus is nearly all 'asserted'; pass [\"corrected\", \"rejected\"] to isolate the places we actually changed our mind."@,
                ),
            ],
            seq!["since"@],
        ),
    ]
}

/// `query_data`, as a table row, for the mounted sources named.
pub open spec fn query_data_row(names: Seq<String>) -> ToolView {
    (
        "query_data"@,
        query_data_description(names),
        seq![
            ("data_source"@, "string"@, "Name of the mounted data source to query."@),
            ("sql"@, "string"@, "One SELECT/WITH statement (PostgreSQL dialect)."@),
            ("purpose"@, "string"@, "One short phrase: what this query answers (shown to the user)."@),
        ],
        seq!["data_source"@, "sql"@],
    )
}

/// `remember`, as a table row.
pub open spec fn remember_row() -> ToolView {
    (
        "remember"@,
        REMEMBER_TEXT@,
        seq![
            (
                "text"@,
                "string"@,
                "The episode to remember, one self-contained statement (who/what, with names spelled out)."@,
            ),
            (
                "occurred_at"@,
                "string"@,
                "Optional date the stated fact took effect (YYYY-MM-DD). Omit to use today."@,
            ),
        ],
        seq!["text"@],
    )
}

fn owned(s: &str) -> (r: String)
    ensures
        r@ == s@,
{
    string_of(&chars_of(s))
}

fn param(name: &'static str, kind: &'static str, description: &'static str) -> (p: Param)
    ensures
        p.name == name,
        p.kind == kind,
        p.description == description,
{
    Param { name, kind, description }
}

/// The tools every turn has: `search_chunks`, `search_docs`, `find_entities`,
/// `entity_facts` and `changes`.
pub fn base_tools() -> (r: Vec<ToolSpec>)
    ensures
        names_of(r@) == seq![
            "search_chunks"@,
            "search_docs"@,
            "find_entities"@,
            "entity_facts"@,
            "changes"@,
        ],
        required_view(r@[0]) == seq!["query"@],
        required_view(r@[1]) == seq!["query"@],
        required_view(r@[2]) == seq!["name"@],
        required_view(r@[3]) == seq!["entity_id"@],
        required_view(r@[4]) == seq!["since"@],
        tools_view(r@) == base_table(),
{
    let mut tools: Vec<ToolSpec> = Vec::new();
    tools.push(
        ToolSpec {
            name: "search_chunks",
            description: owned(SEARCH_CHUNKS_TEXT),
            params: vec![param("query", "string", "Search query, phrased in the corpus language.")],
            required: vec!["query"],
        },
    );
    tools.push(
        ToolSpec {
            name: "search_docs",
            description: owned(SEARCH_DOCS_TEXT),
            params: vec![param("query", "string", "What to look up in the manual.")],
            required: vec!["query"],
        },
    );
    tools.push(
        ToolSpec {
            name: "find_entities",
            description: owned(FIND_ENTITIES_TEXT),
            params: vec![param("name", "string", "Entity name or a fragment of it.")],
            required: vec!["name"],
        },
    );
    tools.push(
        ToolSpec {
            name: "entity_facts",
            description: owned(ENTITY_FACTS_TEXT),
            params: vec![
                param("entity_id", "string", "Entity id (uuid) from find_entities."),
                param(
                    "at",
                    "string",
                    "Optional as-of date (YYYY-MM-DD). Only facts valid on this date are returned. Omit for the full history.",
                ),
            ],
            required: vec!["entity_id"],
        },
    );
    tools.push(
        ToolSpec {
            name: "changes",
            description: owned(CHANGES_TEXT),
            params: vec![
                param("since", "string", "Start of the window (YYYY-MM-DD), inclusive."),
                param(
                    "until",
                    "string",
                    "End of the window (YYYY-MM-DD), inclusive of that whole day. Omit for 'up to now'.",
                ),
                param(
                    "entity_id",
                    "string",
                    "Optional entity id from find_entities, to narrow the window to changes touching that one entity.",
                ),
                param(
                    "kinds",
                    "array",
                    "Optional filter. A freshly ingested corpus is nearly all 'asserted'; pass [\"corrected\", \"rejected\"] to isolate the places we actually changed our mind.",
                ),
            ],
            required: vec!["since"],
        },
    );
    proof {
        assert(names_of(tools@) =~= seq![
            "search_chunks"@,
            "search_docs"@,
            "find_entities"@,
            "entity_facts"@,
            "changes"@,
        ]);
        assert(required_view(tools@[0]) =~= seq!["query"@]);
        assert(required_view(tools@[1]) =~= seq!["query"@]);
        assert(required_view(tools@[2]) =~= seq!["name"@]);
        assert(required_view(tools@[3]) =~= seq!["entity_id"@]);
        assert(required_view(tools@[4]) =~= seq!["since"@]);
        assert(tools@[0].params@.map_values(|p: Param| param_view(p)) =~= base_table()[0].2);
        assert(tools@[1].params@.map_values(|p: Param| param_view(p)) =~= base_table()[1].2);
        assert(tools@[2].params@.map_values(|p: Param| param_view(p)) =~= base_table()[2].2);
        assert(tools@[3].params@.map_values(|p: Param| param_view(p)) =~= base_table()[3].2);
        assert(tools@[4].params@.map_values(|p: Param| param_view(p)) =~= base_table()[4].2);
        assert(tools_view(tools@) =~= base_table());
    }
    tools
}

/// What `query_data` tells the model, with the mounted sources' names.
pub open spec fn query_data_description(names: Seq<String>) -> Seq<char> {
    "Run a read-only SQL query against a mounted database. Available sources: "@ + crate::tool_text::names_list(
        names,
    )
        + ". Search the source's schema document first (search_chunks) if unsure of tables/columns. Only a single SELECT/WITH statement is allowed; a LIMIT is enforced server-side; results come back as JSON lines. If the query errors, fix the SQL and retry once."@
}

/// The tool that runs read-only SQL against the mounted data sources.
fn query_data_tool(names: &Vec<String>) -> (t: ToolSpec)
    ensures
        t.name@ == "query_data"@,
        t.description@ == query_data_description(names@),
        required_view(t) == seq!["data_source"@, "sql"@],
        tool_view(t) == query_data_row(names@),
{
    let mut parts: Vec<Vec<char>> = Vec::new();
    let mut i: usize = 0;
    while i < names.len()
        invariant
            i <= names@.len(),
            crate::prompt::vecs_view(parts@) == names@.take(i as int).map_values(|n: String| n@),
        decreases names.len() - i,
    {
        let ghost before = crate::prompt::vecs_view(parts@);
        parts.push(chars_of(names[i].as_str()));
        proof {
            assert(crate::prompt::vecs_view(parts@) =~= before.push(names@[i as int]@));
            assert(names@.take(i + 1).map_values(|n: String| n@) =~= names@.take(i as int).map_values(
                |n: String| n@,
            ).push(names@[i as int]@));
        }
        i = i + 1;
    }
    proof {
        assert(names@.take(names@.len() as int) =~= names@);
    }
    let mut d = chars_of("Run a read-only SQL query against a mounted database. Available sources: ");
    let mut listed = crate::prompt::join_chars(&parts, &chars_of(", "));
    let mut rest = chars_of(
        ". Search the source's schema document first (search_chunks) if unsure of tables/columns. Only a single SELECT/WITH statement is allowed; a LIMIT is enforced server-side; results come back as JSON lines. If the query errors, fix the SQL and retry once.",
    );
    let ghost a = d@;
    let ghost b = listed@;
    let ghost c = rest@;
    d.append(&mut listed);
    d.append(&mut rest);
    proof {
        assert(d@ =~= a + b + c);
    }
    let t = ToolSpec {
        name: "query_data",
        description: string_of(&d),
        params: vec![
            param("data_source", "string", "Name of the mounted data source to query."),
            param("sql", "string", "One SELECT/WITH statement (PostgreSQL dialect)."),
            param("purpose", "string", "One short phrase: what this query answers (shown to the user)."),
        ],
        required: vec!["data_source", "sql"],
    };
    proof {
        assert(required_view(t) =~= seq!["data_source"@, "sql"@]);
        assert(t.params@.map_values(|p: Param| param_view(p)) =~= query_data_row(names@).2);
        assert(tool_view(t) =~= query_data_row(names@));
    }
    t
}

/// The tool that records a memory episode.
fn remember_tool() -> (t: ToolSpec)
    ensures
        t.name@ == "remember"@,
        required_view(t) == seq!["text"@],
        tool_view(t) == remember_row(),
{
    let t = ToolSpec {
        name: "remember",
        description: owned(REMEMBER_TEXT),
        params: vec![
            param(
                "text",
                "string",
                "The episode to remember, one self-contained statement (who/what, with names spelled out).",
            ),
            param(
                "occurred_at",
                "string",
                "Optional date the stated fact took effect (YYYY-MM-DD). Omit to use today.",
            ),
        ],
        required: vec!["text"],
    };
    proof {
        assert(required_view(t) =~= seq!["text"@]);
        assert(t.params@.map_values(|p: Param| param_view(p)) =~= remember_row().2);
        assert(tool_view(t) =~= remember_row());
    }
    t
}

/// The tool table of a turn: the base tools, then `query_data` when some data
/// source is mounted, then `remember` when the asker may write. The names of
/// the mounted sources are listed to the model with `query_data`.
pub fn tools_schema(can_write: bool, data_source_names: &Vec<String>) -> (r: Vec<ToolSpec>)
    ensures
        names_of(r@) == seq![
            "search_chunks"@,
            "search_docs"@,
            "find_entities"@,
            "entity_facts"@,
            "changes"@,
        ] + (if data_source_names@.len() > 0 {
            seq!["query_data"@]
        } else {
            Seq::empty()
        }) + (if can_write {
            seq!["remember"@]
        } else {
            Seq::empty()
        }),
        required_view(r@[0]) == seq!["query"@],
        required_view(r@[1]) == seq!["query"@],
        required_view(r@[2]) == seq!["name"@],
        required_view(r@[3]) == seq!["entity_id"@],
        required_view(r@[4]) == seq!["since"@],
        data_source_names@.len() > 0 ==> required_view(r@[5]) == seq!["data_source"@, "sql"@],
        data_source_names@.len() > 0 ==> r@[5].description@ == query_data_description(data_source_names@),
        can_write ==> required_view(r@[r@.len() - 1]) == seq!["text"@],
        tools_view(r@) == base_table() + (if data_source_names@.len() > 0 {
            seq![query_data_row(data_source_names@)]
        } else {
            Seq::empty()
        }) + (if can_write {
            seq![remember_row()]
        } else {
            Seq::empty()
        }),
{
    let mut tools = base_tools();
    let ghost base = tools@;
    let ghost n0 = names_of(tools@);
    if data_source_names.len() > 0 {
        tools.push(query_data_tool(data_source_names));
    }
    let ghost n1 = names_of(tools@);
    if can_write {
        tools.push(remember_tool());
    }
    proof {
        assert(tools_view(tools@) =~= base_table() + (if data_source_names@.len() > 0 {
            seq![query_data_row(data_source_names@)]
        } else {
            Seq::empty()
        }) + (if can_write {
            seq![remember_row()]
        } else {
            Seq::empty()
        }));
        assert(names_of(tools@) =~= n0 + (if data_source_names@.len() > 0 {
            seq!["query_data"@]
        } else {
            Seq::empty()
        }) + (if can_write {
            seq!["remember"@]
        } else {
            Seq::empty()
        }));
    }
    tools
}

// ---------------------------------------------------------------------------
// The call guard
// ---------------------------------------------------------------------------

/// A top-level value of a tool call's arguments, as far as the guard reads it.
#[derive(Debug)]
pub enum ArgValue {
    Null,
    Text(String),
    Other,
}

/// What `serde_json::from_str::<serde_json::Value>` makes of a text: `None`
/// when the text is not JSON; a function of the text alone.
pub uninterp spec fn json_value(raw: Seq<char>) -> Option<serde_json::Value>;

/// The top-level fields of a JSON value (`Value::as_object`), each read as
/// null, text, or something else; no fields when the value is not an object.
pub uninterp spec fn object_fields(v: serde_json::Value) -> Seq<(Seq<char>, ArgValue)>;

/// The top-level fields of the JSON text a model sent as a call's arguments:
/// `None` when the text is not JSON at all; no fields when it is JSON but not an
/// object.
pub open spec fn json_fields(raw: Seq<char>) -> Option<Seq<(Seq<char>, ArgValue)>> {
    match json_value(raw) {
        None => None,
        Some(v) => Some(object_fields(v)),
    }
}

pub open spec fn fields_view(f: Seq<(String, ArgValue)>) -> Seq<(Seq<char>, ArgValue)> {
    f.map_values(|p: (String, ArgValue)| (p.0@, p.1))
}

/// `serde_json::from_str::<serde_json::Value>`.
#[verifier::external_body]
fn parse_json(raw: &str) -> (r: Option<serde_json::Value>)
    ensures
        r == json_value(raw@),
{
    serde_json::from_str(raw).ok()
}

/// `serde_json::Value::as_object`, each field's value told apart by kind (one
/// arm per kind).
#[verifier::external_body]
fn top_fields(v: &serde_json::Value) -> (r: Vec<(String, ArgValue)>)
    ensures
        fields_view(r@) == object_fields(*v),
{
    match v.as_object() {
        Some(m) => m.iter().map(|(k, x)| (k.clone(), match x {
            serde_json::Value::Null => ArgValue::Null,
            serde_json::Value::String(s) => ArgValue::Text(s.clone()),
            _ => ArgValue::Other,
        })).collect(),
        None => Vec::new(),
    }
}

fn parse_args(raw: &str) -> (r: Option<(serde_json::Value, Vec<(String, ArgValue)>)>)
    ensures
        match r {
            None => json_value(raw@) is None,
            Some((v, f)) => json_value(raw@) == Some(v) && object_fields(v) == fields_view(f@),
        },
{
    match parse_json(raw) {
        None => None,
        Some(v) => {
            let f = top_fields(&v);
            Some((v, f))
        },
    }
}

/// The value a field has, by the first field of that name.
pub open spec fn lookup(fields: Seq<(Seq<char>, ArgValue)>, key: Seq<char>) -> Option<ArgValue>
    decreases fields.len(),
{
    if fields.len() == 0 {
        None
    } else if fields[0].0 == key {
        Some(fields[0].1)
    } else {
        lookup(fields.drop_first(), key)
    }
}

/// A required argument is missing when it is absent, null, or blank text.
pub open spec fn missing(fields: Seq<(Seq<char>, ArgValue)>, key: Seq<char>) -> bool {
    match lookup(fields, key) {
        None => true,
        Some(ArgValue::Null) => true,
        Some(ArgValue::Text(s)) => trim_seq(s@).len() == 0,
        Some(ArgValue::Other) => false,
    }
}

/// The required parameters of the first tool of that name; none when no tool
/// has it.
pub open spec fn required_of(tools: Seq<ToolSpec>, name: Seq<char>) -> Seq<Seq<char>>
    decreases tools.len(),
{
    if tools.len() == 0 {
        Seq::empty()
    } else if tools[0].name@ == name {
        required_view(tools[0])
    } else {
        required_of(tools.drop_first(), name)
    }
}

/// The first required key that is missing, if any.
pub open spec fn first_missing(keys: Seq<Seq<char>>, fields: Seq<(Seq<char>, ArgValue)>) -> Option<
    Seq<char>,
>
    decreases keys.len(),
{
    if keys.len() == 0 {
        None
    } else if missing(fields, keys[0]) {
        Some(keys[0])
    } else {
        first_missing(keys.drop_first(), fields)
    }
}

/// A call the guard turned away: the sentence the model is answered with, and
/// what the turn's trace shows (a `tool` step labelled with the tool's name).
#[derive(Debug)]
pub struct ToolRefusal {
    pub message: String,
    pub label: String,
    pub detail: String,
}

pub open spec fn bad_json_message(name: Seq<char>) -> Seq<char> {
    "The arguments for "@ + name
        + " were not valid JSON, so the call was not run. They were probably cut off. Call it again with complete arguments."@
}

pub open spec fn missing_message(name: Seq<char>, key: Seq<char>) -> Seq<char> {
    name + " needs `"@ + key + "`, and it was missing or empty, so the call was not run. Call it again with `"@
        + key + "` set."@
}

/// What the guard decides for a call: `Ok` when the arguments are JSON and every
/// parameter the table marks required is there and not blank; otherwise the
/// refusal's message and detail. The guard only asks whether each required
/// argument was given, not whether it is well-formed.
pub open spec fn guard_of(tools: Seq<ToolSpec>, name: Seq<char>, raw: Seq<char>) -> Result<
    (),
    (Seq<char>, Seq<char>),
> {
    match json_fields(raw) {
        None => Err((bad_json_message(name), "bad arguments"@)),
        Some(f) => match first_missing(required_of(tools, name), f) {
            None => Ok(()),
            Some(k) => Err((missing_message(name, k), "missing "@ + k)),
        },
    }
}

fn concat(parts: &Vec<&str>) -> (r: String)
    ensures
        r@ == concat_spec(parts@.map_values(|p: &str| p@)),
{
    let mut out: Vec<char> = Vec::new();
    let mut i: usize = 0;
    while i < parts.len()
        invariant
            i <= parts@.len(),
            out@ == concat_spec(parts@.map_values(|p: &str| p@).take(i as int)),
        decreases parts.len() - i,
    {
        let mut v = chars_of(parts[i]);
        let ghost a = out@;
        let ghost b = v@;
        out.append(&mut v);
        proof {
            let all = parts@.map_values(|p: &str| p@);
            assert(all.take(i + 1).drop_last() =~= all.take(i as int));
            assert(out@ =~= a + b);
        }
        i = i + 1;
    }
    proof {
        let all = parts@.map_values(|p: &str| p@);
        assert(all.take(parts@.len() as int) =~= all);
    }
    string_of(&out)
}

pub open spec fn concat_spec(parts: Seq<Seq<char>>) -> Seq<char>
    decreases parts.len(),
{
    if parts.len() == 0 {
        Seq::empty()
    } else {
        concat_spec(parts.drop_last()) + parts.last()
    }
}

fn find_required(tools: &Vec<ToolSpec>, name: &str) -> (r: Vec<&'static str>)
    ensures
        r@.map_values(|k: &'static str| k@) == required_of(tools@, name@),
{
    let mut i: usize = 0;
    proof {
        assert(tools@.skip(0) =~= tools@);
    }
    while i < tools.len()
        invariant
            i <= tools@.len(),
            required_of(tools@, name@) == required_of(tools@.skip(i as int), name@),
        decreases tools.len() - i,
    {
        proof {
            assert(tools@.skip(i as int)[0] == tools@[i as int]);
            assert(tools@.skip(i as int).drop_first() =~= tools@.skip(i + 1));
        }
        if str_eq(tools[i].name, name) {
            let mut out: Vec<&'static str> = Vec::new();
            let mut k: usize = 0;
            let req = &tools[i].required;
            while k < req.len()
                invariant
                    k <= req@.len(),
                    out@ == req@.take(k as int),
                decreases req.len() - k,
            {
                out.push(req[k]);
                proof {
                    assert(out@ =~= req@.take(k + 1));
                }
                k = k + 1;
            }
            proof {
                assert(out@ =~= req@);
            }
            return out;
        }
        i = i + 1;
    }
    Vec::new()
}

fn lookup_field<'a>(fields: &'a Vec<(String, ArgValue)>, key: &str) -> (r: Option<&'a ArgValue>)
    ensures
        match (r, lookup(fields_view(fields@), key@)) {
            (Some(a), Some(b)) => *a == b,
            (None, None) => true,
            _ => false,
        },
{
    let ghost all = fields_view(fields@);
    let mut i: usize = 0;
    proof {
        assert(all.skip(0) =~= all);
    }
    while i < fields.len()
        invariant
            i <= fields@.len(),
            all == fields_view(fields@),
            lookup(all, key@) == lookup(all.skip(i as int), key@),
        decreases fields.len() - i,
    {
        proof {
            assert(all.skip(i as int)[0] == (fields@[i as int].0@, fields@[i as int].1));
            assert(all.skip(i as int).drop_first() =~= all.skip(i + 1));
        }
        if str_eq(fields[i].0.as_str(), key) {
            return Some(&fields[i].1);
        }
        i = i + 1;
    }
    None
}

fn is_missing(fields: &Vec<(String, ArgValue)>, key: &str) -> (r: bool)
    ensures
        r == missing(fields_view(fields@), key@),
{
    match lookup_field(fields, key) {
        None => true,
        Some(ArgValue::Null) => true,
        Some(ArgValue::Text(s)) => trim_str(s.as_str()).unicode_len() == 0,
        Some(ArgValue::Other) => false,
    }
}

/// The guard every tool call passes before it runs: the arguments must be JSON,
/// and every parameter the tool table marks required must be given and not
/// blank. A call the guard turns away is not run; the model is told why and
/// asked to call again. A call that passes is handed on with its arguments
/// as they came, optional ones included.
pub fn check_call(tools: &Vec<ToolSpec>, name: &str, raw_args: &str) -> (r: Result<
    serde_json::Value,
    ToolRefusal,
>)
    ensures
        match guard_of(tools@, name@, raw_args@) {
            Ok(()) => r is Ok,
            Err((m, d)) => r matches Err(e) && e.message@ == m && e.detail@ == d && e.label@
                == name@,
        },
        r matches Ok(v) ==> json_value(raw_args@) == Some(v),
{
    let (args, fields) = match parse_args(raw_args) {
        None => {
            let parts: Vec<&str> = vec![
                "The arguments for ",
                name,
                " were not valid JSON, so the call was not run. They were probably cut off. Call it again with complete arguments.",
            ];
            let message = concat(&parts);
            proof {
                assert(parts@.map_values(|p: &str| p@) =~= seq![
                    "The arguments for "@,
                    name@,
                    " were not valid JSON, so the call was not run. They were probably cut off. Call it again with complete arguments."@,
                ]);
                reveal_with_fuel(concat_spec, 4);
            }
            return Err(
                ToolRefusal {
                    message,
                    label: string_of(&chars_of(name)),
                    detail: string_of(&chars_of("bad arguments")),
                },
            );
        },
        Some(p) => p,
    };
    let required = find_required(tools, name);
    let ghost keys = required@.map_values(|k: &'static str| k@);
    let ghost f = fields_view(fields@);
    let mut i: usize = 0;
    proof {
        assert(keys.skip(0) =~= keys);
    }
    while i < required.len()
        invariant
            i <= required@.len(),
            keys == required@.map_values(|k: &'static str| k@),
            keys == required_of(tools@, name@),
            json_fields(raw_args@) == Some(f),
            json_value(raw_args@) == Some(args),
            f == fields_view(fields@),
            first_missing(keys, f) == first_missing(keys.skip(i as int), f),
        decreases required.len() - i,
    {
        let key = required[i];
        proof {
            assert(keys.skip(i as int)[0] == key@);
            assert(keys.skip(i as int).drop_first() =~= keys.skip(i + 1));
        }
        if is_missing(&fields, key) {
            let parts: Vec<&str> = vec![
                name,
                " needs `",
                key,
                "`, and it was missing or empty, so the call was not run. Call it again with `",
                key,
                "` set.",
            ];
            let message = concat(&parts);
            let dparts: Vec<&str> = vec!["missing ", key];
            let detail = concat(&dparts);
            proof {
                assert(parts@.map_values(|p: &str| p@) =~= seq![
                    name@,
                    " needs `"@,
                    key@,
                    "`, and it was missing or empty, so the call was not run. Call it again with `"@,
                    key@,
                    "` set."@,
                ]);
                assert(dparts@.map_values(|p: &str| p@) =~= seq!["missing "@, key@]);
                reveal_with_fuel(concat_spec, 7);
            }
            return Err(ToolRefusal { message, label: string_of(&chars_of(name)), detail });
        }
        i = i + 1;
    }
    Ok(args)
}

// ---------------------------------------------------------------------------
// Rounds
// ---------------------------------------------------------------------------

/// Whether the tool budget is spent: from round `MAX_ROUNDS` on, the model is
/// told to answer from what it has.
pub fn budget_spent(rounds: usize) -> (r: bool)
    ensures
        r == (rounds >= MAX_ROUNDS),
{
    rounds >= MAX_ROUNDS
}

/// Narration that comes with tool calls is kept apart from what came before by
/// a blank line.
pub fn needs_separator(turn_has_text: bool, answer_so_far: &str) -> (r: bool)
    ensures
        r == (turn_has_text && answer_so_far@.len() > 0),
{
    turn_has_text && answer_so_far.unicode_len() > 0
}

/// When tool calling itself fails: on the first round the turn falls back to
/// answering once from a plain search; later the failure is the turn's error.
pub fn falls_back(rounds: usize) -> (r: bool)
    ensures
        r == (rounds == 0),
{
    rounds == 0
}

/// A step of kind `search` or `docs` changes the sources, so a `sources` frame
/// follows it.
pub fn emits_sources(kind: &str) -> (r: bool)
    ensures
        r == (kind@ == "search"@ || kind@ == "docs"@),
{
    str_eq(kind, "search") || str_eq(kind, "docs")
}

/// How many UTF-16 code units a character takes.
pub open spec fn utf16_width(c: char) -> nat {
    if (c as u32) >= 0x10000 {
        2
    } else {
        1
    }
}

/// The length of a text in UTF-16 code units, which is how the page measures
/// where in the answer a step happened.
pub open spec fn utf16_len(s: Seq<char>) -> nat
    decreases s.len(),
{
    if s.len() == 0 {
        0
    } else {
        utf16_len(s.drop_last()) + utf16_width(s.last())
    }
}

proof fn lemma_utf16_bound(s: Seq<char>)
    ensures
        utf16_len(s) <= 2 * s.len(),
    decreases s.len(),
{
    if s.len() > 0 {
        lemma_utf16_bound(s.drop_last());
    }
}

/// Where in the answer a step happened: the answer's length so far in UTF-16
/// code units.
pub fn step_position(answer_so_far: &str) -> (r: u64)
    requires
        answer_so_far@.len() <= 0x1000_0000_0000,
    ensures
        r == utf16_len(answer_so_far@),
{
    let v = chars_of(answer_so_far);
    let mut n: u64 = 0;
    let mut i: usize = 0;
    while i < v.len()
        invariant
            v@ == answer_so_far@,
            v@.len() <= 0x1000_0000_0000,
            i <= v@.len(),
            n == utf16_len(v@.take(i as int)),
        decreases v.len() - i,
    {
        proof {
            assert(v@.take(i + 1).drop_last() =~= v@.take(i as int));
            lemma_utf16_bound(v@.take(i as int));
        }
        if (v[i] as u32) >= 0x10000 {
            n = n + 2;
        } else {
            n = n + 1;
        }
        i = i + 1;
    }
    proof {
        assert(v@.take(v@.len() as int) =~= v@);
    }
    n
}

// ---------------------------------------------------------------------------
// Facts as of a day
// ---------------------------------------------------------------------------

pub open spec fn before_eq(a: Instant, b: Instant) -> bool {
    a.secs < b.secs || (a.secs == b.secs && a.nanos <= b.nanos)
}

/// When a fact held: from its start (if any), up to but not including its end
/// (if any).
#[derive(Clone, Copy)]
pub struct Validity {
    pub from: Option<Instant>,
    pub to: Option<Instant>,
}

pub open spec fn valid_at(v: Validity, t: Instant) -> bool {
    (match v.from {
        Some(f) => before_eq(f, t),
        None => true,
    }) && (match v.to {
        Some(e) => !before_eq(e, t),
        None => true,
    })
}

pub fn holds_at(v: &Validity, t: Instant) -> (r: bool)
    ensures
        r == valid_at(*v, t),
{
    let starts = match v.from {
        Some(f) => f.secs < t.secs || (f.secs == t.secs && f.nanos <= t.nanos),
        None => true,
    };
    let ends_after = match v.to {
        Some(e) => !(e.secs < t.secs || (e.secs == t.secs && e.nanos <= t.nanos)),
        None => true,
    };
    starts && ends_after
}

pub open spec fn kept_at<T>(facts: Seq<(Validity, T)>, t: Instant) -> Seq<(Validity, T)>
    decreases facts.len(),
{
    if facts.len() == 0 {
        Seq::empty()
    } else {
        let rest = kept_at(facts.drop_last(), t);
        if valid_at(facts.last().0, t) {
            rest.push(facts.last())
        } else {
            rest
        }
    }
}

/// The facts that held at `t`, in their order.
pub fn facts_as_of<T>(facts: Vec<(Validity, T)>, t: Instant) -> (r: Vec<(Validity, T)>)
    ensures
        r@ == kept_at(facts@, t),
{
    let ghost all = facts@;
    let mut out: Vec<(Validity, T)> = Vec::new();
    let mut rest = facts;
    let ghost mut done: Seq<(Validity, T)> = Seq::empty();
    while rest.len() > 0
        invariant
            all == done + rest@,
            out@ == kept_at(done, t),
        decreases rest@.len(),
    {
        let ghost before = rest@;
        let x = rest.remove(0);
        proof {
            assert(x == before[0]);
            assert(before =~= seq![x] + rest@);
            let d2 = done.push(x);
            assert(d2.drop_last() =~= done);
            assert(all =~= d2 + rest@);
            done = d2;
        }
        if holds_at(&x.0, t) {
            out.push(x);
        }
    }
    proof {
        assert(done =~= all);
    }
    out
}

/// A fact that is kept held at `t`, and every fact that held at `t` is kept:
/// the as-of view leaves out exactly what was not true that day.
pub proof fn law_as_of_keeps_what_held<T>(facts: Seq<(Validity, T)>, t: Instant)
    ensures
        forall|x: (Validity, T)| #[trigger] kept_at(facts, t).contains(x) <==> (facts.contains(x) && valid_at(x.0, t)),
    decreases facts.len(),
{
    if facts.len() > 0 {
        let init = facts.drop_last();
        law_as_of_keeps_what_held(init, t);
        let rest = kept_at(init, t);
        let last = facts.last();
        assert forall|x: (Validity, T)| #[trigger] kept_at(facts, t).contains(x) <==> (facts.contains(x) && valid_at(x.0, t)) by {
            if facts.contains(x) && valid_at(x.0, t) {
                let k = choose|k: int| 0 <= k < facts.len() && facts[k] == x;
                if k < facts.len() - 1 {
                    assert(init[k] == x);
                    assert(init.contains(x));
                    assert(rest.contains(x));
                    let j = choose|j: int| 0 <= j < rest.len() && rest[j] == x;
                    if valid_at(last.0, t) {
                        assert(rest.push(last)[j] == x);
                    }
                } else {
                    assert(x == last);
                    assert(rest.push(last)[rest.len() as int] == x);
                }
            }
            if kept_at(facts, t).contains(x) {
                let kept = kept_at(facts, t);
                let j = choose|j: int| 0 <= j < kept.len() && kept[j] == x;
                if valid_at(last.0, t) && j == rest.len() {
                    assert(facts[facts.len() - 1] == x);
                } else {
                    assert(rest[j] == x);
                    assert(rest.contains(x));
                    assert(init.contains(x));
                    let k = choose|k: int| 0 <= k < init.len() && init[k] == x;
                    assert(facts[k] == x);
                }
            }
        }
    } else {
        assert forall|x: (Validity, T)| #[trigger] kept_at(facts, t).contains(x) <==> (facts.contains(x) && valid_at(x.0, t)) by {
        }
    }
}

// ---------------------------------------------------------------------------
// Step details
// ---------------------------------------------------------------------------

pub open spec fn digit_char(d: nat) -> char {
    ((48 + d) as u8) as char
}

/// A number in decimal.
pub open spec fn decimal_text(n: nat) -> Seq<char>
    decreases n,
{
    if n < 10 {
        seq![digit_char(n)]
    } else {
        decimal_text(n / 10).push(digit_char(n % 10))
    }
}

pub fn decimal(n: u64) -> (s: Vec<char>)
    ensures
        s@ == decimal_text(n as nat),
    decreases n,
{
    if n < 10 {
        let c = ((48u8 + n as u8) as char);
        let v = vec![c];
        proof {
            assert(v@ =~= seq![digit_char(n as nat)]);
        }
        v
    } else {
        let mut v = decimal(n / 10);
        let d = (n % 10) as u8;
        v.push((48u8 + d) as char);
        v
    }
}

/// `{n} {noun}`, the detail a step shows (`6 sources`, `2 matches`).
pub fn count_detail(n: u64, noun: &str) -> (r: String)
    ensures
        r@ == decimal_text(n as nat) + " "@ + noun@,
{
    let mut v = decimal(n);
    let mut rest = chars_of(" ");
    let mut w = chars_of(noun);
    let ghost a = v@;
    let ghost b = rest@;
    let ghost c = w@;
    v.append(&mut rest);
    v.append(&mut w);
    proof {
        assert(v@ =~= a + b + c);
    }
    string_of(&v)
}

/// The detail of a `changes` step: the count, or `40+ changes` when the list
/// was cut at the limit.
pub fn changes_detail(rows: u64) -> (r: String)
    ensures
        rows == CHANGES_LIMIT ==> r@ == decimal_text(CHANGES_LIMIT as nat) + "+ changes"@,
        rows != CHANGES_LIMIT ==> r@ == decimal_text(rows as nat) + " changes"@,
{
    if rows == 40 {
        let mut v = decimal(40);
        let mut rest = chars_of("+ changes");
        let ghost a = v@;
        let ghost b = rest@;
        v.append(&mut rest);
        proof {
            assert(v@ =~= a + b);
        }
        string_of(&v)
    } else {
        let r = count_detail(rows, "changes");
        proof {
            reveal_strlit(" ");
            reveal_strlit("changes");
            reveal_strlit(" changes");
            assert(" "@ + "changes"@ =~= " changes"@);
            assert(r@ =~= decimal_text(rows as nat) + " changes"@);
        }
        r
    }
}

/// The first `n` characters of a text (what a step shows of a query or of a
/// remembered episode).
pub fn first_chars(s: &str, n: usize) -> (r: String)
    ensures
        r@ == s@.take(if n < s@.len() { n as int } else { s@.len() as int }),
{
    let v = chars_of(s);
    let k = if n < v.len() {
        n
    } else {
        v.len()
    };
    let out = crate::text::slice_chars(&v, 0, k);
    proof {
        assert(out@ =~= s@.take(k as int));
    }
    string_of(&out)
}

/// The detail of a `query_data` step: its stated purpose, else the first 60
/// characters of the SQL.
pub fn query_detail(purpose: &str, sql: &str) -> (r: String)
    ensures
        purpose@.len() == 0 ==> r@ == sql@.take(if 60 < sql@.len() { 60 } else { sql@.len() as int }),
        purpose@.len() > 0 ==> r@ == purpose@,
{
    if purpose.unicode_len() == 0 {
        first_chars(sql, 60)
    } else {
        string_of(&chars_of(purpose))
    }
}

/// The mounted data source a query names, matched without regard to ASCII case;
/// the first such.
pub open spec fn source_index(names: Seq<Seq<char>>, wanted: Seq<char>) -> Option<int>
    decreases names.len(),
{
    if names.len() == 0 {
        None
    } else if crate::documents::eq_ignore_ascii_case(names[0], wanted) {
        Some(0)
    } else {
        match source_index(names.drop_first(), wanted) {
            Some(i) => Some(i + 1),
            None => None,
        }
    }
}

/// The texts of some strings.
pub open spec fn string_views(s: Seq<String>) -> Seq<Seq<char>> {
    s.map_values(|x: String| x@)
}

pub fn find_source(names: &Vec<String>, wanted: &str) -> (r: Option<usize>)
    ensures
        match (r, source_index(string_views(names@), wanted@)) {
            (Some(a), Some(b)) => a == b,
            (None, None) => true,
            _ => false,
        },
{
    let ghost all = string_views(names@);
    let mut i: usize = 0;
    while i < names.len()
        invariant
            i <= names@.len(),
            all == string_views(names@),
            forall|j: int| 0 <= j < i ==> !crate::documents::eq_ignore_ascii_case(#[trigger] all[j], wanted@),
        decreases names.len() - i,
    {
        if crate::documents::same_ignoring_ascii_case(names[i].as_str(), wanted) {
            proof {
                lemma_source_index(all, wanted@, i as int);
            }
            return Some(i);
        }
        i = i + 1;
    }
    proof {
        lemma_no_source(all, wanted@);
    }
    None
}

proof fn lemma_source_index(names: Seq<Seq<char>>, wanted: Seq<char>, i: int)
    requires
        0 <= i < names.len(),
        crate::documents::eq_ignore_ascii_case(names[i], wanted),
        forall|j: int| 0 <= j < i ==> !crate::documents::eq_ignore_ascii_case(#[trigger] names[j], wanted),
    ensures
        source_index(names, wanted) == Some(i),
    decreases i,
{
    if i > 0 {
        lemma_source_index(names.drop_first(), wanted, i - 1);
        assert(!crate::documents::eq_ignore_ascii_case(names[0], wanted));
    }
}

proof fn lemma_no_source(names: Seq<Seq<char>>, wanted: Seq<char>)
    requires
        forall|j: int| 0 <= j < names.len() ==> !crate::documents::eq_ignore_ascii_case(#[trigger] names[j], wanted),
    ensures
        source_index(names, wanted) is None,
    decreases names.len(),
{
    if names.len() > 0 {
        assert(!crate::documents::eq_ignore_ascii_case(names[0], wanted));
        assert forall|j: int| 0 <= j < names.drop_first().len() implies !crate::documents::eq_ignore_ascii_case(
            #[trigger] names.drop_first()[j],
            wanted,
        ) by {
            assert(names.drop_first()[j] == names[j + 1]);
        }
        lemma_no_source(names.drop_first(), wanted);
    }
}


// ---------------------------------------------------------------------------
// The system prompt of a turn
// ---------------------------------------------------------------------------

/// What the assistant is, the two time axes of the graph, and how it works.
pub const SYSTEM_PROMPT: &'static str = "You are the assistant of Utopia, a temporal knowledge platform. You have tools: search_chunks (document search), find_entities, entity_facts and changes (a bi-temporal knowledge graph), and search_docs (Utopia's own manual, the Charter).\nThe graph has TWO independent time axes, and each graph tool reads exactly one:\n- World time \u{2014} when something was true. Read with entity_facts (`at` = as of that date).\n- Record time \u{2014} when we came to believe it, and when we revised it. Read with changes.\n\"Who was CTO in 2019\" is world time; \"what did we learn last month\" and \"what did we get wrong\" are record time. The same fact has a position on both.\nBoundary: search_docs answers questions about Utopia itself (features, ingestion, permissions, what fields like 'missing' or validity ranges mean); the other tools answer questions about the knowledge stored in it. Never mix the manual into answers about the user's data unless they asked about Utopia's behavior.\n\nMethod:\nFirst decide what the message is about. A message about THIS CONVERSATION \u{2014} translate it, say it shorter, rephrase it, \"what did you just say\", \"why\" \u{2014} is answered from the transcript above with NO tool calls: the evidence is already in it. Gathering it again is not merely wasted work \u{2014} with several entities sharing a name the second pass can land on a different one, and the \"translation\" then says something else. Just deliver it \u{2014} no preamble about what you are or are not looking up. Everything below is for messages about the user's data.\n1. For factual questions \u{2014} questions about the user's data, never one about this conversation \u{2014} ALWAYS gather evidence with tools before answering. Prefer the graph tools for questions about people/organizations/projects and time (\"who was X when\", \"what changed\"), search_chunks for content and detail questions. Combine both when useful.\n2. Facts carry validity ranges (from \u{2192} to). For \"as of <date>\" questions pass `at` to entity_facts and the server filters to that moment; for history questions omit `at` to see the full timeline. State dates in the answer.\n2b. For \"what changed / what is new / what did we get wrong since <date>\", call changes \u{2014} it needs no entity. Name the document a correction came from in plain prose. Graph tools return no [n] numbers and no URLs, so never write a bracketed citation or a placeholder like [Link] after one \u{2014} the document's name IS the attribution.\n3. Several entities can share one name \u{2014} check the disambiguator and pick the right one; if genuinely ambiguous, ask the user which one they mean.\n4. Stop calling tools as soon as you have enough evidence. Then answer concisely: cite document sources with [n] (numbers from search results) at the end of supported sentences. If the evidence is insufficient, say so explicitly \u{2014} never fabricate.\n5. Always respond in the same language as the user's question.";

/// What the assistant is told about the `remember` tool.
pub const MEMORY_PROMPT: &'static str = "Memory: you can persist knowledge with the remember tool. Use it when the user says \"remember/record this\" or states a decision meant to last. Confirm in your reply what was recorded. Never invent memories, and never call it for small talk.";

/// A mapping a person confirmed, from a concept to how it is computed.
pub struct ConfirmedMapping {
    pub concept_name: String,
    pub source: String,
    pub sql: Option<String>,
    pub expr: Option<String>,
    pub table_name: Option<String>,
    pub unit: Option<String>,
    pub summary: Option<String>,
}

/// How a mapping is computed: its SQL, else its expression, else its table,
/// else `-`.
pub open spec fn mapping_how(m: ConfirmedMapping) -> Seq<char> {
    match m.sql {
        Some(s) => s@,
        None => match m.expr {
            Some(e) => e@,
            None => match m.table_name {
                Some(t) => t@,
                None => "-"@,
            },
        },
    }
}

/// `- concept (source) [unit]: how — summary`, on a line of its own.
pub open spec fn mapping_line(m: ConfirmedMapping) -> Seq<char> {
    "\n- "@ + m.concept_name@ + " ("@ + m.source@ + ")"@ + match m.unit {
        Some(u) => " ["@ + u@ + "]"@,
        None => Seq::empty(),
    } + ": "@ + mapping_how(m) + match m.summary {
        Some(x) => " \u{2014} "@ + x@,
        None => Seq::empty(),
    }
}

pub open spec fn mapping_lines(ms: Seq<ConfirmedMapping>) -> Seq<char>
    decreases ms.len(),
{
    if ms.len() == 0 {
        Seq::empty()
    } else {
        mapping_lines(ms.drop_last()) + mapping_line(ms.last())
    }
}

/// The system prompt of a turn: the base text; the memory paragraph for a
/// caller who may write; with data sources mounted, which sources `query_data`
/// reaches and, when there are confirmed mappings, the semantic layer to use
/// instead of guessing from the schema.
pub open spec fn system_prompt_of(can_write: bool, names: Seq<String>, mappings: Seq<ConfirmedMapping>) -> Seq<char> {
    SYSTEM_PROMPT@ + (if can_write {
        "\n"@ + MEMORY_PROMPT@
    } else {
        Seq::empty()
    }) + if names.len() == 0 {
        Seq::empty()
    } else {
        "\nData: query_data runs read-only SQL (PostgreSQL dialect) against: "@
            + crate::tool_text::names_list(names)
            + ". For questions about numbers/metrics, search for the source's schema document first, then query. State units and the time range you used in the answer."@
            + if mappings.len() == 0 {
            Seq::empty()
        } else {
            "\nSemantic layer (confirmed definitions \u{2014} use these instead of guessing from schema):"@
                + mapping_lines(mappings)
        }
    }
}

fn append_text(out: &mut Vec<char>, s: &str)
    ensures
        final(out)@ == old(out)@ + s@,
{
    let mut v = chars_of(s);
    out.append(&mut v);
}

fn mapping_text(m: &ConfirmedMapping) -> (r: Vec<char>)
    ensures
        r@ == mapping_line(*m),
{
    let mut out: Vec<char> = Vec::new();
    append_text(&mut out, "\n- ");
    append_text(&mut out, m.concept_name.as_str());
    append_text(&mut out, " (");
    append_text(&mut out, m.source.as_str());
    append_text(&mut out, ")");
    match &m.unit {
        Some(u) => {
            append_text(&mut out, " [");
            append_text(&mut out, u.as_str());
            append_text(&mut out, "]");
        },
        None => {},
    }
    append_text(&mut out, ": ");
    match &m.sql {
        Some(x) => append_text(&mut out, x.as_str()),
        None => match &m.expr {
            Some(x) => append_text(&mut out, x.as_str()),
            None => match &m.table_name {
                Some(x) => append_text(&mut out, x.as_str()),
                None => append_text(&mut out, "-"),
            },
        },
    }
    match &m.summary {
        Some(x) => {
            append_text(&mut out, " \u{2014} ");
            append_text(&mut out, x.as_str());
        },
        None => {},
    }
    proof {
        assert(out@ =~= mapping_line(*m));
    }
    out
}

pub fn system_prompt(can_write: bool, names: &Vec<String>, mappings: &Vec<ConfirmedMapping>) -> (r: String)
    ensures
        r@ == system_prompt_of(can_write, names@, mappings@),
{
    let mut out: Vec<char> = Vec::new();
    append_text(&mut out, SYSTEM_PROMPT);
    if can_write {
        append_text(&mut out, "\n");
        append_text(&mut out, MEMORY_PROMPT);
    }
    let ghost head = out@;
    if names.len() > 0 {
        append_text(&mut out, "\nData: query_data runs read-only SQL (PostgreSQL dialect) against: ");
        let mut parts: Vec<Vec<char>> = Vec::new();
        let mut i: usize = 0;
        while i < names.len()
            invariant
                i <= names@.len(),
                crate::prompt::vecs_view(parts@) == names@.take(i as int).map_values(|n: String| n@),
            decreases names.len() - i,
        {
            let ghost before = crate::prompt::vecs_view(parts@);
            parts.push(chars_of(names[i].as_str()));
            proof {
                assert(crate::prompt::vecs_view(parts@) =~= before.push(names@[i as int]@));
                assert(names@.take(i + 1).map_values(|n: String| n@) =~= names@.take(i as int).map_values(
                    |n: String| n@,
                ).push(names@[i as int]@));
            }
            i = i + 1;
        }
        proof {
            assert(names@.take(names@.len() as int) =~= names@);
        }
        let mut listed = crate::prompt::join_chars(&parts, &chars_of(", "));
        out.append(&mut listed);
        append_text(
            &mut out,
            ". For questions about numbers/metrics, search for the source's schema document first, then query. State units and the time range you used in the answer.",
        );
        let ghost mid = out@;
        if mappings.len() > 0 {
            append_text(
                &mut out,
                "\nSemantic layer (confirmed definitions \u{2014} use these instead of guessing from schema):",
            );
            let ghost top = out@;
            let mut j: usize = 0;
            proof {
                assert(mappings@.take(0) =~= Seq::<ConfirmedMapping>::empty());
                assert(out@ =~= top + mapping_lines(mappings@.take(0)));
            }
            while j < mappings.len()
                invariant
                    j <= mappings@.len(),
                    out@ == top + mapping_lines(mappings@.take(j as int)),
                decreases mappings.len() - j,
            {
                proof {
                    assert(mappings@.take(j + 1).drop_last() =~= mappings@.take(j as int));
                    assert(mappings@.take(j + 1).last() == mappings@[j as int]);
                }
                let mut line = mapping_text(&mappings[j]);
                out.append(&mut line);
                j = j + 1;
            }
            proof {
                assert(mappings@.take(mappings@.len() as int) =~= mappings@);
            }
        }
    }
    string_of(&out)
}

} // verus!
