//! Site administration: who may administer, the deployment settings a site
//! admin sends, the external data sources an admin registers, and the document
//! that describes a data source's tables to the model.
use vstd::prelude::*;
use crate::text::{chars_of, str_eq, string_of};

verus! {

/// The deployment settings: open registration, and optionally the worker
/// concurrency, the default per-model concurrency and one model's own limit.
pub struct DeploymentReq {
    pub open_registration: bool,
    pub worker_concurrency: Option<i32>,
    pub default_model_concurrency: Option<i32>,
    pub model_limit: Option<ModelLimitReq>,
}

pub struct ModelLimitReq {
    pub base_url: String,
    pub model: String,
    pub max_concurrent: Option<i32>,
}

/// A data source to register.
pub struct CreateBody {
    pub name: String,
    pub engine: String,
    pub conn_string: String,
}

/// The engine a data source has when none is named.
pub fn default_engine() -> (s: String)
    ensures
        s@ == "postgres"@,
{
    string_of(&chars_of("postgres"))
}

/// Site administration is for site admins only (`Forbidden` otherwise).
pub fn require_admin(is_admin: bool) -> (r: Result<(), ()>)
    ensures
        r is Ok <==> is_admin,
{
    if is_admin {
        Ok(())
    } else {
        Err(())
    }
}

// ---------------------------------------------------------------------------
// The schema document of a data source
// ---------------------------------------------------------------------------

/// The most tables a schema document lists.
pub const MAX_SCHEMA_TABLES: usize = 200;

/// A column of a data source's schema, in the order the source reports them
/// (a table's columns together).
pub struct SchemaColumn {
    pub schema: String,
    pub table: String,
    pub column: String,
    pub data_type: String,
    pub comment: Option<String>,
}

/// `schema.table`.
pub open spec fn table_key(c: SchemaColumn) -> Seq<char> {
    c.schema@ + "."@ + c.table@
}

/// `- column (type)`, with ` — comment` when there is one.
pub open spec fn column_line(c: SchemaColumn) -> Seq<char> {
    "- "@ + c.column@ + " ("@ + c.data_type@ + ")"@ + match c.comment {
        Some(x) => " \u{2014} "@ + x@,
        None => Seq::empty(),
    } + "\n"@
}

/// Reads the columns left to right after `md` was written, `current` being the
/// table whose columns are being listed and `tables` how many tables were
/// opened: a column of a new table opens it under `## schema.table`, unless
/// the limit of tables is reached, which ends the document with a note.
pub open spec fn schema_walk(cols: Seq<SchemaColumn>, current: Seq<char>, tables: nat, md: Seq<char>) -> (
    Seq<char>,
    nat,
)
    decreases cols.len(),
{
    if cols.len() == 0 {
        (md, tables)
    } else {
        let c = cols[0];
        let key = table_key(c);
        if key != current {
            if tables >= MAX_SCHEMA_TABLES {
                (md + "\n(further tables omitted)\n"@, tables)
            } else {
                schema_walk(cols.drop_first(), key, tables + 1, md + "\n## "@ + key + "\n"@ + column_line(c))
            }
        } else {
            schema_walk(cols.drop_first(), current, tables, md + column_line(c))
        }
    }
}

pub open spec fn schema_intro(name: Seq<char>) -> Seq<char> {
    "# Data source: "@ + name + "\n\nTables and columns available for SQL queries against this source.\n"@
}

/// The markdown that describes a data source's tables, and how many tables it
/// lists.
pub open spec fn schema_doc_of(name: Seq<char>, cols: Seq<SchemaColumn>) -> (Seq<char>, nat) {
    schema_walk(cols, Seq::empty(), 0, schema_intro(name))
}

fn append_str(out: &mut Vec<char>, s: &str)
    ensures
        final(out)@ == old(out)@ + s@,
{
    let mut v = chars_of(s);
    out.append(&mut v);
}

fn append_column(out: &mut Vec<char>, c: &SchemaColumn)
    ensures
        final(out)@ == old(out)@ + column_line(*c),
{
    let ghost start = out@;
    append_str(out, "- ");
    append_str(out, c.column.as_str());
    append_str(out, " (");
    append_str(out, c.data_type.as_str());
    append_str(out, ")");
    let ghost mid = out@;
    match &c.comment {
        Some(x) => {
            append_str(out, " \u{2014} ");
            append_str(out, x.as_str());
        },
        None => {},
    }
    append_str(out, "\n");
    proof {
        assert(out@ =~= start + column_line(*c));
    }
}

/// The schema document of a data source named `name`, from its columns: one
/// section per table, at most 200 tables.
pub fn schema_doc(name: &str, cols: &Vec<SchemaColumn>) -> (r: (String, usize))
    ensures
        r.0@ == schema_doc_of(name@, cols@).0,
        r.1 == schema_doc_of(name@, cols@).1,
{
    let mut md: Vec<char> = Vec::new();
    append_str(&mut md, "# Data source: ");
    append_str(&mut md, name);
    append_str(&mut md, "\n\nTables and columns available for SQL queries against this source.\n");
    let mut current: Vec<char> = Vec::new();
    let mut tables: usize = 0;
    let mut i: usize = 0;
    proof {
        assert(md@ =~= schema_intro(name@));
        assert(cols@.skip(0) =~= cols@);
        assert(current@ =~= Seq::<char>::empty());
    }
    while i < cols.len()
        invariant
            i <= cols@.len(),
            tables <= MAX_SCHEMA_TABLES,
            schema_doc_of(name@, cols@) == schema_walk(cols@.skip(i as int), current@, tables as nat, md@),
        decreases cols.len() - i,
    {
        let c = &cols[i];
        proof {
            assert(cols@.skip(i as int)[0] == cols@[i as int]);
            assert(cols@.skip(i as int).drop_first() =~= cols@.skip(i + 1));
        }
        let mut key = chars_of(c.schema.as_str());
        let mut dot = chars_of(".");
        let mut tb = chars_of(c.table.as_str());
        let ghost a = key@;
        let ghost b = dot@;
        let ghost t = tb@;
        key.append(&mut dot);
        key.append(&mut tb);
        proof {
            assert(key@ =~= a + b + t);
        }
        let same = str_eq(string_of(&key).as_str(), string_of(&current).as_str());
        if !same {
            if tables >= MAX_SCHEMA_TABLES {
                append_str(&mut md, "\n(further tables omitted)\n");
                return (string_of(&md), tables);
            }
            tables = tables + 1;
            let ghost before = md@;
            append_str(&mut md, "\n## ");
            let mut k2 = key.clone();
            md.append(&mut k2);
            append_str(&mut md, "\n");
            append_column(&mut md, c);
            proof {
                assert(md@ =~= before + "\n## "@ + key@ + "\n"@ + column_line(*c));
            }
            current = key;
        } else {
            append_column(&mut md, c);
        }
        i = i + 1;
    }
    proof {
        assert(cols@.skip(cols@.len() as int) =~= Seq::<SchemaColumn>::empty());
    }
    (string_of(&md), tables)
}

/// The folder source, one per knowledge base, that schema documents are filed
/// under.
pub const SCHEMA_FOLDER: &'static str = "Data schemas";

/// The text of a UUID as `Display` writes it (lowercase, hyphenated); a
/// function of the UUID alone.
pub uninterp spec fn uuid_display(u: uuid::Uuid) -> Seq<char>;

/// `Uuid::to_string`.
#[verifier::external_body]
pub(crate) fn uuid_string(u: &uuid::Uuid) -> (r: String)
    ensures
        r@ == uuid_display(*u),
{
    u.to_string()
}

/// Where a data source's schema document is ingested: under the key
/// `datasource:{id}:schema`, as `{name}-schema.md`, with the type
/// `text/markdown`.
pub fn schema_doc_address(ds_id: &uuid::Uuid, name: &str) -> (r: (String, String, &'static str))
    ensures
        r.0@ == "datasource:"@ + uuid_display(*ds_id) + ":schema"@,
        r.1@ == name@ + "-schema.md"@,
        r.2@ == "text/markdown"@,
{
    let mut key: Vec<char> = Vec::new();
    append_str(&mut key, "datasource:");
    append_str(&mut key, uuid_string(ds_id).as_str());
    append_str(&mut key, ":schema");
    let mut file: Vec<char> = Vec::new();
    append_str(&mut file, name);
    append_str(&mut file, "-schema.md");
    (string_of(&key), string_of(&file), "text/markdown")
}

} // verus!
