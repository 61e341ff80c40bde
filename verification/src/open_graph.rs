//! The open graph's write path, where a document's statements are recorded in its
//! own words: where a quote or a time phrase stands in a chunk (in characters, the
//! unit the interface and SQL `substr` count in), and the key by which statement
//! names find the things a reply listed.
use vstd::prelude::*;
use crate::search::{find_chars, find_first};
use crate::text::{
    chars_of, lowercase, spec_lowercase, squeeze, squeeze_chars, string_of, trim_chars, trim_seq, trim_str,
    Keep,
};

verus! {

/// Where a piece of text stands in a chunk: the trimmed needle's first position
/// and the position just after it, in characters. Nothing for an empty needle or
/// one that is not there verbatim.
pub open spec fn located(hay: Seq<char>, needle: Seq<char>) -> Option<(int, int)> {
    let n = trim_seq(needle);
    if n.len() == 0 {
        None
    } else {
        match find_first(hay, n) {
            Some(i) => Some((i, i + n.len())),
            None => None,
        }
    }
}

/// Character offsets (start, end) of `needle` in `hay`. Offsets come only from the
/// text itself; a model's reported numbers never count.
pub fn locate(hay: &str, needle: &str) -> (r: Option<(i32, i32)>)
    requires
        hay@.len() <= i32::MAX,
    ensures
        r == (match located(hay@, needle@) {
            Some((a, b)) => Some((a as i32, b as i32)),
            None => None,
        }),
        located(hay@, needle@) matches Some((a, b)) ==> 0 <= a <= b <= hay@.len(),
{
    let h = chars_of(hay);
    let raw = chars_of(needle);
    let n = trim_chars(&raw);
    if n.len() == 0 {
        return None;
    }
    match find_chars(&h, &n) {
        Some(i) => {
            let end = i + n.len();
            Some((i as i32, end as i32))
        },
        None => None,
    }
}

/// A quoted sentence and, when it was found in the chunk, where it stands.
pub open spec fn time_start(
    chunk: Seq<char>,
    quote: Option<(Seq<char>, Option<(int, int)>)>,
    words: Seq<char>,
) -> Option<int> {
    match quote {
        None => None,
        Some((q, span)) => match located(q, words) {
            None => None,
            Some((inner, _)) => match span {
                Some((start, _)) => Some(start + inner),
                None => match located(chunk, words) {
                    Some((s, _)) => Some(s),
                    None => None,
                },
            },
        },
    }
}

/// Where a time phrase starts in the chunk. It must stand in the statement's own
/// quoted sentence: a phrase that only stands elsewhere in the chunk is not what
/// this sentence said. When the quote itself was not located, the start falls back
/// to the phrase's first place in the whole chunk.
pub fn locate_time(chunk: &str, quote: Option<(&str, Option<(i32, i32)>)>, words: &str) -> (r:
    Option<i32>)
    requires
        chunk@.len() <= i32::MAX,
        quote matches Some((q, span)) ==> q@.len() <= i32::MAX,
        quote matches Some((q, Some((start, _)))) ==> start + q@.len() <= i32::MAX,
    ensures
        r == (match time_start(
            chunk@,
            match quote {
                Some((q, span)) => Some(
                    (
                        q@,
                        match span {
                            Some((a, b)) => Some((a as int, b as int)),
                            None => None,
                        },
                    ),
                ),
                None => None,
            },
            words@,
        ) {
            Some(t) => Some(t as i32),
            None => None,
        }),
{
    let (q, span) = match quote {
        Some(x) => x,
        None => return None,
    };
    let inner = match locate(q, words) {
        Some((a, _)) => a,
        None => return None,
    };
    assert(located(q@, words@) matches Some((a, _)) && a == inner as int);
    match span {
        Some((start, _)) => {
            let t = start + inner;
            assert(t as int == start as int + inner as int);
            Some(t)
        },
        None => match locate(chunk, words) {
            Some((s, _)) => Some(s),
            None => None,
        },
    }
}

/// The lookup key of a name: whitespace runs folded to one space, ends dropped,
/// lowercased. Names in statements must match the listed names up to that.
pub open spec fn name_key_of(name: Seq<char>) -> Seq<char> {
    spec_lowercase(squeeze(name, Keep::NonWhitespace, ' '))
}

pub fn name_key(name: &str) -> (key: String)
    ensures
        key@ == name_key_of(name@),
{
    let v = chars_of(name);
    let folded = string_of(&squeeze_chars(&v, Keep::NonWhitespace, ' '));
    lowercase(folded.as_str())
}


/// Things a chunk's reply listed, by name key, first listing first.
pub open spec fn book_lookup(book: Seq<(String, u128)>, key: Seq<char>) -> Option<u128>
    decreases book.len(),
{
    if book.len() == 0 {
        None
    } else if book[0].0@ == key {
        Some(book[0].1)
    } else {
        book_lookup(book.drop_first(), key)
    }
}

fn lookup_key(book: &Vec<(String, u128)>, key: &str) -> (r: Option<u128>)
    ensures
        r == book_lookup(book@, key@),
{
    let mut i: usize = 0;
    proof {
        assert(book@.skip(0) =~= book@);
    }
    while i < book.len()
        invariant
            i <= book@.len(),
            book_lookup(book@, key@) == book_lookup(book@.skip(i as int), key@),
        decreases book.len() - i,
    {
        proof {
            assert(book@.skip(i as int)[0] == book@[i as int]);
            assert(book@.skip(i as int).drop_first() =~= book@.skip(i + 1));
        }
        if crate::text::str_eq(book[i].0.as_str(), key) {
            return Some(book[i].1);
        }
        i = i + 1;
    }
    None
}

/// The thing a statement's name refers to: among the things this chunk's reply
/// listed first, then among those named earlier in the document, both by name
/// key.
pub open spec fn resolved(local: Seq<(String, u128)>, known: Seq<(String, u128)>, name: Seq<char>) -> Option<u128> {
    match book_lookup(local, name_key_of(name)) {
        Some(id) => Some(id),
        None => book_lookup(known, name_key_of(name)),
    }
}

pub fn resolve_name(local: &Vec<(String, u128)>, known: &Vec<(String, u128)>, name: &str) -> (r: Option<u128>)
    ensures
        r == resolved(local@, known@, name@),
{
    let key = name_key(name);
    match lookup_key(local, key.as_str()) {
        Some(id) => Some(id),
        None => lookup_key(known, key.as_str()),
    }
}

/// Whether a thing is already among the document's named things.
pub open spec fn noted(entities: Seq<(u128, String, String)>, id: u128) -> bool {
    exists|i: int| 0 <= i < entities.len() && entities[i].0 == id
}

/// No thing is listed twice.
pub open spec fn ids_distinct(entities: Seq<(u128, String, String)>) -> bool {
    forall|i: int, j: int| 0 <= i < j < entities.len() ==> entities[i].0 != entities[j].0
}

/// Notes a named thing the document mentions, in the order of first mention:
/// a thing already noted stays as it was first noted (its first name and
/// kind); a new one is appended, and its name's key then refers to it unless
/// the key already refers to another thing.
pub fn note_named(
    entities: &mut Vec<(u128, String, String)>,
    known: &mut Vec<(String, u128)>,
    id: u128,
    kind: &str,
    name: &str,
)
    ensures
        noted(old(entities)@, id) ==> final(entities)@ == old(entities)@ && final(known)@ == old(known)@,
        !noted(old(entities)@, id) ==> final(entities)@.len() == old(entities)@.len() + 1
            && final(entities)@.take(old(entities)@.len() as int) == old(entities)@
            && final(entities)@.last().0 == id && final(entities)@.last().1@ == kind@
            && final(entities)@.last().2@ == name@ && final(known)@.len() == old(known)@.len() + 1
            && final(known)@.take(old(known)@.len() as int) == old(known)@
            && final(known)@.last().0@ == name_key_of(name@) && final(known)@.last().1 == id,
{
    let mut i: usize = 0;
    while i < entities.len()
        invariant
            i <= entities@.len(),
            forall|j: int| 0 <= j < i ==> entities@[j].0 != id,
        decreases entities.len() - i,
    {
        if entities[i].0 == id {
            return;
        }
        i = i + 1;
    }
    let ghost e0 = entities@;
    let ghost k0 = known@;
    entities.push((id, string_of(&chars_of(kind)), string_of(&chars_of(name))));
    known.push((name_key(name), id));
    proof {
        assert(entities@.take(e0.len() as int) =~= e0);
        assert(known@.take(k0.len() as int) =~= k0);
    }
}

/// Noting a thing never lists a thing twice.
pub proof fn law_noted_things_stay_distinct(
    before: Seq<(u128, String, String)>,
    after: Seq<(u128, String, String)>,
    id: u128,
)
    requires
        ids_distinct(before),
        noted(before, id) ==> after == before,
        !noted(before, id) ==> after.len() == before.len() + 1 && after.take(before.len() as int)
            == before && after.last().0 == id,
    ensures
        ids_distinct(after),
{
    if !noted(before, id) {
        assert forall|i: int, j: int| 0 <= i < j < after.len() implies after[i].0 != after[j].0 by {
            if j == before.len() {
                assert(after[i] == after.take(before.len() as int)[i]);
                assert(after[i] == before[i]);
            } else {
                assert(after[i] == after.take(before.len() as int)[i]);
                assert(after[j] == after.take(before.len() as int)[j]);
            }
        }
    }
}

/// A name key keeps referring to the thing it first referred to: appending a
/// thing's key never changes what an earlier key finds.
pub proof fn law_first_name_keeps_its_thing(known: Seq<(String, u128)>, entry: (String, u128), key: Seq<char>)
    requires
        book_lookup(known, key) is Some,
    ensures
        book_lookup(known.push(entry), key) == book_lookup(known, key),
    decreases known.len(),
{
    if known[0].0@ != key {
        assert(known.push(entry).drop_first() =~= known.drop_first().push(entry));
        law_first_name_keeps_its_thing(known.drop_first(), entry, key);
    }
}

/// What a statement points at.
#[derive(Debug)]
pub enum Target {
    /// Another listed thing.
    Entity(u128),
    /// A value in the document's words.
    Value(String),
}

/// Why a statement is not recorded.
#[derive(Clone, Copy, Debug, PartialEq, Eq, Structural)]
pub enum StatementDrop {
    /// It points at its own subject.
    OwnSubject,
    /// It has neither an object nor a value.
    NoObject,
}

/// What a statement points at. Its object counts when it names a listed thing;
/// an object that names nothing listed is kept as a value (unless the
/// statement has a value of its own). Pointing at its own subject, or at
/// nothing at all, drops the statement.
pub open spec fn target_of(
    subject: u128,
    object: Option<Seq<char>>,
    object_id: Option<u128>,
    value: Option<Seq<char>>,
) -> Result<(Option<u128>, Option<Seq<char>>), StatementDrop> {
    let v = match value {
        Some(x) => if trim_seq(x).len() > 0 {
            Some(trim_seq(x))
        } else {
            None
        },
        None => None,
    };
    let o = match object {
        Some(x) => if trim_seq(x).len() > 0 {
            Some(trim_seq(x))
        } else {
            None
        },
        None => None,
    };
    let (obj, val) = match o {
        Some(name) => match object_id {
            Some(id) => (Some(id), v),
            None => (
                None,
                match v {
                    Some(x) => Some(x),
                    None => Some(name),
                },
            ),
        },
        None => (None, v),
    };
    match (obj, val) {
        (Some(id), _) => if id == subject {
            Err(StatementDrop::OwnSubject)
        } else {
            Ok((Some(id), None))
        },
        (None, Some(x)) => Ok((None, Some(x))),
        (None, None) => Err(StatementDrop::NoObject),
    }
}

/// `object_id` is what the object's name resolved to (`resolve_name`).
pub fn statement_target(
    subject: u128,
    object: Option<&str>,
    object_id: Option<u128>,
    value: Option<&str>,
) -> (r: Result<Target, StatementDrop>)
    ensures
        match target_of(
            subject,
            match object {
                Some(o) => Some(o@),
                None => None,
            },
            object_id,
            match value {
                Some(x) => Some(x@),
                None => None,
            },
        ) {
            Ok((Some(id), _)) => r matches Ok(Target::Entity(e)) && e == id,
            Ok((None, Some(x))) => r matches Ok(Target::Value(s)) && s@ == x,
            Ok((None, None)) => false,
            Err(d) => r matches Err(e) && e == d,
        },
{
    let v: Option<String> = match value {
        Some(x) => {
            let t = crate::text::trim_str(x);
            if t.unicode_len() > 0 {
                Some(t)
            } else {
                None
            }
        },
        None => None,
    };
    let o: Option<String> = match object {
        Some(x) => {
            let t = crate::text::trim_str(x);
            if t.unicode_len() > 0 {
                Some(t)
            } else {
                None
            }
        },
        None => None,
    };
    let (obj, val): (Option<u128>, Option<String>) = match o {
        Some(name) => match object_id {
            Some(id) => (Some(id), v),
            None => (
                None,
                match v {
                    Some(x) => Some(x),
                    None => Some(name),
                },
            ),
        },
        None => (None, v),
    };
    match (obj, val) {
        (Some(id), _) => if id == subject {
            Err(StatementDrop::OwnSubject)
        } else {
            Ok(Target::Entity(id))
        },
        (None, Some(x)) => Ok(Target::Value(x)),
        (None, None) => Err(StatementDrop::NoObject),
    }
}

/// Whether a document's date may date its statements: only a date read from
/// its content or given by its source.
pub fn dated_at(time_source: &str, doc_time: Option<crate::dates::Instant>) -> (r: Option<crate::dates::Instant>)
    ensures
        (time_source@ == "content"@ || time_source@ == "source"@) ==> r == doc_time,
        !(time_source@ == "content"@ || time_source@ == "source"@) ==> r is None,
{
    if crate::text::str_eq(time_source, "content") || crate::text::str_eq(time_source, "source") {
        doc_time
    } else {
        None
    }
}

/// A qualifier of a statement: its role and text, both trimmed and not blank;
/// the text points at a listed thing when it names one, else it is a value.
pub fn qualifier(
    local: &Vec<(String, u128)>,
    known: &Vec<(String, u128)>,
    role: &str,
    text: &str,
) -> (r: Option<(String, Target)>)
    ensures
        (trim_seq(role@).len() == 0 || trim_seq(text@).len() == 0) ==> r is None,
        (trim_seq(role@).len() > 0 && trim_seq(text@).len() > 0) ==> (r matches Some((ro, t))
            && ro@ == trim_seq(role@) && match resolved(local@, known@, trim_seq(text@)) {
            Some(id) => t matches Target::Entity(e) && e == id,
            None => t matches Target::Value(v) && v@ == trim_seq(text@),
        }),
{
    let ro = crate::text::trim_str(role);
    let tx = crate::text::trim_str(text);
    if ro.unicode_len() == 0 || tx.unicode_len() == 0 {
        return None;
    }
    match resolve_name(local, known, tx.as_str()) {
        Some(id) => Some((ro, Target::Entity(id))),
        None => Some((ro, Target::Value(tx))),
    }
}
/// Why a statement of the open graph is noted as dropped, or as kept short of
/// what it said.
#[derive(Clone, Copy, Debug, PartialEq, Eq, Structural)]
pub enum OpenDrop {
    /// Its subject is not a listed thing: the statement is dropped.
    UnknownSubject,
    /// Its object is not a listed thing: it is kept, with the object as a value.
    ObjectUndeclared,
    /// It points at its own subject: dropped.
    OwnSubject,
    /// It has neither an object nor a value: dropped.
    NoObject,
    /// Its quote is not in the chunk verbatim: kept, without offsets.
    QuoteNotInChunk,
    /// A time mention's words are not in the statement's own sentence: the
    /// mention is not recorded.
    TimeNotInQuote,
    /// An extra name's thing is not a listed thing.
    NameOfUnknownThing,
    /// An extra name is not in the chunk.
    NameNotInText,
    /// An extra name is already another thing's name.
    NameClaimedByAnother,
    /// The reply was cut off; what came before the cut is kept.
    TruncatedReply,
}

pub open spec fn open_drop_text(d: OpenDrop) -> Seq<char> {
    match d {
        OpenDrop::UnknownSubject => "a statement's subject is not a listed thing"@,
        OpenDrop::ObjectUndeclared => "a statement's object is not a listed thing; written as a value"@,
        OpenDrop::OwnSubject => "a statement points at its own subject"@,
        OpenDrop::NoObject => "a statement has neither an object nor a value"@,
        OpenDrop::QuoteNotInChunk => "a quoted sentence is not in the chunk verbatim"@,
        OpenDrop::TimeNotInQuote => "a time mention's words are not in the statement's own sentence"@,
        OpenDrop::NameOfUnknownThing => "a name's thing is not a listed thing"@,
        OpenDrop::NameNotInText => "an extra name is not in the chunk"@,
        OpenDrop::NameClaimedByAnother => "an extra name is already another thing's name"@,
        OpenDrop::TruncatedReply => "the open reply was cut off; kept up to the last complete item"@,
    }
}

/// The detail a drop is recorded with.
pub fn open_drop_detail(d: OpenDrop) -> (r: &'static str)
    ensures
        r@ == open_drop_text(d),
{
    match d {
        OpenDrop::UnknownSubject => "a statement's subject is not a listed thing",
        OpenDrop::ObjectUndeclared => "a statement's object is not a listed thing; written as a value",
        OpenDrop::OwnSubject => "a statement points at its own subject",
        OpenDrop::NoObject => "a statement has neither an object nor a value",
        OpenDrop::QuoteNotInChunk => "a quoted sentence is not in the chunk verbatim",
        OpenDrop::TimeNotInQuote => "a time mention's words are not in the statement's own sentence",
        OpenDrop::NameOfUnknownThing => "a name's thing is not a listed thing",
        OpenDrop::NameNotInText => "an extra name is not in the chunk",
        OpenDrop::NameClaimedByAnother => "an extra name is already another thing's name",
        OpenDrop::TruncatedReply => "the open reply was cut off; kept up to the last complete item",
    }
}

/// The drop a statement's shape gives, from `statement_target`.
pub fn target_drop(d: StatementDrop) -> (r: OpenDrop)
    ensures
        d == StatementDrop::OwnSubject ==> r == OpenDrop::OwnSubject,
        d == StatementDrop::NoObject ==> r == OpenDrop::NoObject,
{
    match d {
        StatementDrop::OwnSubject => OpenDrop::OwnSubject,
        StatementDrop::NoObject => OpenDrop::NoObject,
    }
}

/// A quote is noted as not found when one was given (not blank) and it does
/// not stand in the chunk.
pub fn quote_missing(chunk: &str, quote: Option<&str>) -> (r: bool)
    requires
        chunk@.len() <= i32::MAX,
    ensures
        r == match quote {
            Some(q) => trim_seq(q@).len() > 0 && located(chunk@, q@) is None,
            None => false,
        },
{
    match quote {
        Some(q) => trim_str(q).unicode_len() > 0 && locate(chunk, q).is_none(),
        None => false,
    }
}

/// The quote a statement's evidence carries: its trimmed text when it gave one
/// that is not blank, with where it stands in the chunk (none when it is not
/// there verbatim).
pub fn evidence_quote(chunk: &str, quote: Option<&str>) -> (r: Option<(String, Option<(i32, i32)>)>)
    requires
        chunk@.len() <= i32::MAX,
    ensures
        match quote {
            None => r is None,
            Some(q) => if trim_seq(q@).len() == 0 {
                r is None
            } else {
                r matches Some((t, span)) && t@ == trim_seq(q@) && span == match located(chunk@, trim_seq(q@)) {
                    Some((a, b)) => Some((a as i32, b as i32)),
                    None => None,
                }
            },
        },
{
    match quote {
        None => None,
        Some(q) => {
            let t = trim_str(q);
            if t.unicode_len() == 0 {
                None
            } else {
                let span = locate(chunk, t.as_str());
                Some((t, span))
            }
        },
    }
}

/// The time words a statement gives, its start and then its end, each trimmed
/// and only when not blank.
pub open spec fn time_words_of(when: Option<Seq<char>>, ended: Option<Seq<char>>) -> Seq<Seq<char>> {
    let one = |w: Option<Seq<char>>| match w {
        Some(x) => if trim_seq(x).len() > 0 {
            seq![trim_seq(x)]
        } else {
            Seq::<Seq<char>>::empty()
        },
        None => Seq::<Seq<char>>::empty(),
    };
    one(when) + one(ended)
}

pub fn time_words(when: Option<&str>, ended: Option<&str>) -> (r: Vec<String>)
    ensures
        r@.map_values(|s: String| s@) == time_words_of(
            match when {
                Some(w) => Some(w@),
                None => None,
            },
            match ended {
                Some(w) => Some(w@),
                None => None,
            },
        ),
{
    let mut out: Vec<String> = Vec::new();
    let ghost w0 = match when {
        Some(w) => Some(w@),
        None => None::<Seq<char>>,
    };
    let ghost e0 = match ended {
        Some(w) => Some(w@),
        None => None::<Seq<char>>,
    };
    if let Some(w) = when {
        let t = trim_str(w);
        if t.unicode_len() > 0 {
            out.push(t);
        }
    }
    let ghost mid = out@.map_values(|s: String| s@);
    if let Some(w) = ended {
        let t = trim_str(w);
        if t.unicode_len() > 0 {
            let ghost tv = t@;
            out.push(t);
            proof {
                assert(out@.map_values(|s: String| s@) =~= mid.push(tv));
            }
        }
    }
    proof {
        let one = |w: Option<Seq<char>>| match w {
            Some(x) => if trim_seq(x).len() > 0 {
                seq![trim_seq(x)]
            } else {
                Seq::<Seq<char>>::empty()
            },
            None => Seq::<Seq<char>>::empty(),
        };
        assert(mid =~= one(w0));
        assert(out@.map_values(|s: String| s@) =~= one(w0) + one(e0));
    }
    out
}

/// The detail of a reply with malformed items: `{n} items in the open reply
/// were malformed`.
pub fn malformed_detail(n: u64) -> (r: String)
    ensures
        r@ == crate::chat::decimal_text(n as nat) + " items in the open reply were malformed"@,
{
    let mut out = crate::chat::decimal(n);
    let mut rest = chars_of(" items in the open reply were malformed");
    let ghost (a, b) = (out@, rest@);
    out.append(&mut rest);
    proof {
        assert(out@ =~= a + b);
    }
    string_of(&out)
}

/// How an open-graph run ends.
#[derive(Debug, PartialEq, Eq)]
pub enum OpenFinish {
    /// A newer run took the document over: leave quietly.
    Superseded,
    /// Some chunks could not be read (their positions): the run fails and the
    /// document is not marked done.
    Incomplete(Vec<i32>),
    /// The document is done. Governance is enqueued when the knowledge base
    /// governs itself and there is something to govern; else adjudication
    /// when grey-zone pairs were queued; the review queue is told when either
    /// kind of item was found.
    Done { govern: bool, adjudicate: bool, notify_review: bool },
}

pub fn open_finish(
    stored_epoch: i64,
    my_epoch: i64,
    unextracted: Vec<i32>,
    governance: bool,
    needs_adjudication: bool,
    human_reviews_found: bool,
) -> (r: OpenFinish)
    ensures
        stored_epoch != my_epoch ==> r == OpenFinish::Superseded,
        stored_epoch == my_epoch && unextracted@.len() > 0 ==> (r matches OpenFinish::Incomplete(v)
            && v@ == unextracted@),
        stored_epoch == my_epoch && unextracted@.len() == 0 ==> r == (OpenFinish::Done {
            govern: governance && (needs_adjudication || human_reviews_found),
            adjudicate: !governance && needs_adjudication,
            notify_review: needs_adjudication || human_reviews_found,
        }),
{
    if stored_epoch != my_epoch {
        return OpenFinish::Superseded;
    }
    if unextracted.len() > 0 {
        return OpenFinish::Incomplete(unextracted);
    }
    OpenFinish::Done {
        govern: governance && (needs_adjudication || human_reviews_found),
        adjudicate: !governance && needs_adjudication,
        notify_review: needs_adjudication || human_reviews_found,
    }
}

} // verus!
