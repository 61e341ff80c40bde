//! Feeds: what a feed's entries become, each a page stored under a key. The
//! parsing is feed-rs's; which entries are read, and the key, name, page and
//! time of each, are decided here.
use vstd::prelude::*;
use crate::dates::Instant;
use crate::ingest::{
    byte_prefix, checked_entry_filename, clean_cut, entry_html, entry_key, entry_key_of, entry_page,
    title_stem, MAX_NEW_PER_SYNC,
};
use crate::paging::opt_view;
use crate::text::{chars_of, string_of};

verus! {

/// A feed entry, as far as it is read: its id, the text of its title, the
/// address of its first link, the body of its content, the text of its
/// summary, and when it was published and updated.
#[derive(Debug)]
pub struct FeedEntry {
    pub id: String,
    pub title: Option<String>,
    pub link: Option<String>,
    pub content: Option<String>,
    pub summary: Option<String>,
    pub published: Option<Instant>,
    pub updated: Option<Instant>,
}

/// An entry's fields other than its id: title, link, content, summary, and
/// when it was published and updated.
pub open spec fn entry_parts(e: FeedEntry) -> (
    Option<Seq<char>>,
    Option<Seq<char>>,
    Option<Seq<char>>,
    Option<Seq<char>>,
    Option<Instant>,
    Option<Instant>,
) {
    (opt_view(e.title), opt_view(e.link), opt_view(e.content), opt_view(e.summary), e.published, e.updated)
}

/// What feed-rs reads from a feed's bytes, entry by entry, apart from the
/// ids: `None` when the bytes are not a feed it accepts. Only an id can be
/// drawn at random (for an entry with no id, link or base address), so this
/// is a function of the bytes alone.
pub uninterp spec fn feed_parts(bytes: Seq<u8>) -> Option<
    Seq<(Option<Seq<char>>, Option<Seq<char>>, Option<Seq<char>>, Option<Seq<char>>, Option<Instant>, Option<Instant>)>,
>;

/// `feed_rs::parser::parse`, each entry read field by field. What it gives
/// apart from the ids is named by `feed_parts`; the ids are not stated, nor
/// the wording of the error.
#[verifier::external_body]
fn parse_feed(bytes: &[u8]) -> (r: Result<Vec<FeedEntry>, String>)
    ensures
        match r {
            Ok(v) => feed_parts(bytes@) == Some(v@.map_values(|e: FeedEntry| entry_parts(e))),
            Err(_) => feed_parts(bytes@) is None,
        },
{
    let feed = feed_rs::parser::parse(bytes).map_err(|e| e.to_string())?;
    let at = |t: chrono::DateTime<chrono::Utc>| Instant { secs: t.timestamp(), nanos: t.timestamp_subsec_nanos() };
    Ok(feed.entries.into_iter().map(|e| FeedEntry {
        id: e.id,
        title: e.title.map(|t| t.content),
        link: e.links.into_iter().next().map(|l| l.href),
        content: e.content.and_then(|c| c.body),
        summary: e.summary.map(|s| s.content),
        published: e.published.map(at),
        updated: e.updated.map(at),
    }).collect())
}

/// What a feed entry is stored as.
#[derive(Debug)]
pub struct FeedItem {
    /// Its key: the id, else the link, else `entry:` and the title's SHA-256.
    pub key: String,
    /// Its file name: the title stem cut to 80 bytes with `.html`; `None`
    /// where that cut would fall inside a character.
    pub filename: Option<String>,
    /// The page: title, link, then the body.
    pub page: String,
    /// The document's time: when it was published, else updated.
    pub time: Option<Instant>,
}

pub open spec fn title_or_untitled(e: FeedEntry) -> Seq<char> {
    match e.title {
        Some(t) => t@,
        None => "untitled"@,
    }
}

pub open spec fn link_or_empty(e: FeedEntry) -> Seq<char> {
    match e.link {
        Some(l) => l@,
        None => Seq::empty(),
    }
}

/// The body of an entry: its content's body, else its summary, else nothing.
pub open spec fn body_of(e: FeedEntry) -> Seq<char> {
    match e.content {
        Some(c) => c@,
        None => match e.summary {
            Some(s) => s@,
            None => Seq::empty(),
        },
    }
}

/// What one entry is stored as.
pub open spec fn item_of(e: FeedEntry, it: FeedItem) -> bool {
    let title = title_or_untitled(e);
    &&& it.key@ == entry_key_of(e.id@, link_or_empty(e), title)
    &&& opt_view(it.filename) == if clean_cut(title_stem(title), 80) {
        Some(byte_prefix(title_stem(title), 80) + ".html"@)
    } else {
        None
    }
    &&& it.page@ == entry_page(title, link_or_empty(e), body_of(e))
    &&& it.time == match e.published {
        Some(t) => Some(t),
        None => e.updated,
    }
}

fn item(e: &FeedEntry) -> (r: FeedItem)
    ensures
        item_of(*e, r),
{
    let title: String = match &e.title {
        Some(t) => string_of(&chars_of(t.as_str())),
        None => string_of(&chars_of("untitled")),
    };
    let link: String = match &e.link {
        Some(l) => string_of(&chars_of(l.as_str())),
        None => string_of(&Vec::new()),
    };
    let body: String = match &e.content {
        Some(c) => string_of(&chars_of(c.as_str())),
        None => match &e.summary {
            Some(s) => string_of(&chars_of(s.as_str())),
            None => string_of(&Vec::new()),
        },
    };
    let time = match e.published {
        Some(t) => Some(t),
        None => e.updated,
    };
    FeedItem {
        key: entry_key(e.id.as_str(), link.as_str(), title.as_str()),
        filename: checked_entry_filename(title.as_str()),
        page: entry_html(title.as_str(), link.as_str(), body.as_str()),
        time,
    }
}

/// The items are what the first entries read (at most `MAX_NEW_PER_SYNC`) are
/// stored as.
pub open spec fn items_from(es: Seq<FeedEntry>, v: Seq<FeedItem>) -> bool {
    &&& v.len() == if es.len() < MAX_NEW_PER_SYNC { es.len() } else { MAX_NEW_PER_SYNC as nat }
    &&& forall|i: int| 0 <= i < v.len() ==> item_of(es[i], #[trigger] v[i])
}

/// The entries a sync reads: only the first `MAX_NEW_PER_SYNC`, each as it is
/// stored.
pub fn feed_items(entries: &Vec<FeedEntry>) -> (r: Vec<FeedItem>)
    ensures
        r@.len() == if entries@.len() < MAX_NEW_PER_SYNC { entries@.len() } else { MAX_NEW_PER_SYNC as nat },
        forall|i: int| 0 <= i < r@.len() ==> item_of(entries@[i], #[trigger] r@[i]),
{
    let n = if entries.len() < MAX_NEW_PER_SYNC { entries.len() } else { MAX_NEW_PER_SYNC };
    let mut out: Vec<FeedItem> = Vec::new();
    let mut i: usize = 0;
    while i < n
        invariant
            i <= n,
            n <= entries@.len(),
            out@.len() == i,
            forall|j: int| 0 <= j < i ==> item_of(entries@[j], #[trigger] out@[j]),
        decreases n - i,
    {
        out.push(item(&entries[i]));
        i = i + 1;
    }
    out
}

/// A sync's reading of a fetched feed: the bytes parsed, then its first
/// entries as they are stored (given beside the entries read); a feed that
/// does not parse is the error `Failed to parse feed: ...`.
pub fn read_feed(bytes: &[u8]) -> (r: Result<(Vec<FeedEntry>, Vec<FeedItem>), String>)
    ensures
        match r {
            Ok((es, v)) => feed_parts(bytes@) == Some(es@.map_values(|e: FeedEntry| entry_parts(e)))
                && items_from(es@, v@),
            Err(m) => feed_parts(bytes@) is None && exists|rest: Seq<char>| m@ == "Failed to parse feed: "@
                + rest,
        },
{
    match parse_feed(bytes) {
        Ok(entries) => {
            let v = feed_items(&entries);
            Ok((entries, v))
        },
        Err(e) => {
            let mut m = chars_of("Failed to parse feed: ");
            let mut rest = chars_of(e.as_str());
            let ghost (a, b) = (m@, rest@);
            m.append(&mut rest);
            proof {
                assert(m@ =~= a + b);
            }
            Err(string_of(&m))
        },
    }
}

} // verus!
