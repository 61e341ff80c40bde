//! Pulling sources in: what one item's ingest amounts to, how a sync's tally is
//! kept, and the names and keys fetched pages, feed entries and pushed items
//! are stored under. The fetching and the store calls are the caller's.
use vstd::prelude::*;
use crate::documents::{hex, hex_of, sha256_of};
use crate::paging::opt_view;
use crate::text::{chars_of, has_char, str_eq, string_of, trim_seq, trim_str, char_utf8_len, utf8_len};

verus! {

/// At most this many items are taken in per sync.
pub const MAX_NEW_PER_SYNC: usize = 200;

/// What ingesting one item did.
#[derive(Clone, Copy, Debug, PartialEq, Eq, Structural)]
pub enum IngestAction {
    Created,
    Updated,
    Moved,
    Unchanged,
    Tombstoned,
}

/// A sync's tally: how many documents it created and how many it updated.
#[derive(Clone, Copy)]
pub struct SyncStats {
    pub created: usize,
    pub updated: usize,
}

impl SyncStats {
    pub fn new() -> (s: Self)
        ensures
            s.created == 0,
            s.updated == 0,
    {
        SyncStats { created: 0, updated: 0 }
    }

    /// Counts one item's action: a creation or an update; the rest count for
    /// nothing.
    pub fn absorb(&mut self, action: IngestAction)
        requires
            old(self).created < usize::MAX,
            old(self).updated < usize::MAX,
        ensures
            final(self).created == old(self).created + if action == IngestAction::Created {
                1int
            } else {
                0int
            },
            final(self).updated == old(self).updated + if action == IngestAction::Updated {
                1int
            } else {
                0int
            },
            final(self).created + final(self).updated == old(self).created + old(self).updated
                + if action == IngestAction::Created || action == IngestAction::Updated {
                1int
            } else {
                0int
            },
    {
        match action {
            IngestAction::Created => self.created = self.created + 1,
            IngestAction::Updated => self.updated = self.updated + 1,
            _ => {},
        }
    }

    /// Everything the sync changed.
    pub fn total(&self) -> (t: usize)
        requires
            self.created + self.updated <= usize::MAX,
        ensures
            t == self.created + self.updated,
    {
        self.created + self.updated
    }
}

/// What an item comes to once the store has been asked about it. An empty
/// item changes nothing. An item whose key is already known is unchanged when
/// its bytes are the same and an update otherwise. An unknown key whose bytes
/// the source already holds under another key is that document moved. The
/// rest is a new document, unless the store finds it a duplicate.
pub open spec fn item_action(
    empty: bool,
    known_sha: Option<Seq<char>>,
    sha: Seq<char>,
    same_bytes_elsewhere: bool,
    duplicate: bool,
) -> IngestAction {
    if empty {
        IngestAction::Unchanged
    } else {
        match known_sha {
            Some(k) => if k == sha {
                IngestAction::Unchanged
            } else {
                IngestAction::Updated
            },
            None => if same_bytes_elsewhere {
                IngestAction::Moved
            } else if duplicate {
                IngestAction::Unchanged
            } else {
                IngestAction::Created
            },
        }
    }
}

pub fn decide_item(
    empty: bool,
    known_sha: Option<&str>,
    sha: &str,
    same_bytes_elsewhere: bool,
    duplicate: bool,
) -> (r: IngestAction)
    ensures
        r == item_action(
            empty,
            match known_sha {
                Some(k) => Some(k@),
                None => None,
            },
            sha@,
            same_bytes_elsewhere,
            duplicate,
        ),
{
    if empty {
        return IngestAction::Unchanged;
    }
    match known_sha {
        Some(k) => if str_eq(k, sha) {
            IngestAction::Unchanged
        } else {
            IngestAction::Updated
        },
        None => if same_bytes_elsewhere {
            IngestAction::Moved
        } else if duplicate {
            IngestAction::Unchanged
        } else {
            IngestAction::Created
        },
    }
}

/// Taking the same content in again under a key the store already holds it
/// under (with that content's address) decides "unchanged", whatever else the
/// store reports: a created, updated or moved item, ingested a second time,
/// writes nothing.
pub proof fn law_same_content_again_is_unchanged(
    empty: bool,
    sha: Seq<char>,
    same_bytes_elsewhere: bool,
    duplicate: bool,
)
    ensures
        item_action(empty, Some(sha), sha, same_bytes_elsewhere, duplicate) == IngestAction::Unchanged,
{
}

/// The address content is stored under: the hex SHA-256 of its bytes.
pub fn sha_hex(bytes: &[u8]) -> (s: String)
    ensures
        s@ == hex_of(sha256_of(bytes@)),
{
    let d = crate::documents::sha256_digest(bytes);
    hex(d.as_slice())
}

// ---------------------------------------------------------------------------
// Byte-length truncation
// ---------------------------------------------------------------------------

/// How many leading characters fit in `n` bytes, counting on from `i`.
pub open spec fn fit_from(s: Seq<char>, n: nat, i: int) -> int
    decreases s.len() - i,
{
    if 0 <= i < s.len() && utf8_len(s.take(i + 1)) <= n {
        fit_from(s, n, i + 1)
    } else {
        i
    }
}

/// The longest prefix of `s` that fits in `n` bytes.
pub open spec fn byte_prefix(s: Seq<char>, n: nat) -> Seq<char> {
    s.take(fit_from(s, n, 0))
}

/// Cutting `s` at `n` bytes does not fall inside a character (`String::truncate`
/// panics when it would).
pub open spec fn clean_cut(s: Seq<char>, n: nat) -> bool {
    utf8_len(s) <= n || utf8_len(byte_prefix(s, n)) == n
}

fn char_width(c: char) -> (w: usize)
    ensures
        w == char_utf8_len(c),
{
    if (c as u32) < 0x80 {
        1
    } else if (c as u32) < 0x800 {
        2
    } else if (c as u32) < 0x10000 {
        3
    } else {
        4
    }
}

/// The longest prefix of `v` that fits in `n` bytes.
pub fn take_bytes(v: &Vec<char>, n: usize) -> (r: Vec<char>)
    ensures
        r@ == byte_prefix(v@, n as nat),
{
    let mut i: usize = 0;
    let mut acc: usize = 0;
    proof {
        assert(v@.take(0) =~= Seq::<char>::empty());
    }
    while i < v.len()
        invariant
            i <= v@.len(),
            acc == utf8_len(v@.take(i as int)),
            acc <= n,
            fit_from(v@, n as nat, 0) == fit_from(v@, n as nat, i as int),
        ensures
            i <= v@.len(),
            fit_from(v@, n as nat, 0) == i,
        decreases v.len() - i,
    {
        let w = char_width(v[i]);
        proof {
            assert(v@.take(i + 1).drop_last() =~= v@.take(i as int));
        }
        if w > n - acc {
            break;
        }
        acc = acc + w;
        i = i + 1;
    }
    crate::text::slice_chars(v, 0, i)
}

// ---------------------------------------------------------------------------
// Names
// ---------------------------------------------------------------------------

/// Whether a character is alphabetic or numeric in Unicode's sense (what
/// `char::is_alphanumeric` answers); a function of the character alone.
pub uninterp spec fn alphanumeric(c: char) -> bool;

/// `char::is_alphanumeric`.
#[verifier::external_body]
fn is_alnum(c: char) -> (r: bool)
    ensures
        r == alphanumeric(c),
{
    c.is_alphanumeric()
}

/// `s` with every leading copy of `p` removed (`str::trim_start_matches`).
pub open spec fn strip_leading(s: Seq<char>, p: Seq<char>) -> Seq<char>
    decreases s.len(),
{
    if p.len() > 0 && p.len() <= s.len() && s.take(p.len() as int) == p {
        strip_leading(s.skip(p.len() as int), p)
    } else {
        s
    }
}

/// `s` with every trailing `/` removed.
pub open spec fn strip_slashes(s: Seq<char>) -> Seq<char>
    decreases s.len(),
{
    if s.len() > 0 && s.last() == '/' {
        strip_slashes(s.drop_last())
    } else {
        s
    }
}

pub(crate) fn drop_leading(s: &Vec<char>, p: &Vec<char>) -> (r: Vec<char>)
    requires
        p@.len() > 0,
    ensures
        r@ == strip_leading(s@, p@),
{
    let mut cur = s.clone();
    proof {
        assert(cur@ =~= s@);
    }
    while p.len() <= cur.len() && crate::search::starts_with_chars(&cur, p)
        invariant
            p@.len() > 0,
            strip_leading(s@, p@) == strip_leading(cur@, p@),
        decreases cur@.len(),
    {
        let n = cur.len();
        proof {
            assert(cur@.take(p@.len() as int) =~= p@);
        }
        cur = crate::text::slice_chars(&cur, p.len(), n);
    }
    proof {
        if p@.len() <= cur@.len() && cur@.take(p@.len() as int) == p@ {
            assert(crate::search::starts_with(cur@, p@));
        }
    }
    cur
}

fn drop_slashes(s: &Vec<char>) -> (r: Vec<char>)
    ensures
        r@ == strip_slashes(s@),
{
    let mut n = s.len();
    proof {
        assert(s@.take(n as int) =~= s@);
    }
    while n > 0 && s[n - 1] == '/'
        invariant
            n <= s@.len(),
            strip_slashes(s@) == strip_slashes(s@.take(n as int)),
        decreases n,
    {
        proof {
            assert(s@.take(n as int).drop_last() =~= s@.take(n - 1));
        }
        n = n - 1;
    }
    crate::text::slice_chars(s, 0, n)
}

/// A URL as a file-name stem: the scheme (`https://`, `http://`) and trailing
/// slashes dropped, and every character that is not alphanumeric, `.` or `-`
/// turned into `-`.
pub open spec fn url_stem(url: Seq<char>) -> Seq<char> {
    let s = strip_slashes(strip_leading(strip_leading(url, "https://"@), "http://"@));
    Seq::new(
        s.len(),
        |i: int|
            if alphanumeric(s[i]) || s[i] == '.' || s[i] == '-' {
                s[i]
            } else {
                '-'
            },
    )
}

pub fn url_slug(url: &str) -> (r: Vec<char>)
    ensures
        r@ == url_stem(url@),
{
    let u = chars_of(url);
    let https = chars_of("https://");
    let http = chars_of("http://");
    proof {
        reveal_strlit("https://");
        reveal_strlit("http://");
    }
    let a = drop_leading(&u, &https);
    let b = drop_leading(&a, &http);
    let s = drop_slashes(&b);
    let mut out: Vec<char> = Vec::new();
    let mut i: usize = 0;
    while i < s.len()
        invariant
            i <= s@.len(),
            s@ == strip_slashes(strip_leading(strip_leading(u@, "https://"@), "http://"@)),
            u@ == url@,
            out@ == url_stem(url@).take(i as int),
            url_stem(url@).len() == s@.len(),
        decreases s.len() - i,
    {
        let c = s[i];
        let keep = is_alnum(c) || c == '.' || c == '-';
        out.push(if keep { c } else { '-' });
        proof {
            assert(out@ =~= url_stem(url@).take(i + 1));
        }
        i = i + 1;
    }
    proof {
        assert(out@ =~= url_stem(url@));
    }
    out
}

/// The text after the last `.` (all of it when there is none).
pub open spec fn after_last_dot(s: Seq<char>) -> Seq<char> {
    if exists|i: int| 0 <= i < s.len() && s[i] == '.' {
        let i = choose|i: int|
            0 <= i < s.len() && s[i] == '.' && forall|j: int| i < j < s.len() ==> s[j] != '.';
        s.skip(i + 1)
    } else {
        s
    }
}

pub(crate) fn last_segment(s: &Vec<char>) -> (r: Vec<char>)
    ensures
        r@ == after_last_dot(s@),
{
    let n = s.len();
    let mut i = n;
    while i > 0
        invariant
            i <= s@.len(),
            n == s@.len(),
            forall|j: int| i <= j < s@.len() ==> s@[j] != '.',
        decreases i,
    {
        if s[i - 1] == '.' {
            let k = i - 1;
            proof {
                let c = choose|c: int|
                    0 <= c < s@.len() && s@[c] == '.' && forall|j: int|
                        c < j < s@.len() ==> s@[j] != '.';
                if c < k {
                    assert(s@[k as int] == '.');
                } else if c > k {
                    assert(s@[c] != '.');
                }
                assert(s@.skip(k + 1) =~= s@.subrange(k + 1, n as int));
            }
            return crate::text::slice_chars(s, k + 1, n);
        }
        i = i - 1;
    }
    proof {
        assert(s@.subrange(0, n as int) =~= s@);
    }
    crate::text::slice_chars(s, 0, n)
}

fn has_dot(s: &Vec<char>) -> (r: bool)
    ensures
        r == s@.contains('.'),
{
    let mut i: usize = 0;
    while i < s.len()
        invariant
            i <= s@.len(),
            forall|j: int| 0 <= j < i ==> s@[j] != '.',
        decreases s.len() - i,
    {
        if s[i] == '.' {
            return true;
        }
        i = i + 1;
    }
    false
}

fn bytes_of(s: &Vec<char>, limit: usize) -> (r: bool)
    requires
        limit <= 0x1000_0000,
    ensures
        r == (utf8_len(s@) <= limit),
{
    crate::text::utf8_len_within(string_of(s).as_str(), limit)
}

/// The name a fetched page is stored under: the URL's stem cut to 120 bytes,
/// with `.html` added unless it already ends in a short extension (at most
/// five bytes after its last dot) and the page is not HTML.
pub open spec fn page_name(url: Seq<char>, mime: Seq<char>) -> Seq<char> {
    let slug = byte_prefix(url_stem(url), 120);
    let has_ext = utf8_len(after_last_dot(slug)) <= 5 && slug.contains('.') && !(slug.len() > 0
        && slug.last() == '.');
    if !has_ext || crate::search::contains_seq(mime, "html"@) {
        slug + ".html"@
    } else {
        slug
    }
}

pub fn filename_from_url(url: &str, mime: &str) -> (r: String)
    requires
        clean_cut(url_stem(url@), 120),
    ensures
        r@ == page_name(url@, mime@),
{
    let stem = url_slug(url);
    let slug = take_bytes(&stem, 120);
    let last = last_segment(&slug);
    let n = slug.len();
    let has_ext = bytes_of(&last, 5) && has_dot(&slug) && !(n > 0 && slug[n - 1] == '.');
    let html = chars_of("html");
    let m = chars_of(mime);
    if !has_ext || crate::search::contains_chars(&m, &html) {
        let mut out = slug.clone();
        let mut ext = chars_of(".html");
        let ghost a = out@;
        let ghost b = ext@;
        out.append(&mut ext);
        proof {
            assert(out@ =~= a + b);
        }
        string_of(&out)
    } else {
        string_of(&slug)
    }
}

/// The stored name of a fetched page where the URL's stem can be cut at 120
/// bytes without splitting a character, and `None` where the cut would fall
/// inside one.
pub fn checked_filename_from_url(url: &str, mime: &str) -> (r: Option<String>)
    ensures
        r is Some <==> clean_cut(url_stem(url@), 120),
        r matches Some(name) ==> name@ == page_name(url@, mime@),
{
    let stem = url_slug(url);
    let cut = take_bytes(&stem, 120);
    let clean = bytes_of(&stem, 120) || (bytes_of(&cut, 120) && !bytes_of(&cut, 119));
    if clean {
        Some(filename_from_url(url, mime))
    } else {
        None
    }
}

/// The name a pushed item is stored under: its title when that already ends in
/// an extension (two to five bytes after the last dot, no space in them),
/// else the title with `.html`, `.txt` or `.md` by its MIME type.
pub open spec fn item_name(title: Seq<char>, mime: Seq<char>) -> Seq<char> {
    let e = after_last_dot(title);
    let has_ext = utf8_len(e) <= 5 && utf8_len(e) >= 2 && !e.contains(' ') && title.contains('.');
    if has_ext {
        title
    } else {
        let ext = if crate::search::contains_seq(mime, "html"@) {
            "html"@
        } else if crate::search::contains_seq(mime, "plain"@) {
            "txt"@
        } else {
            "md"@
        };
        title + "."@ + ext
    }
}

pub fn ensure_extension(title: &str, mime: &str) -> (r: String)
    ensures
        r@ == item_name(title@, mime@),
{
    let t = chars_of(title);
    let e = last_segment(&t);
    let long_enough = !bytes_of(&e, 1);
    let has_ext = bytes_of(&e, 5) && long_enough && !has_char(string_of(&e).as_str(), ' ')
        && has_dot(&t);
    if has_ext {
        return string_of(&t);
    }
    let m = chars_of(mime);
    let ext: &str = if crate::search::contains_chars(&m, &chars_of("html")) {
        "html"
    } else if crate::search::contains_chars(&m, &chars_of("plain")) {
        "txt"
    } else {
        "md"
    };
    let mut out = t.clone();
    let mut dot = vec!['.'];
    let mut x = chars_of(ext);
    let ghost a = out@;
    let ghost b = dot@;
    let ghost c = x@;
    out.append(&mut dot);
    out.append(&mut x);
    proof {
        reveal_strlit(".");
        assert(b =~= "."@);
        assert(out@ =~= a + b + c);
    }
    string_of(&out)
}

// ---------------------------------------------------------------------------
// Keys
// ---------------------------------------------------------------------------

/// What a pushed item must have, and what it is stored as.
pub struct CustomItem {
    /// `custom:{id}`
    pub key: String,
    pub filename: String,
    pub mime: String,
}

/// An item of a pull source: its id trimmed and not blank, and content that is
/// not blank; otherwise it is skipped. Its title defaults to the id, its MIME
/// type to `text/markdown`.
pub open spec fn custom_item_of(
    id: Option<Seq<char>>,
    content: Option<Seq<char>>,
    title: Option<Seq<char>>,
    mime: Option<Seq<char>>,
) -> Option<(Seq<char>, Seq<char>, Seq<char>)> {
    match (id, content) {
        (Some(i), Some(c)) => {
            let id = trim_seq(i);
            if id.len() == 0 || trim_seq(c).len() == 0 {
                None
            } else {
                Some(("custom:"@ + id, item_name(item_title(title, id), item_mime(mime)), item_mime(mime)))
            }
        },
        _ => None,
    }
}

fn prefixed(prefix: &str, s: &Vec<char>) -> (r: String)
    ensures
        r@ == prefix@ + s@,
{
    let mut out = chars_of(prefix);
    let mut rest = s.clone();
    let ghost a = out@;
    let ghost b = rest@;
    out.append(&mut rest);
    proof {
        assert(out@ =~= a + b);
    }
    string_of(&out)
}

/// A pushed item's title: its trimmed title when not blank, else its id.
pub open spec fn item_title(title: Option<Seq<char>>, id: Seq<char>) -> Seq<char> {
    match title {
        Some(t) => if trim_seq(t).len() > 0 {
            trim_seq(t)
        } else {
            id
        },
        None => id,
    }
}

/// A pushed item's MIME type: as given, `text/markdown` by default.
pub open spec fn item_mime(mime: Option<Seq<char>>) -> Seq<char> {
    match mime {
        Some(m) => m,
        None => "text/markdown"@,
    }
}

fn title_chars_of(title: Option<&str>, idt: &Vec<char>) -> (r: Vec<char>)
    ensures
        r@ == item_title(
            match title {
                Some(s) => Some(s@),
                None => None,
            },
            idt@,
        ),
{
    match title {
        Some(t) => {
            let tt = crate::text::trim_chars(&chars_of(t));
            if tt.len() > 0 {
                tt
            } else {
                idt.clone()
            }
        },
        None => idt.clone(),
    }
}

fn mime_text(mime: Option<&str>) -> (r: String)
    ensures
        r@ == item_mime(
            match mime {
                Some(s) => Some(s@),
                None => None,
            },
        ),
{
    match mime {
        Some(m) => string_of(&chars_of(m)),
        None => string_of(&chars_of("text/markdown")),
    }
}

pub fn custom_item(
    id: Option<&str>,
    content: Option<&str>,
    title: Option<&str>,
    mime: Option<&str>,
) -> (r: Option<CustomItem>)
    ensures
        match custom_item_of(
            match id {
                Some(s) => Some(s@),
                None => None,
            },
            match content {
                Some(s) => Some(s@),
                None => None,
            },
            match title {
                Some(s) => Some(s@),
                None => None,
            },
            match mime {
                Some(s) => Some(s@),
                None => None,
            },
        ) {
            None => r is None,
            Some((k, f, m)) => r matches Some(it) && it.key@ == k && it.filename@ == f
                && it.mime@ == m,
        },
{
    let (i, c) = match (id, content) {
        (Some(i), Some(c)) => (i, c),
        _ => return None,
    };
    let idt = crate::text::trim_chars(&chars_of(i));
    if idt.len() == 0 || trim_str(c).unicode_len() == 0 {
        return None;
    }
    let t = title_chars_of(title, &idt);
    let m = mime_text(mime);
    let filename = ensure_extension(string_of(&t).as_str(), m.as_str());
    Some(CustomItem { key: prefixed("custom:", &idt), filename, mime: m })
}

/// An item of a pull source's response, field by field as far as each is text.
pub struct RawItem {
    pub id: Option<String>,
    pub content: Option<String>,
    pub title: Option<String>,
    pub mime: Option<String>,
}

pub open spec fn custom_view(items: Seq<CustomItem>) -> Seq<(Seq<char>, Seq<char>, Seq<char>)> {
    items.map_values(|it: CustomItem| (it.key@, it.filename@, it.mime@))
}

/// Of the first `n` items, those that are taken in, in order.
pub open spec fn taken_upto(items: Seq<RawItem>, n: int) -> Seq<(Seq<char>, Seq<char>, Seq<char>)>
    decreases n,
{
    if n <= 0 {
        Seq::empty()
    } else {
        let before = taken_upto(items, n - 1);
        let it = items[n - 1];
        match custom_item_of(opt_view(it.id), opt_view(it.content), opt_view(it.title), opt_view(it.mime)) {
            Some(t) => before.push(t),
            None => before,
        }
    }
}

/// What one pull of a custom source takes in: only the first
/// `MAX_NEW_PER_SYNC` items are read, and of those the ones `custom_item`
/// keeps. Their keys are the ones a completed sync clears the missing mark of.
pub fn custom_batch(items: &Vec<RawItem>) -> (r: Vec<CustomItem>)
    ensures
        custom_view(r@) == taken_upto(
            items@,
            if items@.len() < MAX_NEW_PER_SYNC { items@.len() as int } else { MAX_NEW_PER_SYNC as int },
        ),
{
    let n = if items.len() < MAX_NEW_PER_SYNC { items.len() } else { MAX_NEW_PER_SYNC };
    let mut out: Vec<CustomItem> = Vec::new();
    let mut i: usize = 0;
    while i < n
        invariant
            i <= n,
            n <= items@.len(),
            custom_view(out@) == taken_upto(items@, i as int),
        decreases n - i,
    {
        let it = &items[i];
        let got = custom_item(
            opt_str(&it.id),
            opt_str(&it.content),
            opt_str(&it.title),
            opt_str(&it.mime),
        );
        match got {
            Some(c) => {
                let ghost before = out@;
                out.push(c);
                proof {
                    assert(custom_view(out@) =~= custom_view(before).push((c.key@, c.filename@, c.mime@)));
                }
            },
            None => {},
        }
        i = i + 1;
    }
    out
}

fn opt_str(o: &Option<String>) -> (r: Option<&str>)
    ensures
        match r {
            Some(s) => opt_view(*o) == Some(s@),
            None => o is None,
        },
{
    match o {
        Some(s) => Some(s.as_str()),
        None => None,
    }
}

/// The keys the explicit tombstones (`deleted[]`) of a pull mark missing.
pub fn tombstone_keys(deleted: &Vec<String>) -> (r: Vec<String>)
    ensures
        r@.len() == deleted@.len(),
        forall|i: int| 0 <= i < r@.len() ==> #[trigger] r@[i]@ == "custom:"@ + trim_seq(deleted@[i]@),
{
    let mut out: Vec<String> = Vec::new();
    let mut i: usize = 0;
    while i < deleted.len()
        invariant
            i <= deleted@.len(),
            out@.len() == i,
            forall|j: int| 0 <= j < i ==> #[trigger] out@[j]@ == "custom:"@ + trim_seq(deleted@[j]@),
        decreases deleted.len() - i,
    {
        out.push(tombstone_key(deleted[i].as_str()));
        i = i + 1;
    }
    out
}

/// A feed entry's title as a file-name stem: every character that is not
/// alphanumeric turned into `-`.
pub open spec fn title_stem(title: Seq<char>) -> Seq<char> {
    Seq::new(title.len(), |i: int| if alphanumeric(title[i]) { title[i] } else { '-' })
}

/// The name a feed entry is stored under: its title stem cut to 80 bytes, with
/// `.html`. The cut must not fall inside a character (`String::truncate`
/// panics when it would).
pub fn entry_filename(title: &str) -> (r: String)
    requires
        clean_cut(title_stem(title@), 80),
    ensures
        r@ == byte_prefix(title_stem(title@), 80) + ".html"@,
{
    let stem = title_chars(title);
    let mut cut = take_bytes(&stem, 80);
    let mut ext = chars_of(".html");
    let ghost (a, b) = (cut@, ext@);
    cut.append(&mut ext);
    proof {
        assert(cut@ =~= a + b);
    }
    string_of(&cut)
}

fn title_chars(title: &str) -> (r: Vec<char>)
    ensures
        r@ == title_stem(title@),
{
    let t = chars_of(title);
    let mut out: Vec<char> = Vec::new();
    let mut i: usize = 0;
    while i < t.len()
        invariant
            i <= t@.len(),
            t@ == title@,
            out@ =~= title_stem(title@).take(i as int),
        decreases t.len() - i,
    {
        let c = t[i];
        if is_alnum(c) {
            out.push(c);
        } else {
            out.push('-');
        }
        i = i + 1;
    }
    out
}

/// The stored name of a feed entry where its title stem can be cut at 80 bytes
/// without splitting a character, and `None` where the cut would fall inside
/// one.
pub fn checked_entry_filename(title: &str) -> (r: Option<String>)
    ensures
        r is Some <==> clean_cut(title_stem(title@), 80),
        r matches Some(name) ==> name@ == byte_prefix(title_stem(title@), 80) + ".html"@,
{
    let stem = title_chars(title);
    let cut = take_bytes(&stem, 80);
    let clean = bytes_of(&stem, 80) || (bytes_of(&cut, 80) && !bytes_of(&cut, 79));
    if clean {
        Some(entry_filename(title))
    } else {
        None
    }
}

/// The page a feed entry is stored as: its title as the page title and
/// heading, its link, then its body.
pub open spec fn entry_page(title: Seq<char>, link: Seq<char>, body: Seq<char>) -> Seq<char> {
    "<html><head><title>"@ + title + "</title></head><body><h1>"@ + title + "</h1>\n<p><a href=\""@
        + link + "\">"@ + link + "</a></p>\n"@ + body + "</body></html>"@
}

pub fn entry_html(title: &str, link: &str, body: &str) -> (r: String)
    ensures
        r@ == entry_page(title@, link@, body@),
{
    let parts: Vec<&str> = vec![
        "<html><head><title>",
        title,
        "</title></head><body><h1>",
        title,
        "</h1>\n<p><a href=\"",
        link,
        "\">",
        link,
        "</a></p>\n",
        body,
        "</body></html>",
    ];
    let mut out: Vec<char> = Vec::new();
    let mut i: usize = 0;
    while i < parts.len()
        invariant
            i <= parts@.len(),
            parts@.len() == 11,
            parts@[0]@ == "<html><head><title>"@,
            parts@[1]@ == title@,
            parts@[2]@ == "</title></head><body><h1>"@,
            parts@[3]@ == title@,
            parts@[4]@ == "</h1>\n<p><a href=\""@,
            parts@[5]@ == link@,
            parts@[6]@ == "\">"@,
            parts@[7]@ == link@,
            parts@[8]@ == "</a></p>\n"@,
            parts@[9]@ == body@,
            parts@[10]@ == "</body></html>"@,
            out@ == joined_parts(parts@.map_values(|p: &str| p@), i as int),
        decreases parts.len() - i,
    {
        let mut next = chars_of(parts[i]);
        let ghost before = out@;
        out.append(&mut next);
        proof {
            assert(out@ =~= before + parts@[i as int]@);
        }
        i = i + 1;
    }
    proof {
        let v = parts@.map_values(|p: &str| p@);
        reveal_with_fuel(joined_parts, 12);
        assert(joined_parts(v, 11) =~= entry_page(title@, link@, body@));
    }
    string_of(&out)
}

/// The first `n` texts, one after another.
pub open spec fn joined_parts(parts: Seq<Seq<char>>, n: int) -> Seq<char>
    decreases n,
{
    if n <= 0 {
        Seq::empty()
    } else {
        joined_parts(parts, n - 1) + parts[n - 1]
    }
}

/// The key a deleted item of a pull source is marked missing under.
pub fn tombstone_key(id: &str) -> (r: String)
    ensures
        r@ == "custom:"@ + trim_seq(id@),
{
    prefixed("custom:", &crate::text::trim_chars(&chars_of(id)))
}

/// The key of a feed entry: its id when not blank, else its link, else the
/// hex SHA-256 of its title after `entry:`.
pub open spec fn entry_key_of(id: Seq<char>, link: Seq<char>, title: Seq<char>) -> Seq<char> {
    if trim_seq(id).len() > 0 {
        trim_seq(id)
    } else if link.len() > 0 {
        link
    } else {
        "entry:"@ + hex_of(sha256_of(vstd::utf8::encode_utf8(title)))
    }
}

pub fn entry_key(id: &str, link: &str, title: &str) -> (r: String)
    ensures
        r@ == entry_key_of(id@, link@, title@),
{
    let t = trim_str(id);
    if t.unicode_len() > 0 {
        return t;
    }
    if link.unicode_len() > 0 {
        return string_of(&chars_of(link));
    }
    let h = sha_hex(title.as_bytes());
    prefixed("entry:", &chars_of(h.as_str()))
}

/// Whether a pull endpoint is on this machine (then no proxy is used).
pub fn is_loopback_host(host: Option<&str>) -> (r: bool)
    ensures
        r == match host {
            Some(h) => crate::documents::eq_ignore_ascii_case(h@, "localhost"@) || h@
                == "127.0.0.1"@ || h@ == "::1"@ || h@ == "[::1]"@,
            None => false,
        },
{
    match host {
        Some(h) => crate::documents::same_ignoring_ascii_case(h, "localhost") || str_eq(
            h,
            "127.0.0.1",
        ) || str_eq(h, "::1") || str_eq(h, "[::1]"),
        None => false,
    }
}

/// How a sync of page URLs ends: a partial failure is only logged, so the sync
/// fails (with the last failure) only when no page was fetched at all and some
/// page failed; pages fetched but unchanged still count as fetched.
pub fn urls_outcome(fetched: usize, last_err: Option<String>) -> (r: Result<(), String>)
    ensures
        fetched == 0 && last_err is Some ==> r == Err::<(), String>(last_err->0),
        !(fetched == 0 && last_err is Some) ==> r is Ok,
{
    if fetched == 0 {
        if let Some(e) = last_err {
            return Err(e);
        }
    }
    Ok(())
}

/// What `url::Url::parse` and then `query_pairs_mut().append_pair(key, value)`
/// make of a URL: the serialised URL, or `None` when it does not parse; a
/// function of the three texts alone.
pub uninterp spec fn url_plus_pair(url: Seq<char>, key: Seq<char>, value: Seq<char>) -> Option<Seq<char>>;

/// `url::Url::parse`, then `append_pair` of one pair, serialised. The wording
/// of the error is not stated.
#[verifier::external_body]
fn url_with_pair(url: &str, key: &str, value: &str) -> (r: Result<String, String>)
    ensures
        match r {
            Ok(u) => url_plus_pair(url@, key@, value@) == Some(u@),
            Err(_) => url_plus_pair(url@, key@, value@) is None,
        },
{
    let mut u = reqwest::Url::parse(url).map_err(|e| e.to_string())?;
    u.query_pairs_mut().append_pair(key, value);
    Ok(u.as_str().to_string())
}

/// The request URL for an endpoint: parsed as it is when there is no `since`,
/// else with `since` appended; `None` when the endpoint does not parse.
pub open spec fn endpoint_request(endpoint: Seq<char>, since: Option<Seq<char>>) -> Option<Seq<char>> {
    match since {
        None => match crate::fetch::parsed_url(endpoint) {
            Some(p) => Some(p.0),
            None => None,
        },
        Some(s) => url_plus_pair(endpoint, "since"@, s),
    }
}

/// The URL a pull of a custom source requests: its endpoint (which must be
/// given and not blank), with `since` set to the last sync's time in RFC 3339
/// when there was one, so only newer items come back.
pub fn custom_request_url(
    endpoint: Option<&str>,
    last_sync: Option<crate::dates::Instant>,
) -> (r: Result<String, String>)
    ensures
        match endpoint {
            None => r matches Err(m) && m@ == "custom source is missing config.endpoint"@,
            Some(e) => if trim_seq(e@).len() == 0 {
                r matches Err(m) && m@ == "custom source is missing config.endpoint"@
            } else {
                let since = match last_sync {
                    Some(t) => crate::dates::rfc3339_of(t),
                    None => None,
                };
                match endpoint_request(e@, since) {
                    Some(u) => r matches Ok(v) && v@ == u,
                    None => r matches Err(m) && exists|rest: Seq<char>| m@ == "Invalid endpoint URL: "@ + rest,
                }
            },
        },
{
    let e = match endpoint {
        None => return Err(string_of(&chars_of("custom source is missing config.endpoint"))),
        Some(e) => e,
    };
    if trim_str(e).unicode_len() == 0 {
        return Err(string_of(&chars_of("custom source is missing config.endpoint")));
    }
    let since = match last_sync {
        Some(t) => crate::dates::format_rfc3339(t),
        None => None,
    };
    let got: Result<String, String> = match since {
        None => match crate::fetch::parse_url(e) {
            Ok(p) => Ok(p.text),
            Err(msg) => Err(msg),
        },
        Some(s) => {
            proof {
                reveal_strlit("since");
            }
            url_with_pair(e, "since", s.as_str())
        },
    };
    match got {
        Ok(u) => Ok(u),
        Err(msg) => {
            let mut m = chars_of("Invalid endpoint URL: ");
            let mut rest = chars_of(msg.as_str());
            let ghost (a, b) = (m@, rest@);
            m.append(&mut rest);
            proof {
                assert(m@ =~= a + b);
            }
            Err(string_of(&m))
        },
    }
}

/// The `Authorization` header a pull sends: the configured value trimmed,
/// when it is there and not blank.
pub fn auth_header(value: Option<&str>) -> (r: Option<String>)
    ensures
        opt_view(r) == match value {
            Some(v) => if trim_seq(v@).len() > 0 {
                Some(trim_seq(v@))
            } else {
                None
            },
            None => None,
        },
{
    match value {
        Some(v) => {
            let t = trim_str(v);
            if t.unicode_len() > 0 {
                Some(t)
            } else {
                None
            }
        },
        None => None,
    }
}

} // verus!
