//! Documents: how the document list is scoped and paged, how stored content is
//! checked against its address, and which date a plain-text upload carries in
//! its first line.
use vstd::prelude::*;
use uuid::Uuid;
use chrono::NaiveDate;
use crate::dates::{midnight, Instant};
use crate::paging::{opt_view, page_window, search_term, term, window};
use crate::search::{split_chars, split_seq};
use crate::text::{chars_of, str_eq, string_of, trim_chars, trim_seq};

verus! {

pub struct UploadQuery {
    pub source: Option<Uuid>,
}

pub struct DocsQuery {
    pub source: Option<String>,
    pub q: Option<String>,
    pub graph: Option<String>,
    pub state: Option<String>,
    pub limit: Option<i64>,
    pub offset: Option<i64>,
}

pub struct ContentQuery {
    pub version: Option<i32>,
}

/// The id that `Uuid`'s `FromStr` reads from a text, if it reads one; a
/// function of the text alone.
pub uninterp spec fn uuid_text(s: Seq<char>) -> Option<Uuid>;

/// `str::parse::<Uuid>`.
#[verifier::external_body]
pub(crate) fn parse_uuid(s: &str) -> (r: Option<Uuid>)
    ensures
        r == uuid_text(s@),
{
    s.parse::<Uuid>().ok()
}

/// Which documents a list covers: all (`None`), those without a source
/// (`Some(None)`), or one source's. A value that is not understood reads as
/// all: it comes from a click, and a click should not turn the page into an
/// error.
pub open spec fn scope_of(raw: Option<Seq<char>>) -> Option<Option<Uuid>> {
    match raw {
        None => None,
        Some(s) => if s.len() == 0 {
            None
        } else if s == "none"@ {
            Some(None)
        } else {
            match uuid_text(s) {
                Some(id) => Some(Some(id)),
                None => None,
            }
        },
    }
}

pub fn parse_scope(raw: Option<&str>) -> (r: Option<Option<Uuid>>)
    ensures
        r == scope_of(
            match raw {
                Some(s) => Some(s@),
                None => None,
            },
        ),
{
    match raw {
        None => None,
        Some(s) => {
            if s.unicode_len() == 0 {
                None
            } else if str_eq(s, "none") {
                Some(None)
            } else {
                match parse_uuid(s) {
                    Some(id) => Some(Some(id)),
                    None => None,
                }
            }
        },
    }
}

/// What a document list asks the store for.
pub struct DocsFilter {
    pub scope: Option<Option<Uuid>>,
    pub q: Option<String>,
    pub graph: Option<String>,
    pub deleted: bool,
    pub limit: i64,
    pub offset: i64,
}

impl DocsQuery {
    /// The scope, the search term, the graph-state filter (when not empty),
    /// whether deleted documents are listed (`state=deleted`), and the page
    /// (15 by default, within `1..=200`).
    pub fn filter(&self) -> (r: DocsFilter)
        ensures
            r.scope == scope_of(opt_view(self.source)),
            opt_view(r.q) == term(opt_view(self.q)),
            opt_view(r.graph) == match self.graph {
                Some(g) => if g@.len() == 0 {
                    None
                } else {
                    Some(g@)
                },
                None => None,
            },
            r.deleted == (opt_view(self.state) == Some("deleted"@)),
            r.limit == window(self.limit, self.offset, 15, 1, 200).0,
            r.offset == window(self.limit, self.offset, 15, 1, 200).1,
    {
        let scope = match &self.source {
            Some(s) => parse_scope(Some(s.as_str())),
            None => parse_scope(None),
        };
        let graph = match &self.graph {
            Some(g) => if g.as_str().unicode_len() == 0 {
                None
            } else {
                Some(g.clone())
            },
            None => None,
        };
        let deleted = match &self.state {
            Some(s) => str_eq(s.as_str(), "deleted"),
            None => false,
        };
        let (limit, offset) = page_window(self.limit, self.offset, 15, 1, 200);
        DocsFilter { scope, q: search_term(&self.q), graph, deleted, limit, offset }
    }
}

impl ContentQuery {
    /// A version that was asked for and never existed is an honest 404, not the
    /// current version.
    pub fn version_missing(&self, found: bool) -> (r: bool)
        ensures
            r == (self.version is Some && !found),
    {
        self.version.is_some() && !found
    }
}

// ---------------------------------------------------------------------------
// Content addresses
// ---------------------------------------------------------------------------

pub open spec fn hex_digit(n: u8) -> char {
    if n < 10 {
        ((48 + n) as u8) as char
    } else {
        ((97 + n - 10) as u8) as char
    }
}

/// Bytes in lowercase hexadecimal, two digits each.
pub open spec fn hex_of(bytes: Seq<u8>) -> Seq<char>
    decreases bytes.len(),
{
    if bytes.len() == 0 {
        Seq::empty()
    } else {
        hex_of(bytes.drop_last()) + seq![hex_digit(bytes.last() / 16), hex_digit(bytes.last() % 16)]
    }
}

fn digit(n: u8) -> (c: char)
    requires
        n < 16,
    ensures
        c == hex_digit(n),
{
    if n < 10 {
        ((48u8 + n) as char)
    } else {
        ((97u8 + n - 10) as char)
    }
}

pub fn hex(bytes: &[u8]) -> (s: String)
    ensures
        s@ == hex_of(bytes@),
{
    let mut out: Vec<char> = Vec::new();
    let mut i: usize = 0;
    while i < bytes.len()
        invariant
            i <= bytes@.len(),
            out@ == hex_of(bytes@.take(i as int)),
        decreases bytes.len() - i,
    {
        let b = bytes[i];
        proof {
            assert(bytes@.take(i + 1).drop_last() =~= bytes@.take(i as int));
        }
        out.push(digit(b / 16));
        out.push(digit(b % 16));
        i = i + 1;
        proof {
            assert(out@ =~= hex_of(bytes@.take(i as int)));
        }
    }
    proof {
        assert(bytes@.take(bytes@.len() as int) =~= bytes@);
    }
    string_of(&out)
}

/// The SHA-256 digest of some bytes; a function of the bytes alone.
pub uninterp spec fn sha256_of(bytes: Seq<u8>) -> Seq<u8>;

/// `sha2::Sha256::digest`.
#[verifier::external_body]
pub(crate) fn sha256_digest(bytes: &[u8]) -> (d: Vec<u8>)
    ensures
        d@ == sha256_of(bytes@),
{
    <sha2::Sha256 as sha2::Digest>::digest(bytes).to_vec()
}

/// Whether stored bytes are what their address says: the hex SHA-256 of the
/// bytes is the recorded one. When it is not, the content store is corrupt and
/// the read fails rather than serve the wrong bytes.
pub fn blob_matches(bytes: &[u8], sha: &str) -> (r: bool)
    ensures
        r == (hex_of(sha256_of(bytes@)) == sha@),
{
    let d = sha256_digest(bytes);
    let h = hex(d.as_slice());
    str_eq(h.as_str(), sha)
}

// ---------------------------------------------------------------------------
// The date a plain-text upload opens with
// ---------------------------------------------------------------------------

/// How many bytes of an upload are read for its date line.
pub const HEADER_BYTES: usize = 4096;

/// The final component of a path, as `Path::file_name` gives it: the path is
/// read in `/`-separated components, empty ones (repeated separators) and `.`
/// ones dropped; the last that is left is the name, unless it is `..` (or
/// nothing is left).
pub open spec fn last_name(segs: Seq<Seq<char>>) -> Option<Seq<char>>
    decreases segs.len(),
{
    if segs.len() == 0 {
        None
    } else {
        let l = segs.last();
        if l.len() == 0 || l == seq!['.'] {
            last_name(segs.drop_last())
        } else if l == seq!['.', '.'] {
            None
        } else {
            Some(l)
        }
    }
}

/// The extension `Path::extension` gives: the part of the file name after its
/// last `.`; none without a file name, without a `.`, or when the only `.`
/// begins the name.
pub open spec fn path_extension(name: Seq<char>) -> Option<Seq<char>> {
    match last_name(split_seq(name, seq!['/'])) {
        None => None,
        Some(f) => ext_of(f),
    }
}

/// The part of a file name after its last `.`, unless there is no `.` or the
/// only one begins the name.
pub open spec fn ext_of(f: Seq<char>) -> Option<Seq<char>> {
    if exists|k: int| 0 < k < f.len() && f[k] == '.' && forall|j: int| k < j < f.len() ==> f[j] != '.' {
        let k = choose|k: int| 0 < k < f.len() && f[k] == '.' && forall|j: int| k < j < f.len() ==> f[j] != '.';
        Some(f.skip(k + 1))
    } else {
        None
    }
}

/// The extension of a file name, as `Path::extension` finds it.
pub fn file_extension(name: &str) -> (r: Option<String>)
    ensures
        opt_view(r) == path_extension(name@),
{
    let v = chars_of(name);
    let slash: Vec<char> = vec!['/'];
    let segs = split_chars(&v, &slash);
    let ghost ss = split_seq(name@, seq!['/']);
    proof {
        assert(slash@ =~= seq!['/']);
        assert(ss.take(ss.len() as int) =~= ss);
    }
    let mut i: usize = segs.len();
    while i > 0
        invariant
            i <= segs@.len(),
            segs@.len() == ss.len(),
            forall|k: int| 0 <= k < segs@.len() ==> #[trigger] segs@[k]@ == ss[k],
            last_name(ss) == last_name(ss.take(i as int)),
            ss == split_seq(name@, seq!['/']),
        decreases i,
    {
        let l = &segs[i - 1];
        proof {
            assert(ss.take(i as int).last() == ss[i - 1]);
            assert(ss.take(i as int).drop_last() =~= ss.take(i - 1));
        }
        let is_dot = l.len() == 1 && l[0] == '.';
        let is_dotdot = l.len() == 2 && l[0] == '.' && l[1] == '.';
        proof {
            assert(is_dot <==> l@ == seq!['.']) by {
                if l@ == seq!['.'] {
                    assert(l@[0] == '.');
                }
                if is_dot {
                    assert(l@ =~= seq!['.']);
                }
            }
            assert(is_dotdot <==> l@ == seq!['.', '.']) by {
                if l@ == seq!['.', '.'] {
                    assert(l@[0] == '.' && l@[1] == '.');
                }
                if is_dotdot {
                    assert(l@ =~= seq!['.', '.']);
                }
            }
        }
        let ghost t = ss.take(i as int);
        proof {
            assert(t.len() > 0);
            assert(t.last() == l@);
            assert(last_name(t) == if l@.len() == 0 || l@ == seq!['.'] {
                last_name(t.drop_last())
            } else if l@ == seq!['.', '.'] {
                None
            } else {
                Some(l@)
            });
        }
        if l.len() == 0 || is_dot {
            i = i - 1;
        } else if is_dotdot {
            return None;
        } else {
            proof {
                assert(l@.len() != 0 && l@ != seq!['.'] && l@ != seq!['.', '.']);
                assert(last_name(ss) == Some(l@));
            }
            let r = extension_after_dot(l);
            return r;
        }
    }
    proof {
        assert(ss.take(0) =~= Seq::<Seq<char>>::empty());
    }
    None
}

/// The part of a file name after its last `.`, unless there is none or the
/// only one begins the name.
fn extension_after_dot(f: &Vec<char>) -> (r: Option<String>)
    ensures
        opt_view(r) == ext_of(f@),
{
    let mut i: usize = f.len();
    while i > 0
        invariant
            i <= f@.len(),
            forall|j: int| i <= j < f@.len() ==> f@[j] != '.',
        decreases i,
    {
        if f[i - 1] == '.' {
            let k = i - 1;
            if k == 0 {
                proof {
                    assert forall|k2: int| 0 < k2 < f@.len() && f@[k2] == '.' implies !(forall|j: int| k2 < j < f@.len() ==> f@[j] != '.') by {
                        assert(k2 > 0);
                    }
                }
                return None;
            }
            proof {
                let w = k as int;
                assert(0 < w < f@.len() && f@[w] == '.' && forall|j: int| w < j < f@.len() ==> f@[j] != '.');
                let c = choose|k2: int| 0 < k2 < f@.len() && f@[k2] == '.' && forall|j: int| k2 < j < f@.len() ==> f@[j] != '.';
                if c < w {
                    assert(f@[w] != '.');
                } else if c > w {
                    assert(f@[c] != '.');
                }
            }
            let rest = crate::text::slice_chars(f, i, f.len());
            proof {
                assert(rest@ =~= f@.skip(i as int));
            }
            return Some(string_of(&rest));
        }
        i = i - 1;
    }
    None
}

/// The day `NaiveDate::parse_from_str(s, "%Y年%m月%d日")` reads, if any.
pub uninterp spec fn cjk_date(s: Seq<char>) -> Option<NaiveDate>;

/// `NaiveDate::parse_from_str` with the format `%Y年%m月%d日`.
#[verifier::external_body]
fn parse_cjk_date(s: &str) -> (r: Option<NaiveDate>)
    ensures
        r == cjk_date(s@),
{
    NaiveDate::parse_from_str(s, "%Y年%m月%d日").ok()
}

pub open spec fn ascii_lower(c: char) -> char {
    if 'A' <= c && c <= 'Z' {
        (((c as u8) + 32) as u8) as char
    } else {
        c
    }
}

/// Equal up to the case of ASCII letters.
pub open spec fn eq_ignore_ascii_case(a: Seq<char>, b: Seq<char>) -> bool {
    a.len() == b.len() && forall|i: int| 0 <= i < a.len() ==> ascii_lower(a[i]) == ascii_lower(b[i])
}

pub(crate) fn lower_ascii(c: char) -> (r: char)
    ensures
        r == ascii_lower(c),
{
    if 'A' <= c && c <= 'Z' {
        ((c as u8) + 32) as char
    } else {
        c
    }
}

pub fn same_ignoring_ascii_case(a: &str, b: &str) -> (r: bool)
    ensures
        r == eq_ignore_ascii_case(a@, b@),
{
    let x = chars_of(a);
    let y = chars_of(b);
    if x.len() != y.len() {
        return false;
    }
    let mut i: usize = 0;
    while i < x.len()
        invariant
            x@ == a@,
            y@ == b@,
            x@.len() == y@.len(),
            i <= x@.len(),
            forall|j: int| 0 <= j < i ==> ascii_lower(x@[j]) == ascii_lower(y@[j]),
        decreases x.len() - i,
    {
        if lower_ascii(x[i]) != lower_ascii(y[i]) {
            return false;
        }
        i = i + 1;
    }
    true
}

/// Plain text, Markdown: the only uploads read for a date line.
pub open spec fn texty(name: Seq<char>) -> bool {
    match path_extension(name) {
        Some(e) => eq_ignore_ascii_case(e, "txt"@) || eq_ignore_ascii_case(e, "md"@)
            || eq_ignore_ascii_case(e, "markdown"@),
        None => false,
    }
}

/// The first line that is not blank, trimmed.
pub open spec fn first_line(lines: Seq<Seq<char>>) -> Option<Seq<char>>
    decreases lines.len(),
{
    if lines.len() == 0 {
        None
    } else if trim_seq(lines[0]).len() > 0 {
        Some(trim_seq(lines[0]))
    } else {
        first_line(lines.drop_first())
    }
}

/// Leading byte-order marks dropped.
pub open spec fn skip_bom(s: Seq<char>) -> Seq<char>
    decreases s.len(),
{
    if s.len() > 0 && s[0] == '\u{feff}' {
        skip_bom(s.drop_first())
    } else {
        s
    }
}

/// A date line may stand in parentheses, full-width or ASCII.
pub open spec fn unwrap_parens(line: Seq<char>) -> Seq<char> {
    if line.len() >= 2 && line[0] == '\u{ff08}' && line.last() == '\u{ff09}' {
        line.subrange(1, line.len() - 1)
    } else if line.len() >= 2 && line[0] == '(' && line.last() == ')' {
        line.subrange(1, line.len() - 1)
    } else {
        line
    }
}

/// The text up to the last line break, when there is one.
pub open spec fn before_last_newline(s: Seq<char>) -> Option<Seq<char>> {
    if exists|i: int| 0 <= i < s.len() && s[i] == '\n' {
        let i = choose|i: int|
            0 <= i < s.len() && s[i] == '\n' && forall|j: int| i < j < s.len() ==> s[j] != '\n';
        Some(s.take(i))
    } else {
        None
    }
}

/// The date a plain-text upload opens with: only `.txt` and `.md` files, only
/// a first line that is a whole date (`YYYY-MM-DD` or `YYYY年M月D日`, maybe in
/// parentheses), dated at UTC midnight. `header` is the decoded start of the
/// file; when the file was longer than what was decoded, the cut last line
/// is dropped, since the date could go on past the cut.
pub open spec fn content_date(name: Seq<char>, header: Seq<char>, cut: bool) -> Option<Instant> {
    if !texty(name) {
        None
    } else {
        match usable_header(header, cut) {
            None => None,
            Some(h) => match first_line(split_seq(skip_bom(h), seq!['\n'])) {
                None => None,
                Some(line) => date_line(unwrap_parens(line)),
            },
        }
    }
}

/// The part of the decoded start that may be read: all of it, or, when the
/// file was cut, all but the cut last line.
pub open spec fn usable_header(header: Seq<char>, cut: bool) -> Option<Seq<char>> {
    if cut {
        before_last_newline(header)
    } else {
        Some(header)
    }
}

/// Four ASCII digits first.
pub open spec fn starts_with_year(d: Seq<char>) -> bool {
    d.len() >= 4 && forall|k: int| 0 <= k < 4 ==> '0' <= #[trigger] d[k] && d[k] <= '9'
}

/// The day a date line names, at UTC midnight.
pub open spec fn date_line(d: Seq<char>) -> Option<Instant> {
    if !starts_with_year(d) {
        None
    } else {
        match crate::dates::ymd_date(d) {
            Some(day) => Some(midnight(day)),
            None => match cjk_date(d) {
                Some(day) => Some(midnight(day)),
                None => None,
            },
        }
    }
}

fn is_texty(name: &str) -> (r: bool)
    ensures
        r == texty(name@),
{
    match file_extension(name) {
        Some(e) => same_ignoring_ascii_case(e.as_str(), "txt") || same_ignoring_ascii_case(
            e.as_str(),
            "md",
        ) || same_ignoring_ascii_case(e.as_str(), "markdown"),
        None => false,
    }
}

fn cut_at_last_newline(s: &Vec<char>) -> (r: Option<Vec<char>>)
    ensures
        match (r, before_last_newline(s@)) {
            (Some(a), Some(b)) => a@ == b,
            (None, None) => true,
            _ => false,
        },
{
    let mut i = s.len();
    while i > 0
        invariant
            i <= s@.len(),
            forall|j: int| i <= j < s@.len() ==> s@[j] != '\n',
        decreases i,
    {
        if s[i - 1] == '\n' {
            let k = i - 1;
            proof {
                let c = choose|c: int|
                    0 <= c < s@.len() && s@[c] == '\n' && forall|j: int|
                        c < j < s@.len() ==> s@[j] != '\n';
                if c < k {
                    assert(s@[k as int] == '\n');
                } else if c > k {
                    assert(s@[c] != '\n');
                }
            }
            return Some(crate::text::slice_chars(s, 0, k));
        }
        i = i - 1;
    }
    None
}

fn drop_bom(s: &Vec<char>) -> (r: Vec<char>)
    ensures
        r@ == skip_bom(s@),
{
    let mut i: usize = 0;
    proof {
        assert(s@.skip(0) =~= s@);
    }
    while i < s.len() && s[i] == '\u{feff}'
        invariant
            i <= s@.len(),
            skip_bom(s@) == skip_bom(s@.skip(i as int)),
        decreases s.len() - i,
    {
        proof {
            assert(s@.skip(i as int).drop_first() =~= s@.skip(i + 1));
        }
        i = i + 1;
    }
    let n = s.len();
    proof {
        assert(s@.skip(i as int) =~= s@.subrange(i as int, n as int));
    }
    crate::text::slice_chars(s, i, n)
}

fn first_filled_line(lines: &Vec<Vec<char>>) -> (r: Option<Vec<char>>)
    ensures
        match (r, first_line(lines@.map_values(|l: Vec<char>| l@))) {
            (Some(a), Some(b)) => a@ == b,
            (None, None) => true,
            _ => false,
        },
{
    let ghost all = lines@.map_values(|l: Vec<char>| l@);
    let mut i: usize = 0;
    proof {
        assert(all.skip(0) =~= all);
    }
    while i < lines.len()
        invariant
            i <= lines@.len(),
            all == lines@.map_values(|l: Vec<char>| l@),
            first_line(all) == first_line(all.skip(i as int)),
        decreases lines.len() - i,
    {
        let t = trim_chars(&lines[i]);
        proof {
            assert(all.skip(i as int)[0] == lines@[i as int]@);
        }
        if t.len() > 0 {
            return Some(t);
        }
        proof {
            assert(all.skip(i as int).drop_first() =~= all.skip(i + 1));
        }
        i = i + 1;
    }
    None
}

fn strip_parens(line: &Vec<char>) -> (r: Vec<char>)
    ensures
        r@ == unwrap_parens(line@),
{
    let n = line.len();
    if n >= 2 && line[0] == '\u{ff08}' && line[n - 1] == '\u{ff09}' {
        crate::text::slice_chars(line, 1, n - 1)
    } else if n >= 2 && line[0] == '(' && line[n - 1] == ')' {
        crate::text::slice_chars(line, 1, n - 1)
    } else {
        line.clone()
    }
}

pub fn content_time(filename: &str, header: &str, cut: bool) -> (r: Option<Instant>)
    ensures
        r == content_date(filename@, header@, cut),
{
    if !is_texty(filename) {
        return None;
    }
    let all = chars_of(header);
    let h = if cut {
        match cut_at_last_newline(&all) {
            Some(h) => h,
            None => return None,
        }
    } else {
        all
    };
    let body = drop_bom(&h);
    let nl: Vec<char> = vec!['\n'];
    let lines = split_chars(&body, &nl);
    proof {
        assert(lines@.map_values(|l: Vec<char>| l@) =~= split_seq(body@, nl@));
        assert(nl@ =~= seq!['\n']);
    }
    let line = match first_filled_line(&lines) {
        Some(l) => l,
        None => return None,
    };
    let d = strip_parens(&line);
    if d.len() < 4 {
        return None;
    }
    let mut k: usize = 0;
    let mut digits = true;
    while k < 4
        invariant
            k <= 4,
            d@.len() >= 4,
            digits == forall|m: int| 0 <= m < k ==> '0' <= #[trigger] d@[m] && d@[m] <= '9',
        decreases 4 - k,
    {
        if !('0' <= d[k] && d[k] <= '9') {
            digits = false;
        }
        k = k + 1;
    }
    if !digits {
        proof {
            assert(!starts_with_year(d@));
        }
        return None;
    }
    let text = string_of(&d);
    match crate::dates::parse_ymd(text.as_str()) {
        Some(day) => Some(crate::dates::midnight_of(day)),
        None => match parse_cjk_date(text.as_str()) {
            Some(day) => Some(crate::dates::midnight_of(day)),
            None => None,
        },
    }
}

/// Uploads go to the knowledge base itself, or to one of its folder sources;
/// any other target is refused as `upload_needs_folder`.
pub fn upload_target(same_kb: bool, kind: &str) -> (r: Result<(), (&'static str, &'static str)>)
    ensures
        (same_kb && kind@ == "folder"@) ==> r is Ok,
        !(same_kb && kind@ == "folder"@) ==> (r matches Err((c, m)) && c@ == "upload_needs_folder"@
            && m@ == "Uploads can only target a folder source in this knowledge base"@),
{
    if same_kb && str_eq(kind, "folder") {
        Ok(())
    } else {
        Err(("upload_needs_folder", "Uploads can only target a folder source in this knowledge base"))
    }
}

/// What one part of an upload comes to.
#[derive(Debug, PartialEq, Eq)]
pub enum UploadPart {
    /// Not a file (no file name): passed over without a word.
    Ignored,
    /// Skipped, with the reason reported beside its file name.
    Skipped(String),
    /// Stored, under this MIME type.
    Stored(String),
}

/// A part without a file name is ignored; an empty file is skipped as `empty
/// file`; the rest is stored under its content type, `application/octet-stream`
/// when it has none. (Content the knowledge base already holds is skipped as
/// `duplicate content` once the store says so: `DUPLICATE_REASON`.)
pub fn upload_part(has_filename: bool, content_type: Option<&str>, byte_len: usize) -> (r: UploadPart)
    ensures
        !has_filename ==> r == UploadPart::Ignored,
        has_filename && byte_len == 0 ==> (r matches UploadPart::Skipped(m) && m@ == "empty file"@),
        has_filename && byte_len > 0 ==> (r matches UploadPart::Stored(t) && t@ == match content_type {
            Some(c) => c@,
            None => "application/octet-stream"@,
        }),
{
    if !has_filename {
        return UploadPart::Ignored;
    }
    if byte_len == 0 {
        return UploadPart::Skipped(string_of(&chars_of("empty file")));
    }
    match content_type {
        Some(c) => UploadPart::Stored(string_of(&chars_of(c))),
        None => UploadPart::Stored(string_of(&chars_of("application/octet-stream"))),
    }
}

/// The reason an upload whose content is already held is skipped with.
pub const DUPLICATE_REASON: &'static str = "duplicate content";

/// What a purge answers, and what its audit row records: the chunks removed
/// and how many stored blobs it released.
#[derive(Debug, PartialEq, Eq)]
pub struct PurgeAnswer {
    pub ok: bool,
    pub chunks: i64,
    pub blobs: usize,
}

pub fn purge_answer(chunks: i64, blobs: &Vec<String>) -> (r: PurgeAnswer)
    ensures
        r.ok,
        r.chunks == chunks,
        r.blobs == blobs@.len(),
{
    PurgeAnswer { ok: true, chunks, blobs: blobs.len() }
}

/// An upload that brought no file at all (nothing stored, nothing skipped) is
/// refused as `no_files`, `No files received`.
pub fn upload_outcome(created: usize, skipped: usize) -> (r: Result<(), (&'static str, &'static str)>)
    ensures
        created == 0 && skipped == 0 ==> (r matches Err((c, m)) && c@ == "no_files"@ && m@ == "No files received"@),
        !(created == 0 && skipped == 0) ==> r is Ok,
{
    if created == 0 && skipped == 0 {
        Err(("no_files", "No files received"))
    } else {
        Ok(())
    }
}

/// What a request for a document's bytes is answered with, before the bytes
/// are read.
#[derive(Debug, PartialEq, Eq)]
pub enum ContentGate {
    /// `410 Gone`: the bytes were purged for good.
    Purged { error: &'static str, message: &'static str },
    /// `404`: the version asked for was never registered (no fallback to the
    /// current bytes).
    NoSuchVersion,
    /// The bytes are read and sent.
    Serve,
}

/// A purged document is gone (that comes first); a version asked for that
/// was never registered is not found; else the bytes are served.
pub fn content_gate(purged: bool, version_asked: bool, version_found: bool) -> (r: ContentGate)
    ensures
        purged ==> r == (ContentGate::Purged {
            error: "document_purged",
            message: "this document's bytes have been permanently removed",
        }),
        !purged && version_asked && !version_found ==> r == ContentGate::NoSuchVersion,
        !purged && !(version_asked && !version_found) ==> r == ContentGate::Serve,
{
    if purged {
        ContentGate::Purged {
            error: "document_purged",
            message: "this document's bytes have been permanently removed",
        }
    } else if version_asked && !version_found {
        ContentGate::NoSuchVersion
    } else {
        ContentGate::Serve
    }
}

/// The strong `ETag` of content: its address in double quotes.
pub fn etag(sha: &str) -> (r: String)
    ensures
        r@ == "\""@ + sha@ + "\""@,
{
    let mut out = chars_of("\"");
    let mut mid = chars_of(sha);
    let mut end = chars_of("\"");
    let ghost (a, b, c) = (out@, mid@, end@);
    out.append(&mut mid);
    out.append(&mut end);
    proof {
        assert(out@ =~= a + b + c);
    }
    string_of(&out)
}

/// What a full read answers when the document cannot be given: an id that
/// does not parse and an id outside the knowledge base read the same.
pub const NO_DOCUMENT_TEXT: &'static str = "No document with that id in this knowledge base.";

/// The document a full read asks for: the `document_id` argument, trimmed,
/// read as a UUID; else the read is refused as `invalid id` (a document the
/// knowledge base does not hold is refused as `not found`, with the same text).
pub fn document_arg(raw: Option<&str>) -> (r: Result<Uuid, &'static str>)
    ensures
        match raw {
            None => r matches Err(d) && d@ == "invalid id"@,
            Some(s) => match uuid_text(trim_seq(s@)) {
                Some(u) => r == Ok::<Uuid, &'static str>(u),
                None => r matches Err(d) && d@ == "invalid id"@,
            },
        },
{
    match raw {
        None => Err("invalid id"),
        Some(s) => {
            let t = crate::text::trim_str(s);
            match parse_uuid(t.as_str()) {
                Some(u) => Ok(u),
                None => Err("invalid id"),
            }
        },
    }
}

} // verus!
