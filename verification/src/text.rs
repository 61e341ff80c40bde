//! Character-level text handling shared by the rest of the library: trimming,
//! truncation, run squeezing, substring search and the conversions between
//! `String` and its characters.
use vstd::prelude::*;

verus! {

/// The Unicode `White_Space` property, which is what `char::is_whitespace`
/// and `str::trim` go by.
pub open spec fn is_ws(c: char) -> bool {
    ||| ('\u{9}' <= c && c <= '\u{d}')
    ||| c == ' '
    ||| c == '\u{85}'
    ||| c == '\u{a0}'
    ||| c == '\u{1680}'
    ||| ('\u{2000}' <= c && c <= '\u{200a}')
    ||| c == '\u{2028}'
    ||| c == '\u{2029}'
    ||| c == '\u{202f}'
    ||| c == '\u{205f}'
    ||| c == '\u{3000}'
}

pub fn is_whitespace(c: char) -> (b: bool)
    ensures
        b == is_ws(c),
{
    ('\u{9}' <= c && c <= '\u{d}') || c == ' ' || c == '\u{85}' || c == '\u{a0}' || c
        == '\u{1680}' || ('\u{2000}' <= c && c <= '\u{200a}') || c == '\u{2028}' || c
        == '\u{2029}' || c == '\u{202f}' || c == '\u{205f}' || c == '\u{3000}'
}

/// Index of the first character that is not whitespace (the length when there is none).
pub open spec fn lead(s: Seq<char>) -> int
    decreases s.len(),
{
    if s.len() == 0 {
        0
    } else if is_ws(s[0]) {
        1 + lead(s.drop_first())
    } else {
        0
    }
}

/// Number of whitespace characters at the end.
pub open spec fn tail_ws(s: Seq<char>) -> int
    decreases s.len(),
{
    if s.len() == 0 {
        0
    } else if is_ws(s.last()) {
        1 + tail_ws(s.drop_last())
    } else {
        0
    }
}

/// What `str::trim` leaves: the string without leading and trailing whitespace.
pub open spec fn trim_seq(s: Seq<char>) -> Seq<char> {
    let a = lead(s);
    if a >= s.len() {
        Seq::empty()
    } else {
        s.subrange(a, s.len() - tail_ws(s))
    }
}

pub proof fn lemma_lead(s: Seq<char>)
    ensures
        0 <= lead(s) <= s.len(),
        forall|i: int| 0 <= i < lead(s) ==> is_ws(#[trigger] s[i]),
        lead(s) < s.len() ==> !is_ws(s[lead(s)]),
    decreases s.len(),
{
    if s.len() > 0 && is_ws(s[0]) {
        lemma_lead(s.drop_first());
        assert forall|i: int| 0 <= i < lead(s) implies is_ws(#[trigger] s[i]) by {
            if i > 0 {
                assert(s[i] == s.drop_first()[i - 1]);
            }
        }
        if lead(s) < s.len() {
            assert(s[lead(s)] == s.drop_first()[lead(s) - 1]);
        }
    }
}

pub proof fn lemma_tail_ws(s: Seq<char>)
    ensures
        0 <= tail_ws(s) <= s.len(),
        forall|i: int| s.len() - tail_ws(s) <= i < s.len() ==> is_ws(#[trigger] s[i]),
        tail_ws(s) < s.len() ==> !is_ws(s[s.len() - tail_ws(s) - 1]),
    decreases s.len(),
{
    if s.len() > 0 && is_ws(s.last()) {
        lemma_tail_ws(s.drop_last());
        assert forall|i: int| s.len() - tail_ws(s) <= i < s.len() implies is_ws(#[trigger] s[i]) by {
            if i < s.len() - 1 {
                assert(s[i] == s.drop_last()[i]);
            }
        }
        if tail_ws(s) < s.len() {
            assert(s[s.len() - tail_ws(s) - 1] == s.drop_last()[s.len() - tail_ws(s) - 1]);
        }
    }
}

/// When some character is not whitespace, the leading and trailing runs do not meet.
pub proof fn lemma_trim_bounds(s: Seq<char>)
    ensures
        lead(s) < s.len() ==> lead(s) < s.len() - tail_ws(s),
        lead(s) >= s.len() ==> lead(s) == s.len(),
{
    lemma_lead(s);
    lemma_tail_ws(s);
    if lead(s) < s.len() {
        if lead(s) >= s.len() - tail_ws(s) {
            assert(is_ws(s[lead(s)]));
        }
    }
}

/// The characters of a string, in order.
pub fn chars_of(s: &str) -> (out: Vec<char>)
    ensures
        out@ == s@,
{
    let n = s.unicode_len();
    let mut out: Vec<char> = Vec::new();
    let mut i: usize = 0;
    while i < n
        invariant
            n == s@.len(),
            i <= n,
            out@ == s@.subrange(0, i as int),
        decreases n - i,
    {
        out.push(s.get_char(i));
        i = i + 1;
    }
    out
}

/// Whether two strings hold the same characters.
pub fn str_eq(a: &str, b: &str) -> (r: bool)
    ensures
        r == (a@ == b@),
{
    let x = chars_of(a);
    let y = chars_of(b);
    if x.len() != y.len() {
        return false;
    }
    let mut i: usize = 0;
    while i < x.len()
        invariant
            x@ == a@,
            y@ == b@,
            x@.len() == y@.len(),
            i <= x@.len(),
            forall|j: int| 0 <= j < i ==> x@[j] == y@[j],
        decreases x.len() - i,
    {
        if x[i] != y[i] {
            return false;
        }
        i = i + 1;
    }
    proof {
        assert(x@ =~= y@);
    }
    true
}

/// Whether a string has the character `c` in it.
pub fn has_char(s: &str, c: char) -> (r: bool)
    ensures
        r == s@.contains(c),
{
    let v = chars_of(s);
    let mut i: usize = 0;
    while i < v.len()
        invariant
            v@ == s@,
            i <= v@.len(),
            forall|j: int| 0 <= j < i ==> v@[j] != c,
        decreases v.len() - i,
    {
        if v[i] == c {
            return true;
        }
        i = i + 1;
    }
    false
}

/// How many bytes UTF-8 spends on a character.
pub open spec fn char_utf8_len(c: char) -> nat {
    if (c as u32) < 0x80 {
        1
    } else if (c as u32) < 0x800 {
        2
    } else if (c as u32) < 0x10000 {
        3
    } else {
        4
    }
}

/// How many bytes a string takes in UTF-8 (what `str::len` counts).
pub open spec fn utf8_len(s: Seq<char>) -> nat
    decreases s.len(),
{
    if s.len() == 0 {
        0
    } else {
        utf8_len(s.drop_last()) + char_utf8_len(s.last())
    }
}

pub proof fn lemma_utf8_len_prefix(s: Seq<char>, i: int)
    requires
        0 <= i <= s.len(),
    ensures
        utf8_len(s.take(i)) <= utf8_len(s),
    decreases s.len() - i,
{
    if i < s.len() {
        lemma_utf8_len_prefix(s, i + 1);
        assert(s.take(i + 1).drop_last() =~= s.take(i));
    } else {
        assert(s.take(i) =~= s);
    }
}

/// Whether a string takes at most `limit` bytes in UTF-8.
pub fn utf8_len_within(s: &str, limit: usize) -> (r: bool)
    requires
        limit <= 0x1000_0000,
    ensures
        r == (utf8_len(s@) <= limit),
{
    let v = chars_of(s);
    let mut acc: usize = 0;
    let mut i: usize = 0;
    while i < v.len()
        invariant
            v@ == s@,
            i <= v@.len(),
            limit <= 0x1000_0000,
            acc == utf8_len(v@.take(i as int)),
            acc <= limit,
        decreases v.len() - i,
    {
        let c = v[i];
        let w: usize = if (c as u32) < 0x80 {
            1
        } else if (c as u32) < 0x800 {
            2
        } else if (c as u32) < 0x10000 {
            3
        } else {
            4
        };
        proof {
            assert(v@.take(i + 1).drop_last() =~= v@.take(i as int));
        }
        acc = acc + w;
        if acc > limit {
            proof {
                lemma_utf8_len_prefix(v@, i + 1);
            }
            return false;
        }
        i = i + 1;
    }
    proof {
        assert(v@.take(v@.len() as int) =~= v@);
    }
    true
}

/// Appends one character to a string (`String::push`).
#[verifier::external_body]
pub(crate) fn push_char(s: &mut String, c: char)
    ensures
        final(s)@ == old(s)@.push(c),
{
    s.push(c);
}

/// A string made of the given characters.
pub fn string_of(v: &Vec<char>) -> (out: String)
    ensures
        out@ == v@,
{
    let mut out = String::new();
    let mut i: usize = 0;
    while i < v.len()
        invariant
            i <= v.len(),
            out@ == v@.subrange(0, i as int),
        decreases v.len() - i,
    {
        push_char(&mut out, v[i]);
        i = i + 1;
    }
    out
}

/// The characters of `v` from `lo` to `hi`.
pub fn slice_chars(v: &Vec<char>, lo: usize, hi: usize) -> (out: Vec<char>)
    requires
        lo <= hi <= v.len(),
    ensures
        out@ == v@.subrange(lo as int, hi as int),
{
    let mut out: Vec<char> = Vec::new();
    let mut i = lo;
    while i < hi
        invariant
            lo <= i <= hi <= v.len(),
            out@ == v@.subrange(lo as int, i as int),
        decreases hi - i,
    {
        out.push(v[i]);
        i = i + 1;
    }
    out
}

/// `str::trim` on a character vector.
pub fn trim_chars(v: &Vec<char>) -> (out: Vec<char>)
    ensures
        out@ == trim_seq(v@),
{
    proof {
        lemma_lead(v@);
        lemma_tail_ws(v@);
        lemma_trim_bounds(v@);
    }
    let mut a: usize = 0;
    while a < v.len() && is_whitespace(v[a])
        invariant
            a <= v.len(),
            forall|i: int| 0 <= i < a ==> is_ws(#[trigger] v@[i]),
        decreases v.len() - a,
    {
        a = a + 1;
    }
    proof {
        lemma_lead_exact(v@, a as int);
    }
    if a == v.len() {
        return Vec::new();
    }
    let mut b: usize = v.len();
    while b > a + 1 && is_whitespace(v[b - 1])
        invariant
            a < v.len(),
            !is_ws(v@[a as int]),
            a < b <= v.len(),
            forall|i: int| b <= i < v.len() ==> is_ws(#[trigger] v@[i]),
        decreases b,
    {
        b = b - 1;
    }
    proof {
        lemma_tail_exact(v@, b as int, a as int);
    }
    slice_chars(v, a, b)
}

/// The leading run ends exactly at the first non-whitespace character.
pub proof fn lemma_lead_exact(s: Seq<char>, a: int)
    requires
        0 <= a <= s.len(),
        forall|i: int| 0 <= i < a ==> is_ws(#[trigger] s[i]),
        a < s.len() ==> !is_ws(s[a]),
    ensures
        lead(s) == a,
{
    lemma_lead(s);
    if lead(s) < a {
        assert(is_ws(s[lead(s)]));
    }
    if lead(s) > a {
        assert(is_ws(s[a]));
    }
}

/// The trailing run starts just after the last non-whitespace character.
pub proof fn lemma_tail_exact(s: Seq<char>, b: int, a: int)
    requires
        0 <= a < s.len(),
        !is_ws(s[a]),
        a < b <= s.len(),
        forall|i: int| b <= i < s.len() ==> is_ws(#[trigger] s[i]),
        !is_ws(s[b - 1]),
    ensures
        s.len() - tail_ws(s) == b,
{
    lemma_tail_ws(s);
    let t = s.len() - tail_ws(s);
    if t > b {
        assert(is_ws(s[t - 1]));
    }
    if t < b {
        assert(is_ws(s[b - 1]));
    }
}

/// Which characters survive a squeeze.
pub enum Keep {
    /// everything but whitespace (`split_whitespace`)
    NonWhitespace,
    /// ASCII lowercase letters, ASCII digits and the CJK block U+4E00..=U+9FA5
    SlugChar,
}

pub open spec fn keeps(k: Keep, c: char) -> bool {
    match k {
        Keep::NonWhitespace => !is_ws(c),
        Keep::SlugChar => ('a' <= c && c <= 'z') || ('0' <= c && c <= '9') || ('\u{4e00}' <= c
            && c <= '\u{9fa5}'),
    }
}

pub fn keeps_char(k: &Keep, c: char) -> (b: bool)
    ensures
        b == keeps(*k, c),
{
    match k {
        Keep::NonWhitespace => !is_whitespace(c),
        Keep::SlugChar => ('a' <= c && c <= 'z') || ('0' <= c && c <= '9') || ('\u{4e00}' <= c
            && c <= '\u{9fa5}'),
    }
}

/// Reads `s` left to right, after `out` has been written and with `gap` telling
/// whether a dropped character was seen since the last kept one: kept characters
/// are copied, and one `sep` stands between two kept runs that something dropped
/// separated. Nothing is written for a dropped run at either end.
pub open spec fn squeeze_from(s: Seq<char>, k: Keep, sep: char, gap: bool, out: Seq<char>) -> Seq<
    char,
>
    decreases s.len(),
{
    if s.len() == 0 {
        out
    } else if keeps(k, s[0]) {
        squeeze_from(
            s.drop_first(),
            k,
            sep,
            false,
            if gap && out.len() > 0 {
                out.push(sep).push(s[0])
            } else {
                out.push(s[0])
            },
        )
    } else {
        squeeze_from(s.drop_first(), k, sep, true, out)
    }
}

/// The kept runs of `s`, joined by single `sep` characters.
pub open spec fn squeeze(s: Seq<char>, k: Keep, sep: char) -> Seq<char> {
    squeeze_from(s, k, sep, false, Seq::empty())
}

/// Made of kept characters and single separators, each separator standing
/// between two kept characters (so none at either end, and never two in a row).
pub open spec fn tidy(o: Seq<char>, k: Keep, sep: char) -> bool {
    &&& forall|i: int| 0 <= i < o.len() ==> keeps(k, #[trigger] o[i]) || o[i] == sep
    &&& forall|i: int|
        0 <= i < o.len() && #[trigger] o[i] == sep ==> 0 < i < o.len() - 1 && keeps(k, o[i - 1])
            && keeps(k, o[i + 1])
}

proof fn lemma_squeeze_from_tidy(s: Seq<char>, k: Keep, sep: char, gap: bool, out: Seq<char>)
    requires
        !keeps(k, sep),
        tidy(out, k, sep),
    ensures
        tidy(squeeze_from(s, k, sep, gap, out), k, sep),
    decreases s.len(),
{
    if s.len() > 0 {
        if keeps(k, s[0]) {
            let next = if gap && out.len() > 0 {
                out.push(sep).push(s[0])
            } else {
                out.push(s[0])
            };
            if out.len() > 0 {
                let l = out.len() - 1;
                if out[l] == sep {
                    assert(l < out.len() - 1);
                }
                assert(keeps(k, out[l]));
            }
            assert forall|i: int| 0 <= i < next.len() && #[trigger] next[i] == sep implies 0 < i
                < next.len() - 1 && keeps(k, next[i - 1]) && keeps(k, next[i + 1]) by {
                if i < out.len() {
                    assert(out[i] == sep);
                }
            }
            assert forall|i: int| 0 <= i < next.len() implies keeps(k, #[trigger] next[i]) || next[i]
                == sep by {
                if i < out.len() {
                    assert(next[i] == out[i]);
                }
            }
            lemma_squeeze_from_tidy(s.drop_first(), k, sep, false, next);
        } else {
            lemma_squeeze_from_tidy(s.drop_first(), k, sep, true, out);
        }
    }
}

proof fn lemma_squeeze_from_fixed(t: Seq<char>, k: Keep, sep: char, i: int)
    requires
        !keeps(k, sep),
        tidy(t, k, sep),
        0 <= i <= t.len(),
        i == 0 || keeps(k, t[i - 1]),
    ensures
        squeeze_from(t.subrange(i, t.len() as int), k, sep, false, t.take(i)) == t,
    decreases t.len() - i,
{
    let rest = t.subrange(i, t.len() as int);
    if i == t.len() {
        assert(t.take(i) =~= t);
    } else if keeps(k, t[i]) {
        assert(rest[0] == t[i]);
        assert(rest.drop_first() =~= t.subrange(i + 1, t.len() as int));
        assert(t.take(i).push(t[i]) =~= t.take(i + 1));
        lemma_squeeze_from_fixed(t, k, sep, i + 1);
    } else {
        assert(t[i] == sep);
        assert(0 < i < t.len() - 1 && keeps(k, t[i + 1]));
        assert(rest[0] == t[i]);
        let rest1 = rest.drop_first();
        assert(rest1 =~= t.subrange(i + 1, t.len() as int));
        assert(rest1[0] == t[i + 1]);
        assert(rest1.drop_first() =~= t.subrange(i + 2, t.len() as int));
        assert(t.take(i).push(sep).push(t[i + 1]) =~= t.take(i + 2));
        assert(squeeze_from(rest, k, sep, false, t.take(i)) == squeeze_from(rest1, k, sep, true, t.take(i)));
        assert(squeeze_from(rest1, k, sep, true, t.take(i)) == squeeze_from(
            rest1.drop_first(),
            k,
            sep,
            false,
            t.take(i).push(sep).push(t[i + 1]),
        ));
        lemma_squeeze_from_fixed(t, k, sep, i + 2);
    }
}

/// What a squeeze leaves is tidy, and squeezing it again changes nothing
/// (the separator being a character the squeeze drops).
pub proof fn lemma_squeeze_tidy_and_stable(s: Seq<char>, k: Keep, sep: char)
    requires
        !keeps(k, sep),
    ensures
        tidy(squeeze(s, k, sep), k, sep),
        squeeze(squeeze(s, k, sep), k, sep) == squeeze(s, k, sep),
{
    lemma_squeeze_from_tidy(s, k, sep, false, Seq::empty());
    let t = squeeze(s, k, sep);
    lemma_squeeze_from_fixed(t, k, sep, 0);
    assert(t.subrange(0, t.len() as int) =~= t);
    assert(t.take(0) =~= Seq::<char>::empty());
}

pub fn squeeze_chars(v: &Vec<char>, k: Keep, sep: char) -> (out: Vec<char>)
    ensures
        out@ == squeeze(v@, k, sep),
{
    let mut out: Vec<char> = Vec::new();
    let mut gap = false;
    let mut i: usize = 0;
    proof {
        assert(v@.subrange(0, v@.len() as int) =~= v@);
        assert(out@ =~= Seq::<char>::empty());
    }
    while i < v.len()
        invariant
            i <= v.len(),
            squeeze(v@, k, sep) == squeeze_from(v@.subrange(i as int, v@.len() as int), k, sep, gap, out@),
        decreases v.len() - i,
    {
        let c = v[i];
        let ghost rest = v@.subrange(i as int, v@.len() as int);
        proof {
            assert(rest.drop_first() =~= v@.subrange(i + 1, v@.len() as int));
            assert(rest[0] == c);
        }
        if keeps_char(&k, c) {
            if gap && out.len() > 0 {
                out.push(sep);
            }
            out.push(c);
            gap = false;
        } else {
            gap = true;
        }
        i = i + 1;
    }
    proof {
        assert(v@.subrange(v@.len() as int, v@.len() as int) =~= Seq::<char>::empty());
    }
    out
}

/// The string without leading and trailing whitespace.
pub fn trim_str(s: &str) -> (out: String)
    ensures
        out@ == trim_seq(s@),
{
    string_of(&trim_chars(&chars_of(s)))
}

/// What `str::to_lowercase` gives for a string: Unicode's lowercase mapping, which
/// is defined by tables and is context-sensitive (final sigma).
pub uninterp spec fn spec_lowercase(s: Seq<char>) -> Seq<char>;

/// `str::to_lowercase`.
#[verifier::external_body]
pub(crate) fn lowercase(s: &str) -> (out: String)
    ensures
        out@ == spec_lowercase(s@),
{
    s.to_lowercase()
}

/// The horizontal ellipsis that marks a cut.
pub open spec fn ellipsis() -> char {
    '\u{2026}'
}

/// What the tools show of a long text: trimmed, and cut to `max` characters with
/// an ellipsis after the cut when it is longer.
pub open spec fn truncated(text: Seq<char>, max: nat) -> Seq<char> {
    let t = trim_seq(text);
    if t.len() <= max {
        t
    } else {
        t.take(max as int).push(ellipsis())
    }
}

pub fn truncate(text: &str, max_chars: usize) -> (out: String)
    ensures
        out@ == truncated(text@, max_chars as nat),
{
    let v = chars_of(text);
    let t = trim_chars(&v);
    if t.len() <= max_chars {
        string_of(&t)
    } else {
        let mut cut = slice_chars(&t, 0, max_chars);
        cut.push('\u{2026}');
        proof {
            assert(cut@ =~= t@.take(max_chars as int).push(ellipsis()));
        }
        string_of(&cut)
    }
}

} // verus!
