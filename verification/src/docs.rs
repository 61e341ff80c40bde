//! The manual's sections and their anchors. Anchors must equal what the web
//! page computes from the same heading, or citation links miss their target.
use vstd::prelude::*;
use crate::prompt::{join, join_chars, vecs_view};
use crate::search::starts_with;
use crate::text::{
    chars_of, lemma_squeeze_tidy_and_stable, lowercase, spec_lowercase, squeeze, squeeze_chars,
    string_of, tidy, trim_chars, trim_seq, Keep,
};

verus! {

/// The anchor of a heading: lowercased, every run of characters outside
/// `[a-z0-9]` and U+4E00..=U+9FA5 folded into one `-`, none at either end.
pub open spec fn slug_of(s: Seq<char>) -> Seq<char> {
    squeeze(spec_lowercase(s), Keep::SlugChar, '-')
}

pub fn slugify(s: &str) -> (out: String)
    ensures
        out@ == slug_of(s@),
{
    let lower = lowercase(s);
    slug_from_lowercase(lower.as_str())
}

/// An anchor is made only of `[a-z0-9]`, U+4E00..=U+9FA5 and single `-`
/// between them (none at either end, never two in a row), and taking an anchor
/// of an anchor, past the case mapping, gives it back unchanged.
pub proof fn law_anchor_is_tidy_and_stable(heading: Seq<char>)
    ensures
        tidy(slug_of(heading), Keep::SlugChar, '-'),
        squeeze(slug_of(heading), Keep::SlugChar, '-') == slug_of(heading),
{
    lemma_squeeze_tidy_and_stable(spec_lowercase(heading), Keep::SlugChar, '-');
}

/// The anchor of a heading that is already lowercased: the part of `slugify`
/// after the case mapping.
pub fn slug_from_lowercase(lower: &str) -> (out: String)
    ensures
        out@ == squeeze(lower@, Keep::SlugChar, '-'),
{
    let v = chars_of(lower);
    string_of(&squeeze_chars(&v, Keep::SlugChar, '-'))
}

// ---------------------------------------------------------------------------
// Sections
// ---------------------------------------------------------------------------

/// A line without the carriage return of a `\r\n` ending.
pub open spec fn strip_cr(l: Seq<char>) -> Seq<char> {
    if l.len() > 0 && l.last() == '\r' {
        l.drop_last()
    } else {
        l
    }
}

/// Reads `s` left to right with `cur` the line begun so far and `acc` the lines
/// ended so far: a `\n` ends a line (and a `\r` right before it is dropped); a
/// last line without `\n` counts when it is not empty.
pub open spec fn lines_from(s: Seq<char>, cur: Seq<char>, acc: Seq<Seq<char>>) -> Seq<Seq<char>>
    decreases s.len(),
{
    if s.len() == 0 {
        if cur.len() == 0 {
            acc
        } else {
            acc.push(cur)
        }
    } else if s[0] == '\n' {
        lines_from(s.drop_first(), Seq::empty(), acc.push(strip_cr(cur)))
    } else {
        lines_from(s.drop_first(), cur.push(s[0]), acc)
    }
}

/// The lines of a text, as `str::lines` gives them.
pub open spec fn lines_of(s: Seq<char>) -> Seq<Seq<char>> {
    lines_from(s, Seq::empty(), Seq::empty())
}

/// A heading without the backticks and asterisks of inline code and emphasis.
pub open spec fn unmarked(s: Seq<char>) -> Seq<char>
    decreases s.len(),
{
    if s.len() == 0 {
        Seq::empty()
    } else if s.last() == '`' || s.last() == '*' {
        unmarked(s.drop_last())
    } else {
        unmarked(s.drop_last()).push(s.last())
    }
}

/// A section as (article slug, article title, heading, anchor, body).
pub type SectionView = (Seq<char>, Seq<char>, Seq<char>, Seq<char>, Seq<char>);

/// The lines gathered under a heading become a section when, joined and
/// trimmed, they are not empty.
pub open spec fn flushed(
    out: Seq<SectionView>,
    slug: Seq<char>,
    title: Seq<char>,
    heading: Seq<char>,
    anchor: Seq<char>,
    buf: Seq<Seq<char>>,
) -> Seq<SectionView> {
    let text = trim_seq(join(buf, "\n"@));
    if text.len() == 0 {
        out
    } else {
        out.push((slug, title, heading, anchor, text))
    }
}

/// Reads the lines of an article: a `## ` line closes the section before it and
/// opens one under its heading (marks removed, trimmed) and that heading's
/// anchor; a `# ` line is the article's own title and is skipped; any other
/// line belongs to the open section. What precedes the first `## ` is the
/// introduction, under the article's title and an empty anchor.
pub open spec fn sections_from(
    lines: Seq<Seq<char>>,
    slug: Seq<char>,
    title: Seq<char>,
    heading: Seq<char>,
    anchor: Seq<char>,
    buf: Seq<Seq<char>>,
    out: Seq<SectionView>,
) -> Seq<SectionView>
    decreases lines.len(),
{
    if lines.len() == 0 {
        flushed(out, slug, title, heading, anchor, buf)
    } else {
        let l = lines[0];
        if starts_with(l, "## "@) {
            let h = trim_seq(unmarked(l.skip(3)));
            sections_from(
                lines.drop_first(),
                slug,
                title,
                h,
                slug_of(h),
                Seq::empty(),
                flushed(out, slug, title, heading, anchor, buf),
            )
        } else if starts_with(l, "# "@) {
            sections_from(lines.drop_first(), slug, title, heading, anchor, buf, out)
        } else {
            sections_from(lines.drop_first(), slug, title, heading, anchor, buf.push(l), out)
        }
    }
}

/// The sections of one article, one per `## ` heading plus the introduction.
pub open spec fn sections_of(slug: Seq<char>, title: Seq<char>, body: Seq<char>) -> Seq<SectionView> {
    sections_from(lines_of(body), slug, title, title, Seq::empty(), Seq::empty(), Seq::empty())
}

/// One indexed section of the manual.
pub struct Section {
    pub slug: String,
    pub title: String,
    pub heading: String,
    pub anchor: String,
    pub body: String,
}

pub open spec fn section_view(s: Section) -> SectionView {
    (s.slug@, s.title@, s.heading@, s.anchor@, s.body@)
}

pub open spec fn sections_view(s: Seq<Section>) -> Seq<SectionView> {
    s.map_values(|x: Section| section_view(x))
}

fn lines(text: &str) -> (r: Vec<Vec<char>>)
    ensures
        vecs_view(r@) == lines_of(text@),
{
    let v = chars_of(text);
    let mut acc: Vec<Vec<char>> = Vec::new();
    let mut cur: Vec<char> = Vec::new();
    let mut i: usize = 0;
    proof {
        assert(v@.skip(0) =~= v@);
        assert(vecs_view(acc@) =~= Seq::<Seq<char>>::empty());
        assert(cur@ =~= Seq::<char>::empty());
    }
    while i < v.len()
        invariant
            v@ == text@,
            i <= v@.len(),
            lines_of(text@) == lines_from(v@.skip(i as int), cur@, vecs_view(acc@)),
        decreases v.len() - i,
    {
        let c = v[i];
        proof {
            assert(v@.skip(i as int)[0] == c);
            assert(v@.skip(i as int).drop_first() =~= v@.skip(i + 1));
        }
        if c == '\n' {
            let ghost before = vecs_view(acc@);
            let ghost line = cur@;
            let n = cur.len();
            if n > 0 && cur[n - 1] == '\r' {
                cur.pop();
            }
            proof {
                assert(cur@ =~= strip_cr(line));
            }
            acc.push(cur);
            cur = Vec::new();
            proof {
                assert(vecs_view(acc@) =~= before.push(strip_cr(line)));
                assert(cur@ =~= Seq::<char>::empty());
            }
        } else {
            cur.push(c);
        }
        i = i + 1;
    }
    proof {
        assert(v@.skip(v@.len() as int) =~= Seq::<char>::empty());
    }
    if cur.len() > 0 {
        let ghost before = vecs_view(acc@);
        let ghost line = cur@;
        acc.push(cur);
        proof {
            assert(vecs_view(acc@) =~= before.push(line));
        }
    }
    acc
}

fn unmarked_chars(s: &Vec<char>) -> (r: Vec<char>)
    ensures
        r@ == unmarked(s@),
{
    let mut out: Vec<char> = Vec::new();
    let mut i: usize = 0;
    proof {
        assert(s@.take(0) =~= Seq::<char>::empty());
    }
    while i < s.len()
        invariant
            i <= s@.len(),
            out@ == unmarked(s@.take(i as int)),
        decreases s.len() - i,
    {
        proof {
            assert(s@.take(i + 1).drop_last() =~= s@.take(i as int));
            assert(s@.take(i + 1).last() == s@[i as int]);
        }
        let c = s[i];
        if c != '`' && c != '*' {
            out.push(c);
        }
        i = i + 1;
    }
    proof {
        assert(s@.take(s@.len() as int) =~= s@);
    }
    out
}

fn begins_with(l: &Vec<char>, p: &str) -> (r: bool)
    ensures
        r == starts_with(l@, p@),
{
    let pv = chars_of(p);
    if pv.len() > l.len() {
        return false;
    }
    let mut i: usize = 0;
    while i < pv.len()
        invariant
            pv@ == p@,
            pv@.len() <= l@.len(),
            i <= pv@.len(),
            forall|j: int| 0 <= j < i ==> l@[j] == pv@[j],
        decreases pv.len() - i,
    {
        if l[i] != pv[i] {
            proof {
                assert(l@.take(pv@.len() as int)[i as int] != pv@[i as int]);
            }
            return false;
        }
        i = i + 1;
    }
    proof {
        assert(l@.take(pv@.len() as int) =~= pv@);
    }
    true
}

fn flush(
    out: &mut Vec<Section>,
    slug: &str,
    title: &str,
    heading: &Vec<char>,
    anchor: &Vec<char>,
    buf: &Vec<Vec<char>>,
)
    ensures
        sections_view(final(out)@) == flushed(
            sections_view(old(out)@),
            slug@,
            title@,
            heading@,
            anchor@,
            vecs_view(buf@),
        ),
{
    let nl = vec!['\n'];
    proof {
        reveal_strlit("\n");
        assert(nl@ =~= "\n"@);
    }
    let joined = join_chars(buf, &nl);
    let text = trim_chars(&joined);
    if text.len() > 0 {
        let ghost before = sections_view(out@);
        let s = Section {
            slug: string_of(&chars_of(slug)),
            title: string_of(&chars_of(title)),
            heading: string_of(heading),
            anchor: string_of(anchor),
            body: string_of(&text),
        };
        out.push(s);
        proof {
            assert(sections_view(out@) =~= before.push((slug@, title@, heading@, anchor@, text@)));
        }
    }
}

/// The sections of one article of the manual.
pub fn article_sections(slug: &str, title: &str, body: &str) -> (r: Vec<Section>)
    ensures
        sections_view(r@) == sections_of(slug@, title@, body@),
{
    let ls = lines(body);
    let mut out: Vec<Section> = Vec::new();
    let mut heading: Vec<char> = chars_of(title);
    let mut anchor: Vec<char> = Vec::new();
    let mut buf: Vec<Vec<char>> = Vec::new();
    let mut i: usize = 0;
    proof {
        assert(vecs_view(ls@).skip(0) =~= vecs_view(ls@));
        assert(sections_view(out@) =~= Seq::<SectionView>::empty());
        assert(vecs_view(buf@) =~= Seq::<Seq<char>>::empty());
        assert(anchor@ =~= Seq::<char>::empty());
    }
    while i < ls.len()
        invariant
            i <= ls@.len(),
            sections_of(slug@, title@, body@) == sections_from(
                vecs_view(ls@).skip(i as int),
                slug@,
                title@,
                heading@,
                anchor@,
                vecs_view(buf@),
                sections_view(out@),
            ),
        decreases ls.len() - i,
    {
        let l = &ls[i];
        proof {
            assert(vecs_view(ls@).skip(i as int)[0] == l@);
            assert(vecs_view(ls@).skip(i as int).drop_first() =~= vecs_view(ls@).skip(i + 1));
        }
        if begins_with(l, "## ") {
            flush(&mut out, slug, title, &heading, &anchor, &buf);
            proof {
                reveal_strlit("## ");
            }
            let rest = crate::text::slice_chars(l, 3, l.len());
            proof {
                assert(rest@ =~= l@.skip(3));
            }
            let h = trim_chars(&unmarked_chars(&rest));
            let a = slugify(string_of(&h).as_str());
            heading = h;
            anchor = chars_of(a.as_str());
            buf = Vec::new();
            proof {
                assert(vecs_view(buf@) =~= Seq::<Seq<char>>::empty());
            }
        } else if begins_with(l, "# ") {
        } else {
            let ghost before = vecs_view(buf@);
            buf.push(l.clone());
            proof {
                assert(vecs_view(buf@) =~= before.push(l@));
            }
        }
        i = i + 1;
    }
    proof {
        assert(vecs_view(ls@).skip(ls@.len() as int) =~= Seq::<Seq<char>>::empty());
    }
    flush(&mut out, slug, title, &heading, &anchor, &buf);
    out
}

/// The sections of every article, article by article: (slug, title, body)
/// each.
pub open spec fn all_sections(articles: Seq<(Seq<char>, Seq<char>, Seq<char>)>) -> Seq<SectionView>
    decreases articles.len(),
{
    if articles.len() == 0 {
        Seq::empty()
    } else {
        let a = articles.last();
        all_sections(articles.drop_last()) + sections_of(a.0, a.1, a.2)
    }
}

pub open spec fn articles_view(a: Seq<(String, String, String)>) -> Seq<(Seq<char>, Seq<char>, Seq<char>)> {
    a.map_values(|x: (String, String, String)| (x.0@, x.1@, x.2@))
}

/// What the manual's search index is built from.
pub fn sections(articles: &Vec<(String, String, String)>) -> (r: Vec<Section>)
    ensures
        sections_view(r@) == all_sections(articles_view(articles@)),
{
    let mut out: Vec<Section> = Vec::new();
    let mut i: usize = 0;
    proof {
        assert(articles_view(articles@).take(0) =~= Seq::<(Seq<char>, Seq<char>, Seq<char>)>::empty());
        assert(sections_view(out@) =~= Seq::<SectionView>::empty());
    }
    while i < articles.len()
        invariant
            i <= articles@.len(),
            sections_view(out@) == all_sections(articles_view(articles@).take(i as int)),
        decreases articles.len() - i,
    {
        let a = &articles[i];
        proof {
            let t = articles_view(articles@).take(i + 1);
            assert(t.drop_last() =~= articles_view(articles@).take(i as int));
            assert(t.last() == (a.0@, a.1@, a.2@));
        }
        let ghost before = sections_view(out@);
        let mut more = article_sections(a.0.as_str(), a.1.as_str(), a.2.as_str());
        let ghost added = sections_view(more@);
        out.append(&mut more);
        proof {
            assert(sections_view(out@) =~= before + added);
        }
        i = i + 1;
    }
    proof {
        assert(articles_view(articles@).take(articles@.len() as int) =~= articles_view(articles@));
    }
    out
}

} // verus!
