//! Substring search over characters.
//!
//! A match of a valid UTF-8 needle inside valid UTF-8 text always starts on a
//! character boundary, and the first byte match is the first character match, so
//! searching characters finds what `str::find` finds; the offsets returned here are
//! in characters.
use vstd::prelude::*;

verus! {

/// `needle` stands in `hay` starting at character `i`.
pub open spec fn occurs_at(hay: Seq<char>, needle: Seq<char>, i: int) -> bool {
    0 <= i && i + needle.len() <= hay.len() && hay.subrange(i, i + needle.len()) == needle
}

/// `i` is where `needle` first stands in `hay`.
pub open spec fn first_at(hay: Seq<char>, needle: Seq<char>, i: int) -> bool {
    occurs_at(hay, needle, i) && forall|j: int| 0 <= j < i ==> !#[trigger] occurs_at(hay, needle, j)
}

/// The first position of `needle` in `hay`, if it stands there at all.
pub open spec fn find_first(hay: Seq<char>, needle: Seq<char>) -> Option<int> {
    if exists|i: int| occurs_at(hay, needle, i) {
        Some(choose|i: int| first_at(hay, needle, i))
    } else {
        None
    }
}

/// There is at most one first position.
pub proof fn lemma_first_unique(hay: Seq<char>, needle: Seq<char>, i: int, j: int)
    requires
        first_at(hay, needle, i),
        first_at(hay, needle, j),
    ensures
        i == j,
{
    if i < j {
        assert(!occurs_at(hay, needle, i));
    }
    if j < i {
        assert(!occurs_at(hay, needle, j));
    }
}

/// A position found by a left-to-right scan is what `find_first` names.
pub proof fn lemma_find_first_is(hay: Seq<char>, needle: Seq<char>, i: int)
    requires
        first_at(hay, needle, i),
    ensures
        find_first(hay, needle) == Some(i),
{
    assert(occurs_at(hay, needle, i));
    let c = choose|k: int| first_at(hay, needle, k);
    assert(first_at(hay, needle, c));
    lemma_first_unique(hay, needle, i, c);
}

/// Whether `needle` stands in `hay` at `i` (checked character by character).
pub fn matches_at(hay: &Vec<char>, needle: &Vec<char>, i: usize) -> (b: bool)
    requires
        i + needle.len() <= hay.len(),
    ensures
        b == occurs_at(hay@, needle@, i as int),
{
    let mut k: usize = 0;
    while k < needle.len()
        invariant
            i + needle.len() <= hay.len(),
            k <= needle.len(),
            forall|m: int| 0 <= m < k ==> hay@[i + m] == needle@[m],
        decreases needle.len() - k,
    {
        if hay[i + k] != needle[k] {
            proof {
                assert(hay@.subrange(i as int, i + needle.len())[k as int] != needle@[k as int]);
            }
            return false;
        }
        k = k + 1;
    }
    proof {
        assert(hay@.subrange(i as int, i + needle@.len()) =~= needle@);
    }
    true
}

/// The first position of `needle` in `hay`.
pub fn find_chars(hay: &Vec<char>, needle: &Vec<char>) -> (r: Option<usize>)
    ensures
        r == (match find_first(hay@, needle@) {
            Some(i) => Some(i as usize),
            None => None,
        }),
        r matches Some(i) ==> first_at(hay@, needle@, i as int),
{
    if needle.len() > hay.len() {
        assert forall|j: int| !occurs_at(hay@, needle@, j) by {}
        return None;
    }
    let last = hay.len() - needle.len();
    let mut i: usize = 0;
    while i <= last
        invariant
            last == hay.len() - needle.len(),
            needle.len() <= hay.len(),
            i <= last + 1,
            forall|j: int| 0 <= j < i ==> !#[trigger] occurs_at(hay@, needle@, j),
        decreases last + 1 - i,
    {
        if matches_at(hay, needle, i) {
            proof {
                lemma_find_first_is(hay@, needle@, i as int);
            }
            return Some(i);
        }
        if i == last {
            assert forall|j: int| !occurs_at(hay@, needle@, j) by {
                if 0 <= j <= i {
                }
            }
            return None;
        }
        i = i + 1;
    }
    assert forall|j: int| !occurs_at(hay@, needle@, j) by {
        if 0 <= j < i {
        }
    }
    None
}

/// `str::split` with a non-empty separator: the pieces between the separator's
/// non-overlapping occurrences, left to right, empty pieces included.
pub open spec fn split_seq(s: Seq<char>, sep: Seq<char>) -> Seq<Seq<char>>
    decreases s.len(),
{
    if sep.len() == 0 {
        seq![s]
    } else {
        match find_first(s, sep) {
            None => seq![s],
            Some(i) => if 0 <= i && i + sep.len() <= s.len() {
                seq![s.take(i)] + split_seq(s.skip(i + sep.len()), sep)
            } else {
                seq![s]
            },
        }
    }
}

/// Splitting always gives at least one piece.
pub proof fn lemma_split_nonempty(s: Seq<char>, sep: Seq<char>)
    ensures
        split_seq(s, sep).len() >= 1,
{
}

pub proof fn lemma_find_first_bounds(hay: Seq<char>, needle: Seq<char>)
    ensures
        find_first(hay, needle) matches Some(i) ==> first_at(hay, needle, i),
{
    if exists|i: int| occurs_at(hay, needle, i) {
        let w = choose|i: int| occurs_at(hay, needle, i);
        lemma_least_occurrence(hay, needle, w);
    }
}

/// Any occurrence implies a first one.
pub proof fn lemma_least_occurrence(hay: Seq<char>, needle: Seq<char>, w: int)
    requires
        occurs_at(hay, needle, w),
    ensures
        exists|i: int| first_at(hay, needle, i),
    decreases w,
{
    if forall|j: int| 0 <= j < w ==> !#[trigger] occurs_at(hay, needle, j) {
        assert(first_at(hay, needle, w));
    } else {
        let j = choose|j: int| 0 <= j < w && occurs_at(hay, needle, j);
        lemma_least_occurrence(hay, needle, j);
    }
}

/// Splits `s` at every occurrence of the non-empty `sep`.
pub fn split_chars(s: &Vec<char>, sep: &Vec<char>) -> (out: Vec<Vec<char>>)
    requires
        sep.len() > 0,
    ensures
        out@.len() == split_seq(s@, sep@).len(),
        forall|k: int| 0 <= k < out@.len() ==> #[trigger] out@[k]@ == split_seq(s@, sep@)[k],
{
    let mut out: Vec<Vec<char>> = Vec::new();
    let mut rest: Vec<char> = s.clone();
    let ghost done: Seq<Seq<char>> = Seq::empty();
    proof {
        assert(rest@ =~= s@);
    }
    loop
        invariant
            sep.len() > 0,
            out@.len() == done.len(),
            forall|k: int| 0 <= k < out@.len() ==> #[trigger] out@[k]@ == done[k],
            split_seq(s@, sep@) == done + split_seq(rest@, sep@),
        decreases rest@.len(),
    {
        proof {
            lemma_find_first_bounds(rest@, sep@);
        }
        match find_chars(&rest, sep) {
            None => {
                proof {
                    assert(split_seq(rest@, sep@) == seq![rest@]);
                    assert(split_seq(s@, sep@) =~= done.push(rest@));
                }
                out.push(rest);
                return out;
            },
            Some(i) => {
                assert(occurs_at(rest@, sep@, i as int));
                assert(i + sep@.len() <= rest@.len());
                let n = rest.len();
                let j = i + sep.len();
                let piece = crate::text::slice_chars(&rest, 0, i);
                let after = crate::text::slice_chars(&rest, j, rest.len());
                proof {
                    assert(piece@ =~= rest@.take(i as int));
                    assert(after@ =~= rest@.skip(i + sep@.len()));
                    assert(split_seq(rest@, sep@) == seq![rest@.take(i as int)] + split_seq(
                        after@,
                        sep@,
                    ));
                    assert(done.push(piece@) + split_seq(after@, sep@) =~= done + (seq![
                        rest@.take(i as int),
                    ] + split_seq(after@, sep@)));
                    done = done.push(piece@);
                }
                out.push(piece);
                rest = after;
            },
        }
    }
}

/// Whether `needle` stands anywhere in `hay`.
/// `needle` stands somewhere in `hay`.
pub open spec fn contains_seq(hay: Seq<char>, needle: Seq<char>) -> bool {
    exists|i: int| occurs_at(hay, needle, i)
}

pub fn contains_chars(hay: &Vec<char>, needle: &Vec<char>) -> (b: bool)
    ensures
        b == exists|i: int| occurs_at(hay@, needle@, i),
        b == contains_seq(hay@, needle@),
{
    match find_chars(hay, needle) {
        Some(i) => {
            assert(occurs_at(hay@, needle@, i as int));
            true
        },
        None => false,
    }
}

/// Whether `s` begins with `p`.
pub open spec fn starts_with(s: Seq<char>, p: Seq<char>) -> bool {
    p.len() <= s.len() && s.take(p.len() as int) == p
}

pub fn starts_with_chars(s: &Vec<char>, p: &Vec<char>) -> (b: bool)
    ensures
        b == starts_with(s@, p@),
{
    if p.len() > s.len() {
        return false;
    }
    let r = matches_at(s, p, 0);
    proof {
        assert(s@.subrange(0, p@.len() as int) =~= s@.take(p@.len() as int));
    }
    r
}

} // verus!
