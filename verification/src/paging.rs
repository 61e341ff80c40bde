//! How list endpoints read their paging and search parameters: a page size
//! clamped into a range, an offset that is never negative, and a search term
//! that counts only when it is not blank.
use vstd::prelude::*;
use crate::text::{trim_seq, trim_str};

verus! {

pub open spec fn clamp(x: int, lo: int, hi: int) -> int {
    if x < lo {
        lo
    } else if x > hi {
        hi
    } else {
        x
    }
}

/// `x` clamped into `lo..=hi`.
pub fn clamp_i64(x: i64, lo: i64, hi: i64) -> (r: i64)
    requires
        lo <= hi,
    ensures
        r == clamp(x as int, lo as int, hi as int),
{
    if x < lo {
        lo
    } else if x > hi {
        hi
    } else {
        x
    }
}

/// The page size and offset of a list request: the size asked for (or
/// `default`) clamped into `lo..=hi`, and the offset asked for (or 0), never
/// below 0.
pub open spec fn window(limit: Option<i64>, offset: Option<i64>, default: i64, lo: i64, hi: i64) -> (int, int) {
    let l = match limit {
        Some(x) => x as int,
        None => default as int,
    };
    let o = match offset {
        Some(x) => x as int,
        None => 0,
    };
    (clamp(l, lo as int, hi as int), if o < 0 { 0 } else { o })
}

pub fn page_window(limit: Option<i64>, offset: Option<i64>, default: i64, lo: i64, hi: i64) -> (r: (i64, i64))
    requires
        lo <= hi,
    ensures
        r.0 == window(limit, offset, default, lo, hi).0,
        r.1 == window(limit, offset, default, lo, hi).1,
{
    let l = match limit {
        Some(x) => x,
        None => default,
    };
    let o = match offset {
        Some(x) => x,
        None => 0,
    };
    (clamp_i64(l, lo, hi), if o < 0 { 0 } else { o })
}

/// A page given by number: the size clamped into `1..=max_per`, and the offset
/// of page `page` (a negative page reads as the first).
pub open spec fn numbered_page(page: i64, per: i64, max_per: i64) -> (int, int) {
    let p = clamp(per as int, 1, max_per as int);
    let n = if page < 0 { 0 } else { page as int };
    (p, n * p)
}

pub fn page_offset(page: i64, per: i64, max_per: i64) -> (r: (i64, i64))
    requires
        1 <= max_per,
        numbered_page(page, per, max_per).1 <= i64::MAX,
    ensures
        r.0 == numbered_page(page, per, max_per).0,
        r.1 == numbered_page(page, per, max_per).1,
{
    let p = clamp_i64(per, 1, max_per);
    let n = if page < 0 { 0 } else { page };
    (p, n * p)
}

/// The search term of a list request: the trimmed text, when it is not blank.
pub open spec fn term(q: Option<Seq<char>>) -> Option<Seq<char>> {
    match q {
        Some(s) => if trim_seq(s).len() > 0 {
            Some(trim_seq(s))
        } else {
            None
        },
        None => None,
    }
}

pub open spec fn opt_view(q: Option<String>) -> Option<Seq<char>> {
    match q {
        Some(s) => Some(s@),
        None => None,
    }
}

pub fn search_term(q: &Option<String>) -> (r: Option<String>)
    ensures
        opt_view(r) == term(opt_view(*q)),
{
    match q {
        Some(s) => {
            let t = trim_str(s.as_str());
            if t.unicode_len() > 0 {
                Some(t)
            } else {
                None
            }
        },
        None => None,
    }
}

} // verus!
