//! File names: what a `Content-Disposition` header may carry, and the names
//! fetched pages and pushed items are stored under.
use vstd::prelude::*;
use crate::text::{chars_of, string_of};

verus! {

/// Characters kept verbatim in a header file name.
pub open spec fn header_safe(c: char) -> bool {
    ('a' <= c && c <= 'z') || ('A' <= c && c <= 'Z') || ('0' <= c && c <= '9') || c == '.' || c
        == '-' || c == '_'
}

/// A file name with every character outside `[A-Za-z0-9._-]` replaced by `_`,
/// one for one.
pub open spec fn ascii_name(s: Seq<char>) -> Seq<char> {
    Seq::new(s.len(), |i: int| if header_safe(s[i]) { s[i] } else { '_' })
}

pub fn ascii_filename(name: &str) -> (out: String)
    ensures
        out@ == ascii_name(name@),
{
    let v = chars_of(name);
    let mut w: Vec<char> = Vec::new();
    let mut i: usize = 0;
    while i < v.len()
        invariant
            i <= v.len(),
            v@ == name@,
            w@ == ascii_name(v@).take(i as int),
        decreases v.len() - i,
    {
        let c = v[i];
        let keep = ('a' <= c && c <= 'z') || ('A' <= c && c <= 'Z') || ('0' <= c && c <= '9')
            || c == '.' || c == '-' || c == '_';
        w.push(if keep { c } else { '_' });
        proof {
            assert(w@ =~= ascii_name(v@).take(i + 1));
        }
        i = i + 1;
    }
    proof {
        assert(w@ =~= ascii_name(v@));
    }
    string_of(&w)
}

} // verus!
