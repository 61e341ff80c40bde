//! Reading a server-sent event stream back: a turn ends in `done` or `error`,
//! and those are counted by frame, never by substring, since an answer may well
//! mention `event: done` in its text.
use vstd::prelude::*;
use crate::search::{split_chars, split_seq, starts_with, starts_with_chars};
use crate::text::{chars_of, string_of, trim_chars, trim_seq};

verus! {

pub open spec fn frame_sep() -> Seq<char> {
    seq!['\n', '\n']
}

pub open spec fn line_sep() -> Seq<char> {
    seq!['\n']
}

pub open spec fn event_tag() -> Seq<char> {
    seq!['e', 'v', 'e', 'n', 't', ':']
}

pub open spec fn data_tag() -> Seq<char> {
    seq!['d', 'a', 't', 'a', ':']
}

/// The kind a frame's lines give it: the trimmed rest of its last `event:` line,
/// empty when it has none.
pub open spec fn frame_kind(lines: Seq<Seq<char>>) -> Seq<char>
    decreases lines.len(),
{
    if lines.len() == 0 {
        Seq::empty()
    } else if starts_with(lines.last(), event_tag()) {
        trim_seq(lines.last().skip(6))
    } else {
        frame_kind(lines.drop_last())
    }
}

/// The data a frame carries: the trimmed rests of its `data:` lines, concatenated.
pub open spec fn frame_data(lines: Seq<Seq<char>>) -> Seq<char>
    decreases lines.len(),
{
    if lines.len() == 0 {
        Seq::empty()
    } else {
        let l = lines.last();
        frame_data(lines.drop_last()) + if !starts_with(l, event_tag()) && starts_with(
            l,
            data_tag(),
        ) {
            trim_seq(l.skip(5))
        } else {
            Seq::empty()
        }
    }
}

pub open spec fn kind_of(frame: Seq<char>) -> Seq<char> {
    frame_kind(split_seq(frame, line_sep()))
}

pub open spec fn data_of(frame: Seq<char>) -> Seq<char> {
    frame_data(split_seq(frame, line_sep()))
}

pub open spec fn done_kind() -> Seq<char> {
    seq!['d', 'o', 'n', 'e']
}

pub open spec fn error_kind() -> Seq<char> {
    seq!['e', 'r', 'r', 'o', 'r']
}

/// How many of the frames are of kind `k`.
pub open spec fn count_kind(frames: Seq<Seq<char>>, k: Seq<char>) -> nat
    decreases frames.len(),
{
    if frames.len() == 0 {
        0
    } else {
        count_kind(frames.drop_last(), k) + if kind_of(frames.last()) == k {
            1nat
        } else {
            0nat
        }
    }
}

/// The data of the `error` frames, in order.
pub open spec fn error_reasons(frames: Seq<Seq<char>>) -> Seq<Seq<char>>
    decreases frames.len(),
{
    if frames.len() == 0 {
        Seq::empty()
    } else if kind_of(frames.last()) == error_kind() {
        error_reasons(frames.drop_last()).push(data_of(frames.last()))
    } else {
        error_reasons(frames.drop_last())
    }
}

/// The terminal count of a stream: (done frames, error frames, the error frames' data).
pub open spec fn terminal_count(sse: Seq<char>) -> (nat, nat, Seq<Seq<char>>) {
    let frames = split_seq(sse, frame_sep());
    (count_kind(frames, done_kind()), count_kind(frames, error_kind()), error_reasons(frames))
}

/// Kind and data of one frame.
fn read_frame(frame: &Vec<char>) -> (r: (Vec<char>, Vec<char>))
    ensures
        r.0@ == kind_of(frame@),
        r.1@ == data_of(frame@),
{
    let nl: Vec<char> = vec!['\n'];
    let ev: Vec<char> = vec!['e', 'v', 'e', 'n', 't', ':'];
    let da: Vec<char> = vec!['d', 'a', 't', 'a', ':'];
    proof {
        assert(nl@ =~= line_sep());
        assert(ev@ =~= event_tag());
        assert(da@ =~= data_tag());
    }
    let lines = split_chars(frame, &nl);
    let ghost ls = split_seq(frame@, line_sep());
    let mut kind: Vec<char> = Vec::new();
    let mut data: Vec<char> = Vec::new();
    let mut i: usize = 0;
    proof {
        assert(ls.take(0) =~= Seq::<Seq<char>>::empty());
    }
    while i < lines.len()
        invariant
            ev@ == event_tag(),
            da@ == data_tag(),
            ls == split_seq(frame@, line_sep()),
            lines@.len() == ls.len(),
            forall|k: int| 0 <= k < lines@.len() ==> #[trigger] lines@[k]@ == ls[k],
            i <= lines.len(),
            kind@ == frame_kind(ls.take(i as int)),
            data@ == frame_data(ls.take(i as int)),
        decreases lines.len() - i,
    {
        let line = &lines[i];
        proof {
            assert(ls.take(i + 1).drop_last() =~= ls.take(i as int));
            assert(ls.take(i + 1).last() == line@);
        }
        if starts_with_chars(line, &ev) {
            let rest = crate::text::slice_chars(line, 6, line.len());
            kind = trim_chars(&rest);
            proof {
                assert(rest@ =~= line@.skip(6));
                assert(data@ + Seq::<char>::empty() =~= data@);
            }
        } else if starts_with_chars(line, &da) {
            let rest = crate::text::slice_chars(line, 5, line.len());
            let t = trim_chars(&rest);
            let mut k: usize = 0;
            let ghost before = data@;
            while k < t.len()
                invariant
                    k <= t.len(),
                    data@ == before + t@.take(k as int),
                decreases t.len() - k,
            {
                data.push(t[k]);
                proof {
                    assert(data@ =~= before + t@.take(k + 1));
                }
                k = k + 1;
            }
            proof {
                assert(rest@ =~= line@.skip(5));
                assert(t@.take(t@.len() as int) =~= t@);
            }
        } else {
            proof {
                assert(data@ + Seq::<char>::empty() =~= data@);
            }
        }
        i = i + 1;
    }
    proof {
        assert(ls.take(lines@.len() as int) =~= ls);
    }
    (kind, data)
}

/// Counts the terminal frames of a stream: how many `done`, how many `error`, and
/// what each `error` frame said.
pub fn terminals(sse: &str) -> (r: (usize, usize, Vec<String>))
    ensures
        r.0 == terminal_count(sse@).0,
        r.1 == terminal_count(sse@).1,
        r.2@.len() == terminal_count(sse@).2.len(),
        forall|k: int| 0 <= k < r.2@.len() ==> #[trigger] r.2@[k]@ == terminal_count(sse@).2[k],
{
    let v = chars_of(sse);
    let sep: Vec<char> = vec!['\n', '\n'];
    proof {
        assert(sep@ =~= frame_sep());
    }
    let frames = split_chars(&v, &sep);
    let ghost fs = split_seq(sse@, frame_sep());
    let done_v: Vec<char> = vec!['d', 'o', 'n', 'e'];
    let error_v: Vec<char> = vec!['e', 'r', 'r', 'o', 'r'];
    proof {
        assert(done_v@ =~= done_kind());
        assert(error_v@ =~= error_kind());
        assert(fs.take(0) =~= Seq::<Seq<char>>::empty());
    }
    let mut done: usize = 0;
    let mut error: usize = 0;
    let mut reasons: Vec<String> = Vec::new();
    let mut i: usize = 0;
    while i < frames.len()
        invariant
            fs == split_seq(sse@, frame_sep()),
            frames@.len() == fs.len(),
            forall|k: int| 0 <= k < frames@.len() ==> #[trigger] frames@[k]@ == fs[k],
            done_v@ == done_kind(),
            error_v@ == error_kind(),
            i <= frames.len(),
            done == count_kind(fs.take(i as int), done_kind()),
            error == count_kind(fs.take(i as int), error_kind()),
            done <= i,
            error <= i,
            reasons@.len() == error_reasons(fs.take(i as int)).len(),
            forall|k: int| 0 <= k < reasons@.len() ==> #[trigger] reasons@[k]@ == error_reasons(
                fs.take(i as int),
            )[k],
        decreases frames.len() - i,
    {
        let (kind, data) = read_frame(&frames[i]);
        proof {
            assert(fs.take(i + 1).drop_last() =~= fs.take(i as int));
            assert(fs.take(i + 1).last() == frames@[i as int]@);
        }
        let is_done = vec_eq(&kind, &done_v);
        let is_error = vec_eq(&kind, &error_v);
        if is_done {
            done = done + 1;
        }
        if is_error {
            error = error + 1;
            reasons.push(string_of(&data));
        }
        i = i + 1;
    }
    proof {
        assert(fs.take(frames@.len() as int) =~= fs);
    }
    (done, error, reasons)
}

/// Character-wise equality of two vectors.
pub fn vec_eq(a: &Vec<char>, b: &Vec<char>) -> (r: bool)
    ensures
        r == (a@ == b@),
{
    if a.len() != b.len() {
        return false;
    }
    let mut i: usize = 0;
    while i < a.len()
        invariant
            a.len() == b.len(),
            i <= a.len(),
            forall|k: int| 0 <= k < i ==> a@[k] == b@[k],
        decreases a.len() - i,
    {
        if a[i] != b[i] {
            return false;
        }
        i = i + 1;
    }
    assert(a@ =~= b@);
    true
}

} // verus!
