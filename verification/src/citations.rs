//! Citation numbers: how a turn hands them out, and how the numbers an answer
//! cites are read back in the shape the page draws as marks (`[1]`, `[1][3]`,
//! `[4, 6]`, `[2，5]`).
use vstd::prelude::*;
use crate::text::chars_of;

verus! {

// ---------------------------------------------------------------------------
// Handing numbers out
// ---------------------------------------------------------------------------

/// What a turn's tools gather: the citation keys (a chunk id, or
/// `charter:{slug}#{anchor}` for a manual section) and the source each stands for.
/// A key's number is its position plus one.
pub struct ToolSink<S> {
    pub source_ids: Vec<String>,
    pub sources: Vec<S>,
}

impl<S> ToolSink<S> {
    /// One source per key, and no key twice.
    pub open spec fn wf(&self) -> bool {
        &&& self.source_ids@.len() == self.sources@.len()
        &&& forall|a: int, b: int|
            0 <= a < b < self.source_ids@.len() ==> #[trigger] self.source_ids@[a]@
                != #[trigger] self.source_ids@[b]@
    }

    /// The keys, as character sequences.
    pub open spec fn keys(&self) -> Seq<Seq<char>> {
        self.source_ids@.map_values(|k: String| k@)
    }

    pub fn new() -> (s: Self)
        ensures
            s.wf(),
            s.source_ids@.len() == 0,
    {
        ToolSink { source_ids: Vec::new(), sources: Vec::new() }
    }

    /// The number the next new key would get.
    pub fn next_number(&self) -> (n: usize)
        requires
            self.source_ids@.len() < usize::MAX,
        ensures
            n == self.source_ids@.len() + 1,
    {
        self.source_ids.len() + 1
    }

    /// The number of `key`: its old number when it was cited before (and then
    /// nothing changes), else the next number, with `source` recorded for it.
    pub fn cite(&mut self, key: String, source: S) -> (n: usize)
        requires
            old(self).wf(),
            old(self).source_ids@.len() < usize::MAX,
        ensures
            final(self).wf(),
            match index_of_key(old(self).keys(), key@) {
                Some(i) => {
                    &&& n == i + 1
                    &&& final(self).source_ids@ == old(self).source_ids@
                    &&& final(self).sources@ == old(self).sources@
                },
                None => {
                    &&& n == old(self).source_ids@.len() + 1
                    &&& final(self).source_ids@ == old(self).source_ids@.push(key)
                    &&& final(self).sources@ == old(self).sources@.push(source)
                },
            },
    {
        proof {
            lemma_keys_distinct(&*self);
        }
        let mut i: usize = 0;
        while i < self.source_ids.len()
            invariant
                *self == *old(self),
                self.wf(),
                forall|a: int, b: int|
                    0 <= a < b < self.keys().len() ==> self.keys()[a] != self.keys()[b],
                i <= self.source_ids@.len(),
                forall|j: int| 0 <= j < i ==> self.source_ids@[j]@ != key@,
            decreases self.source_ids@.len() - i,
        {
            if self.source_ids[i] == key {
                proof {
                    lemma_index_of_key(self.keys(), key@, i as int);
                }
                return i + 1;
            }
            i = i + 1;
        }
        proof {
            lemma_no_key(self.keys(), key@);
        }
        self.source_ids.push(key);
        self.sources.push(source);
        self.source_ids.len()
    }
}

/// The keys after citing these (key, source) pairs in order.
pub open spec fn keys_after<S>(pairs: Seq<(Seq<char>, S)>, keys: Seq<Seq<char>>) -> Seq<Seq<char>>
    decreases pairs.len(),
{
    if pairs.len() == 0 {
        keys
    } else {
        let k = keys_after(pairs.drop_last(), keys);
        if index_of_key(k, pairs.last().0) is Some {
            k
        } else {
            k.push(pairs.last().0)
        }
    }
}

/// The sources after citing these (key, source) pairs in order: each key not
/// cited before gets the source given beside it; a key cited before keeps the
/// source it had.
pub open spec fn sources_after<S>(pairs: Seq<(Seq<char>, S)>, keys: Seq<Seq<char>>, sources: Seq<S>) -> Seq<S>
    decreases pairs.len(),
{
    if pairs.len() == 0 {
        sources
    } else {
        let s = sources_after(pairs.drop_last(), keys, sources);
        if index_of_key(keys_after(pairs.drop_last(), keys), pairs.last().0) is Some {
            s
        } else {
            s.push(pairs.last().1)
        }
    }
}

/// One `cite` carries `keys_after` and `sources_after` one pair further.
pub proof fn lemma_cite_pair<S>(
    before: ToolSink<S>,
    after: ToolSink<S>,
    key: String,
    source: S,
    pairs: Seq<(Seq<char>, S)>,
    keys0: Seq<Seq<char>>,
    sources0: Seq<S>,
)
    requires
        before.keys() == keys_after(pairs, keys0),
        before.sources@ == sources_after(pairs, keys0, sources0),
        match index_of_key(before.keys(), key@) {
            Some(i) => after.source_ids@ == before.source_ids@ && after.sources@ == before.sources@,
            None => after.source_ids@ == before.source_ids@.push(key) && after.sources@
                == before.sources@.push(source),
        },
    ensures
        after.keys() == keys_after(pairs.push((key@, source)), keys0),
        after.sources@ == sources_after(pairs.push((key@, source)), keys0, sources0),
{
    let p2 = pairs.push((key@, source));
    assert(p2.drop_last() =~= pairs);
    assert(p2.last() == (key@, source));
    if index_of_key(before.keys(), key@) is None {
        assert(after.keys() =~= before.keys().push(key@));
    } else {
        assert(after.keys() =~= before.keys());
    }
}

proof fn lemma_keys_distinct<S>(sink: &ToolSink<S>)
    requires
        sink.wf(),
    ensures
        forall|a: int, b: int| 0 <= a < b < sink.keys().len() ==> sink.keys()[a] != sink.keys()[b],
{
    let keys = sink.keys();
    assert forall|a: int, b: int| 0 <= a < b < keys.len() implies keys[a] != keys[b] by {
        assert(keys[a] == sink.source_ids@[a]@);
        assert(keys[b] == sink.source_ids@[b]@);
    }
}

/// Where `key` stands in `keys`, if it does.
pub open spec fn index_of_key(keys: Seq<Seq<char>>, key: Seq<char>) -> Option<int> {
    if exists|i: int| 0 <= i < keys.len() && keys[i] == key {
        Some(choose|i: int| 0 <= i < keys.len() && keys[i] == key)
    } else {
        None
    }
}

proof fn lemma_index_of_key(keys: Seq<Seq<char>>, key: Seq<char>, i: int)
    requires
        0 <= i < keys.len(),
        keys[i] == key,
        forall|j: int| 0 <= j < i ==> keys[j] != key,
        forall|a: int, b: int| 0 <= a < b < keys.len() ==> keys[a] != keys[b],
    ensures
        index_of_key(keys, key) == Some(i),
{
    let c = choose|c: int| 0 <= c < keys.len() && keys[c] == key;
    if c != i {
        if c < i {
            assert(keys[c] != key);
        } else {
            assert(keys[i] != keys[c]);
        }
    }
}

proof fn lemma_no_key(keys: Seq<Seq<char>>, key: Seq<char>)
    requires
        forall|j: int| 0 <= j < keys.len() ==> keys[j] != key,
    ensures
        index_of_key(keys, key) is None,
{
}

/// Citing a key that was already cited gives its old number back and leaves the
/// sink as it was, so a chunk keeps one number for the whole turn.
pub proof fn law_cite_is_stable<S>(sink: ToolSink<S>, i: int)
    requires
        sink.wf(),
        0 <= i < sink.source_ids@.len(),
    ensures
        index_of_key(sink.keys(), sink.keys()[i]) == Some(i),
{
    let keys = sink.keys();
    lemma_keys_distinct(&sink);
    assert forall|j: int| 0 <= j < i implies keys[j] != keys[i] by {}
    lemma_index_of_key(keys, keys[i], i);
}

// ---------------------------------------------------------------------------
// Reading numbers back
// ---------------------------------------------------------------------------

pub open spec fn is_digit(c: char) -> bool {
    '0' <= c && c <= '9'
}

/// How many digits stand at `j` in a row.
pub open spec fn digit_run(s: Seq<char>, j: int) -> nat
    decreases s.len() - j,
{
    if 0 <= j < s.len() && is_digit(s[j]) {
        1 + digit_run(s, j + 1)
    } else {
        0
    }
}

/// How many spaces stand at `j` in a row.
pub open spec fn space_run(s: Seq<char>, j: int) -> nat
    decreases s.len() - j,
{
    if 0 <= j < s.len() && s[j] == ' ' {
        1 + space_run(s, j + 1)
    } else {
        0
    }
}

/// The value of a run of decimal digits.
pub open spec fn decimal(d: Seq<char>) -> nat
    decreases d.len(),
{
    if d.len() == 0 {
        0
    } else {
        decimal(d.drop_last()) * 10 + (d.last() as nat - '0' as nat) as nat
    }
}

/// The largest number read as a citation.
pub open spec fn max_cited() -> nat {
    u32::MAX as nat
}

/// Reads the rest of a mark from `j`, after the numbers `acc`: a number (a digit
/// other than `0` first, at most `max_cited()`), then either `]`, which ends the
/// mark, or a `,` or `，` followed by any spaces and the next number.
pub open spec fn list_from(s: Seq<char>, j: int, acc: Seq<nat>) -> Option<Seq<nat>>
    decreases s.len() - j,
{
    let k = digit_run(s, j);
    if j < 0 || j >= s.len() || k == 0 || s[j] == '0' {
        None
    } else {
        let n = decimal(s.subrange(j, j + k));
        let p = j + k;
        if n > max_cited() || p >= s.len() {
            None
        } else if s[p] == ']' {
            Some(acc.push(n))
        } else if s[p] == ',' || s[p] == '\u{ff0c}' {
            let q = p + 1 + space_run(s, p + 1);
            proof {
                lemma_space_run_bound(s, p + 1);
            }
            if j < q {
                list_from(s, q, acc.push(n))
            } else {
                None
            }
        } else {
            None
        }
    }
}

/// The numbers of the mark that opens at `i`, if a mark opens there.
pub open spec fn mark_at(s: Seq<char>, i: int) -> Option<Seq<nat>> {
    if 0 <= i < s.len() && s[i] == '[' {
        list_from(s, i + 1, Seq::empty())
    } else {
        None
    }
}

/// The mark that opens at `i` lists `n`.
pub open spec fn mark_cites(s: Seq<char>, i: int, n: nat) -> bool {
    match mark_at(s, i) {
        Some(ns) => ns.contains(n),
        None => false,
    }
}

/// `n` is cited by some mark of `s` that opens before `upto`.
pub open spec fn cited_before(s: Seq<char>, n: nat, upto: int) -> bool {
    exists|i: int| 0 <= i < upto && #[trigger] mark_cites(s, i, n)
}

pub open spec fn cited(s: Seq<char>, n: nat) -> bool {
    cited_before(s, n, s.len() as int)
}

proof fn lemma_digit_run_bound(s: Seq<char>, j: int)
    requires
        0 <= j <= s.len(),
    ensures
        j + digit_run(s, j) <= s.len(),
        forall|m: int| j <= m < j + digit_run(s, j) ==> is_digit(#[trigger] s[m]),
        j + digit_run(s, j) < s.len() ==> !is_digit(s[j + digit_run(s, j)]),
    decreases s.len() - j,
{
    if j < s.len() && is_digit(s[j]) {
        lemma_digit_run_bound(s, j + 1);
    }
}

pub proof fn lemma_space_run_bound(s: Seq<char>, j: int)
    requires
        0 <= j <= s.len(),
    ensures
        j + space_run(s, j) <= s.len(),
        forall|m: int| j <= m < j + space_run(s, j) ==> #[trigger] s[m] == ' ',
        j + space_run(s, j) < s.len() ==> s[j + space_run(s, j)] != ' ',
    decreases s.len() - j,
{
    if j < s.len() && s[j] == ' ' {
        lemma_space_run_bound(s, j + 1);
    }
}

/// A digit run is exactly the digits up to the first non-digit.
proof fn lemma_digit_run_exact(s: Seq<char>, j: int, e: int)
    requires
        0 <= j <= e <= s.len(),
        forall|m: int| j <= m < e ==> is_digit(#[trigger] s[m]),
        e < s.len() ==> !is_digit(s[e]),
    ensures
        digit_run(s, j) == e - j,
    decreases e - j,
{
    if j < e {
        lemma_digit_run_exact(s, j + 1, e);
    }
}

proof fn lemma_space_run_exact(s: Seq<char>, j: int, e: int)
    requires
        0 <= j <= e <= s.len(),
        forall|m: int| j <= m < e ==> #[trigger] s[m] == ' ',
        e < s.len() ==> s[e] != ' ',
    ensures
        space_run(s, j) == e - j,
    decreases e - j,
{
    if j < e {
        lemma_space_run_exact(s, j + 1, e);
    }
}

/// Adding digits never makes a number smaller.
proof fn lemma_decimal_grows(d: Seq<char>, k: int)
    requires
        0 <= k <= d.len(),
        forall|m: int| 0 <= m < d.len() ==> is_digit(#[trigger] d[m]),
    ensures
        decimal(d.take(k)) <= decimal(d),
    decreases d.len() - k,
{
    if k < d.len() {
        lemma_decimal_grows(d, k + 1);
        assert(d.take(k + 1).drop_last() =~= d.take(k));
    } else {
        assert(d.take(k) =~= d);
    }
}

/// Reads the number at `j` (`None` when it is not a valid citation number),
/// returning it and the position after its digits.
fn read_number(s: &Vec<char>, j: usize) -> (r: Option<(u64, usize)>)
    requires
        j < s.len(),
        s[j as int] != '0',
        is_digit(s[j as int]),
    ensures
        match r {
            Some((n, p)) => {
                &&& p == j + digit_run(s@, j as int)
                &&& n as nat == decimal(s@.subrange(j as int, p as int))
                &&& n <= max_cited()
            },
            None => decimal(s@.subrange(j as int, j + digit_run(s@, j as int))) > max_cited(),
        },
{
    proof {
        lemma_digit_run_bound(s@, j as int);
    }
    let ghost e = j + digit_run(s@, j as int);
    let mut p = j;
    let mut val: u64 = 0;
    while p < s.len() && '0' <= s[p] && s[p] <= '9'
        invariant
            j <= p <= e <= s@.len(),
            e == j + digit_run(s@, j as int),
            forall|m: int| j <= m < e ==> is_digit(#[trigger] s@[m]),
            e < s@.len() ==> !is_digit(s@[e]),
            val as nat == decimal(s@.subrange(j as int, p as int)),
            val <= max_cited(),
        decreases s.len() - p,
    {
        let dgt = (s[p] as u32 - '0' as u32) as u64;
        let next = val * 10 + dgt;
        proof {
            assert(s@.subrange(j as int, p + 1).drop_last() =~= s@.subrange(j as int, p as int));
            assert(p < e) by {
                if p >= e {
                    assert(!is_digit(s@[p as int]));
                }
            }
        }
        if next > 4294967295 {
            proof {
                let run = s@.subrange(j as int, e);
                assert(run.take(p + 1 - j) =~= s@.subrange(j as int, p + 1));
                lemma_decimal_grows(run, p + 1 - j);
            }
            return None;
        }
        val = next;
        p = p + 1;
    }
    proof {
        if p < e {
            assert(is_digit(s@[p as int]));
        }
    }
    Some((val, p))
}

/// Reads the mark that opens at `i`.
fn read_mark(s: &Vec<char>, i: usize) -> (r: Option<Vec<u64>>)
    requires
        i < s.len(),
    ensures
        r is Some <==> mark_at(s@, i as int) is Some,
        r matches Some(v) ==> v@.map_values(|x: u64| x as nat) == mark_at(s@, i as int)->0,
{
    if s[i] != '[' {
        return None;
    }
    let mut acc: Vec<u64> = Vec::new();
    let mut j = i + 1;
    proof {
        assert(acc@.map_values(|x: u64| x as nat) =~= Seq::<nat>::empty());
    }
    loop
        invariant
            i < j <= s@.len(),
            s@[i as int] == '[',
            mark_at(s@, i as int) == list_from(s@, j as int, acc@.map_values(|x: u64| x as nat)),
        decreases s@.len() - j,
    {
        let ghost accs = acc@.map_values(|x: u64| x as nat);
        if j >= s.len() || !('0' <= s[j] && s[j] <= '9') || s[j] == '0' {
            proof {
                if j < s@.len() && !is_digit(s@[j as int]) {
                    assert(digit_run(s@, j as int) == 0);
                }
            }
            return None;
        }
        let (n, p) = match read_number(s, j) {
            Some(x) => x,
            None => return None,
        };
        proof {
            lemma_digit_run_bound(s@, j as int);
        }
        if p >= s.len() {
            return None;
        }
        let ghost next = accs.push(n as nat);
        proof {
            assert(acc@.push(n).map_values(|x: u64| x as nat) =~= next);
        }
        if s[p] == ']' {
            acc.push(n);
            return Some(acc);
        }
        if s[p] == ',' || s[p] == '\u{ff0c}' {
            let mut q = p + 1;
            while q < s.len() && s[q] == ' '
                invariant
                    p + 1 <= q <= s@.len(),
                    forall|m: int| p + 1 <= m < q ==> #[trigger] s@[m] == ' ',
                decreases s.len() - q,
            {
                q = q + 1;
            }
            proof {
                lemma_space_run_exact(s@, p + 1, q as int);
            }
            acc.push(n);
            j = q;
        } else {
            return None;
        }
    }
}

/// Inserts `x` into a strictly increasing vector, keeping it strictly increasing
/// and adding nothing else.
fn insert_sorted(v: &mut Vec<u64>, x: u64)
    requires
        forall|a: int, b: int| 0 <= a < b < old(v)@.len() ==> old(v)@[a] < old(v)@[b],
    ensures
        forall|a: int, b: int| 0 <= a < b < final(v)@.len() ==> final(v)@[a] < final(v)@[b],
        forall|y: u64| #[trigger] final(v)@.contains(y) <==> (old(v)@.contains(y) || y == x),
{
    let mut p: usize = 0;
    while p < v.len() && v[p] < x
        invariant
            p <= v@.len(),
            v@ == old(v)@,
            forall|a: int| 0 <= a < p ==> v@[a] < x,
        decreases v.len() - p,
    {
        p = p + 1;
    }
    if p < v.len() && v[p] == x {
        proof {
            assert forall|y: u64| v@.contains(y) <==> (old(v)@.contains(y) || y == x) by {
                if y == x {
                    assert(v@[p as int] == y);
                }
            }
        }
        return;
    }
    let ghost before = v@;
    v.insert(p, x);
    proof {
        assert forall|y: u64| #[trigger] v@.contains(y) <==> (before.contains(y) || y == x) by {
            if v@.contains(y) {
                let k = choose|k: int| 0 <= k < v@.len() && v@[k] == y;
                if k < p {
                    assert(before[k] == y);
                } else if k > p {
                    assert(before[k - 1] == y);
                }
            }
            if before.contains(y) {
                let k = choose|k: int| 0 <= k < before.len() && before[k] == y;
                if k < p {
                    assert(v@[k] == y);
                } else {
                    assert(v@[k + 1] == y);
                }
            }
            if y == x {
                assert(v@[p as int] == x);
            }
        }
    }
}

/// The numbers an answer cites, ascending and each once.
pub fn cited_numbers(text: &str) -> (r: Vec<u64>)
    ensures
        forall|a: int, b: int| 0 <= a < b < r@.len() ==> r@[a] < r@[b],
        forall|y: u64| #[trigger] r@.contains(y) <==> cited(text@, y as nat),
        forall|n: nat| #[trigger] cited(text@, n) ==> n <= max_cited(),
{
    let s = chars_of(text);
    let mut out: Vec<u64> = Vec::new();
    let mut i: usize = 0;
    while i < s.len()
        invariant
            s@ == text@,
            i <= s@.len(),
            forall|a: int, b: int| 0 <= a < b < out@.len() ==> out@[a] < out@[b],
            forall|y: u64| #[trigger] out@.contains(y) <==> cited_before(s@, y as nat, i as int),
            forall|n: nat| #[trigger] cited_before(s@, n, i as int) ==> n <= max_cited(),
        decreases s.len() - i,
    {
        let ghost before = out@;
        match read_mark(&s, i) {
            Some(ns) => {
                let ghost nss = ns@.map_values(|x: u64| x as nat);
                proof {
                    lemma_list_bounded(s@, (i + 1) as int, Seq::empty());
                }
                let mut k: usize = 0;
                while k < ns.len()
                    invariant
                        0 <= i < s@.len(),
                        nss == ns@.map_values(|x: u64| x as nat),
                        mark_at(s@, i as int) == Some(nss),
                        forall|m: int| 0 <= m < nss.len() ==> #[trigger] nss[m] <= max_cited(),
                        k <= ns@.len(),
                        forall|a: int, b: int| 0 <= a < b < out@.len() ==> out@[a] < out@[b],
                        forall|y: u64| #[trigger] before.contains(y) <==> cited_before(s@, y as nat, i as int),
                        forall|n: nat| #[trigger] cited_before(s@, n, i as int) ==> n <= max_cited(),
                        forall|y: u64|
                            #[trigger] out@.contains(y) <==> (before.contains(y) || ns@.take(k as int).contains(y)),
                    decreases ns.len() - k,
                {
                    let x = ns[k];
                    let ghost prev = out@;
                    insert_sorted(&mut out, x);
                    proof {
                        assert(ns@.take(k + 1) =~= ns@.take(k as int).push(x));
                        assert forall|y: u64|
                            #[trigger] out@.contains(y) <==> (before.contains(y) || ns@.take(k + 1).contains(y)) by {
                            assert(prev.contains(y) <==> (before.contains(y) || ns@.take(k as int).contains(y)));
                            if ns@.take(k + 1).contains(y) {
                                let m = choose|m: int| 0 <= m < k + 1 && #[trigger] ns@.take(k + 1)[m] == y;
                                if m < k {
                                    assert(ns@.take(k as int)[m] == y);
                                }
                            }
                            if ns@.take(k as int).contains(y) {
                                let m = choose|m: int| 0 <= m < k && #[trigger] ns@.take(k as int)[m] == y;
                                assert(ns@.take(k + 1)[m] == y);
                            }
                            if y == x {
                                assert(ns@.take(k + 1)[k as int] == y);
                            }
                        }
                    }
                    k = k + 1;
                }
                proof {
                    assert(ns@.take(ns@.len() as int) =~= ns@);
                    assert forall|y: u64| #[trigger] out@.contains(y) <==> cited_before(s@, y as nat, i + 1) by {
                        if cited_before(s@, y as nat, i + 1) {
                            let w = choose|w: int| 0 <= w < i + 1 && #[trigger] mark_cites(s@, w, y as nat);
                            if w < i {
                                assert(cited_before(s@, y as nat, i as int));
                            } else {
                                let m = choose|m: int| 0 <= m < nss.len() && nss[m] == y as nat;
                                assert(ns@[m] == y);
                                assert(ns@.contains(y));
                            }
                        }
                        if out@.contains(y) {
                            if before.contains(y) {
                                assert(cited_before(s@, y as nat, i as int));
                                let w = choose|w: int| 0 <= w < i && #[trigger] mark_cites(s@, w, y as nat);
                                assert(mark_cites(s@, w, y as nat));
                            } else {
                                let m = choose|m: int| 0 <= m < ns@.len() && ns@[m] == y;
                                assert(nss[m] == y as nat);
                                assert(mark_cites(s@, i as int, y as nat));
                            }
                        }
                    }
                    assert forall|n: nat| #[trigger] cited_before(s@, n, i + 1) implies n <= max_cited() by {
                        let w = choose|w: int| 0 <= w < i + 1 && #[trigger] mark_cites(s@, w, n);
                        if w < i {
                            assert(cited_before(s@, n, i as int));
                        } else {
                            let m = choose|m: int| 0 <= m < nss.len() && nss[m] == n;
                            assert(nss[m] <= max_cited());
                        }
                    }
                }
            },
            None => {
                proof {
                    assert forall|n: nat| #[trigger] cited_before(s@, n, i + 1) <==> cited_before(
                        s@,
                        n,
                        i as int,
                    ) by {
                        if cited_before(s@, n, i + 1) {
                            let w = choose|w: int|
                                0 <= w < i + 1 && #[trigger] mark_cites(s@, w, n);
                            assert(w != i);
                        }
                    }
                }
            },
        }
        i = i + 1;
    }
    out
}

/// Every number a mark lists is at most `max_cited()`.
proof fn lemma_list_bounded(s: Seq<char>, j: int, acc: Seq<nat>)
    requires
        forall|m: int| 0 <= m < acc.len() ==> #[trigger] acc[m] <= max_cited(),
    ensures
        list_from(s, j, acc) matches Some(xs) ==> forall|m: int|
            0 <= m < xs.len() ==> #[trigger] xs[m] <= max_cited(),
    decreases s.len() - j,
{
    let k = digit_run(s, j);
    if j < 0 || j >= s.len() || k == 0 || s[j] == '0' {
    } else {
        let n = decimal(s.subrange(j, j + k));
        let p = j + k;
        if n > max_cited() || p >= s.len() {
        } else {
            let acc2 = acc.push(n);
            assert forall|m: int| 0 <= m < acc2.len() implies #[trigger] acc2[m] <= max_cited() by {
                if m < acc.len() {
                    assert(acc2[m] == acc[m]);
                }
            }
            if s[p] == ']' {
            } else if s[p] == ',' || s[p] == '\u{ff0c}' {
                lemma_space_run_bound(s, p + 1);
                let q = p + 1 + space_run(s, p + 1);
                if j < q {
                    lemma_list_bounded(s, q, acc2);
                }
            }
        }
    }
}

} // verus!
