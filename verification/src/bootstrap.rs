//! Growing the ontology from what extraction keeps proposing: when there are
//! enough signals to act on, how the spellings of one relation are counted as a
//! group, which groups qualify, and in what order they are adopted. The store
//! work and the proposals themselves are the caller's.
use vstd::prelude::*;
use crate::text::{chars_of, string_of};

verus! {

/// Signals (qualified predicate forms plus proposed types) needed before the
/// ontology grows on its own.
pub const MIN_SIGNALS: usize = 3;

/// Documents a predicate form must appear in to count.
pub const MIN_DOCS: i64 = 2;

/// Whether enough is proposed to grow the ontology: the predicate forms seen in
/// at least two documents, plus the proposed types, reach three.
pub open spec fn enough_of(form_doc_counts: Seq<i64>, proposed_types: nat) -> bool {
    form_doc_counts.filter(|d: i64| d >= MIN_DOCS).len() + proposed_types >= MIN_SIGNALS
}

pub fn enough_signals(form_doc_counts: &Vec<i64>, proposed_types: usize) -> (r: bool)
    ensures
        r == enough_of(form_doc_counts@, proposed_types as nat),
{
    let mut n: usize = 0;
    let mut i: usize = 0;
    proof {
        assert(form_doc_counts@.take(0).filter(|d: i64| d >= MIN_DOCS) =~= Seq::<i64>::empty());
    }
    while i < form_doc_counts.len()
        invariant
            i <= form_doc_counts@.len(),
            n == form_doc_counts@.take(i as int).filter(|d: i64| d >= MIN_DOCS).len(),
            n <= i,
        decreases form_doc_counts.len() - i,
    {
        proof {
            let t = form_doc_counts@.take(i + 1);
            assert(t.drop_last() =~= form_doc_counts@.take(i as int));
            assert(t.filter(|d: i64| d >= MIN_DOCS) == t.drop_last().filter(|d: i64| d >= MIN_DOCS)
                + if form_doc_counts@[i as int] >= MIN_DOCS {
                seq![form_doc_counts@[i as int]]
            } else {
                Seq::empty()
            }) by {
                reveal_with_fuel(Seq::filter, 2);
                assert(t.last() == form_doc_counts@[i as int]);
                if form_doc_counts@[i as int] >= MIN_DOCS {
                    assert(t.drop_last().filter(|d: i64| d >= MIN_DOCS).push(t.last()) =~= t.drop_last().filter(
                        |d: i64| d >= MIN_DOCS,
                    ) + seq![form_doc_counts@[i as int]]);
                } else {
                    assert(t.drop_last().filter(|d: i64| d >= MIN_DOCS) =~= t.drop_last().filter(
                        |d: i64| d >= MIN_DOCS,
                    ) + Seq::<i64>::empty());
                }
            }
        }
        if form_doc_counts[i] >= MIN_DOCS {
            n = n + 1;
        }
        i = i + 1;
    }
    proof {
        assert(form_doc_counts@.take(form_doc_counts@.len() as int) =~= form_doc_counts@);
    }
    if proposed_types >= 3 {
        return true;
    }
    n >= MIN_SIGNALS - proposed_types
}

// ---------------------------------------------------------------------------
// Ordering by count, then by name
// ---------------------------------------------------------------------------

/// Lexicographic order of character sequences (what `str`'s order is).
pub open spec fn lex_le(a: Seq<char>, b: Seq<char>) -> bool
    decreases a.len(),
{
    if a.len() == 0 {
        true
    } else if b.len() == 0 {
        false
    } else if a[0] != b[0] {
        a[0] < b[0]
    } else {
        lex_le(a.drop_first(), b.drop_first())
    }
}

pub proof fn lemma_lex_total(a: Seq<char>, b: Seq<char>)
    ensures
        lex_le(a, b) || lex_le(b, a),
    decreases a.len(),
{
    if a.len() > 0 && b.len() > 0 && a[0] == b[0] {
        lemma_lex_total(a.drop_first(), b.drop_first());
    }
}

pub(crate) fn lex_less_eq(a: &Vec<char>, b: &Vec<char>) -> (r: bool)
    ensures
        r == lex_le(a@, b@),
{
    let mut i: usize = 0;
    proof {
        assert(a@.skip(0) =~= a@);
        assert(b@.skip(0) =~= b@);
    }
    while i < a.len() && i < b.len()
        invariant
            i <= a@.len(),
            i <= b@.len(),
            lex_le(a@, b@) == lex_le(a@.skip(i as int), b@.skip(i as int)),
        decreases a.len() - i,
    {
        proof {
            assert(a@.skip(i as int)[0] == a@[i as int]);
            assert(b@.skip(i as int)[0] == b@[i as int]);
            assert(a@.skip(i as int).drop_first() =~= a@.skip(i + 1));
            assert(b@.skip(i as int).drop_first() =~= b@.skip(i + 1));
        }
        if a[i] != b[i] {
            return a[i] < b[i];
        }
        i = i + 1;
    }
    proof {
        if i == a@.len() {
            assert(a@.skip(i as int).len() == 0);
        } else {
            assert(b@.skip(i as int).len() == 0);
        }
    }
    i == a.len()
}

/// Ranked first: the larger count, and on equal counts the name that sorts
/// first.
pub open spec fn ranks_before(a: (i64, Seq<char>), b: (i64, Seq<char>)) -> bool {
    a.0 > b.0 || (a.0 == b.0 && lex_le(a.1, b.1))
}

/// Something ranked by a count and a name.
pub trait Ranked {
    spec fn rank(&self) -> (i64, Seq<char>);

    fn count(&self) -> (c: i64)
        ensures
            c == self.rank().0,
    ;

    fn name_chars(&self) -> (n: Vec<char>)
        ensures
            n@ == self.rank().1,
    ;
}

/// Each item ranks before the next.
pub open spec fn in_rank_order<T: Ranked>(s: Seq<T>) -> bool {
    forall|i: int| 0 <= i < s.len() - 1 ==> ranks_before(#[trigger] s[i].rank(), s[i + 1].rank())
}

fn ranks_first<T: Ranked>(a: &T, b: &T) -> (r: bool)
    ensures
        r == ranks_before(a.rank(), b.rank()),
{
    let ca = a.count();
    let cb = b.count();
    if ca > cb {
        return true;
    }
    if ca != cb {
        return false;
    }
    lex_less_eq(&a.name_chars(), &b.name_chars())
}

/// Items in rank order: each ranks before the next, and nothing is added or
/// lost. Among items of equal rank, the earlier stays first.
pub fn sort_by_rank<T: Ranked>(items: Vec<T>) -> (r: Vec<T>)
    ensures
        in_rank_order(r@),
        r@.to_multiset() == items@.to_multiset(),
{
    let ghost all = items@;
    let mut rest = items;
    let mut out: Vec<T> = Vec::new();
    let ghost mut done: Seq<T> = Seq::empty();
    proof {
        assert(out@ =~= Seq::<T>::empty());
    }
    while rest.len() > 0
        invariant
            all == done + rest@,
            in_rank_order(out@),
            out@.to_multiset() == done.to_multiset(),
        decreases rest@.len(),
    {
        let ghost before_rest = rest@;
        let x = rest.remove(0);
        proof {
            assert(before_rest =~= seq![x] + rest@);
            assert(all =~= done.push(x) + rest@);
        }
        let mut p: usize = 0;
        while p < out.len() && ranks_first(&out[p], &x)
            invariant
                p <= out@.len(),
                forall|j: int| 0 <= j < p ==> ranks_before(#[trigger] out@[j].rank(), x.rank()),
            decreases out.len() - p,
        {
            p = p + 1;
        }
        let ghost prev = out@;
        proof {
            if p < prev.len() {
                assert(!ranks_before(prev[p as int].rank(), x.rank()));
                lemma_lex_total(prev[p as int].rank().1, x.rank().1);
                assert(ranks_before(x.rank(), prev[p as int].rank()));
            }
        }
        out.insert(p, x);
        proof {
            assert(out@ == prev.insert(p as int, x));
            assert forall|i: int| 0 <= i < out@.len() - 1 implies ranks_before(#[trigger] out@[i].rank(), out@[i + 1].rank()) by {
                if i + 1 < p {
                    assert(out@[i] == prev[i] && out@[i + 1] == prev[i + 1]);
                } else if i + 1 == p {
                    assert(out@[i] == prev[i] && out@[i + 1] == x);
                } else if i == p {
                    assert(out@[i] == x && out@[i + 1] == prev[i]);
                } else {
                    assert(out@[i] == prev[i - 1] && out@[i + 1] == prev[i]);
                }
            }
            vstd::seq_lib::to_multiset_insert(prev, p as int, x);
            vstd::seq_lib::to_multiset_build(done, x);
            assert(out@.to_multiset() == prev.to_multiset().insert(x));
            assert(done.push(x).to_multiset() == done.to_multiset().insert(x));
            done = done.push(x);
        }
    }
    proof {
        assert(done =~= all);
    }
    out
}

// ---------------------------------------------------------------------------
// Relation groups
// ---------------------------------------------------------------------------

/// One spelling of a proposed relation: its form, how many facts use it, the
/// documents (by id) it appears in, and the existing relation type it names
/// (with whether the fact's ends must be swapped), if it names one.
pub struct Form {
    pub form: String,
    pub fact_count: i64,
    pub docs: Vec<u128>,
    pub existing: Option<(u128, bool)>,
}

/// The spellings of one relation, counted together.
pub struct Group {
    /// The most used spelling (the first in alphabetical order among equals).
    pub key: String,
    /// The spellings, most used first.
    pub forms: Vec<String>,
    /// Facts over all spellings.
    pub facts: i64,
    /// Distinct documents over all spellings.
    pub docs: usize,
    /// The existing relation type the first spelling that names one names.
    pub existing: Option<(u128, bool)>,
}

fn add_distinct(out: &mut Vec<u128>, xs: &Vec<u128>)
    ensures
        final(out)@ == distinct_into(old(out)@, xs@),
{
    let mut i: usize = 0;
    let ghost start = out@;
    proof {
        assert(xs@.take(0) =~= Seq::<u128>::empty());
    }
    while i < xs.len()
        invariant
            i <= xs@.len(),
            out@ == distinct_into(start, xs@.take(i as int)),
        decreases xs.len() - i,
    {
        let x = xs[i];
        let mut k: usize = 0;
        let mut seen = false;
        while k < out.len()
            invariant
                k <= out@.len(),
                seen == exists|j: int| 0 <= j < k && out@[j] == x,
            decreases out.len() - k,
        {
            if out[k] == x {
                seen = true;
            }
            k = k + 1;
        }
        proof {
            assert(xs@.take(i + 1).drop_last() =~= xs@.take(i as int));
            assert(xs@.take(i + 1).last() == x);
        }
        if !seen {
            out.push(x);
        }
        i = i + 1;
    }
    proof {
        assert(xs@.take(xs@.len() as int) =~= xs@);
    }
}

/// `acc` extended with the values of `s` it does not hold yet.
pub open spec fn distinct_into(acc: Seq<u128>, s: Seq<u128>) -> Seq<u128>
    decreases s.len(),
{
    if s.len() == 0 {
        acc
    } else {
        let d = distinct_into(acc, s.drop_last());
        if d.contains(s.last()) {
            d
        } else {
            d.push(s.last())
        }
    }
}

impl Ranked for Form {
    open spec fn rank(&self) -> (i64, Seq<char>) {
        (self.fact_count, self.form@)
    }

    fn count(&self) -> (c: i64) {
        self.fact_count
    }

    fn name_chars(&self) -> (n: Vec<char>) {
        chars_of(self.form.as_str())
    }
}

impl Ranked for Group {
    open spec fn rank(&self) -> (i64, Seq<char>) {
        (self.facts, self.key@)
    }

    fn count(&self) -> (c: i64) {
        self.facts
    }

    fn name_chars(&self) -> (n: Vec<char>) {
        chars_of(self.key.as_str())
    }
}

/// The documents of all the spellings, each once.
pub open spec fn group_docs(members: Seq<Form>) -> Seq<u128>
    decreases members.len(),
{
    if members.len() == 0 {
        Seq::empty()
    } else {
        distinct_into(group_docs(members.drop_last()), members.last().docs@)
    }
}

pub open spec fn facts_sum(members: Seq<Form>) -> int
    decreases members.len(),
{
    if members.len() == 0 {
        0
    } else {
        facts_sum(members.drop_last()) + members.last().fact_count
    }
}

/// The existing relation type the first spelling that names one names.
pub open spec fn first_existing(members: Seq<Form>) -> Option<(u128, bool)>
    decreases members.len(),
{
    if members.len() == 0 {
        None
    } else {
        match first_existing(members.drop_last()) {
            Some(e) => Some(e),
            None => members.last().existing,
        }
    }
}

/// A group counted from spellings in a given order.
pub open spec fn group_from(s: Seq<Form>, g: Group) -> bool {
    &&& g.key@ == s[0].form@
    &&& g.forms@.map_values(|f: String| f@) == s.map_values(|f: Form| f.form@)
    &&& g.facts == facts_sum(s)
    &&& g.docs == group_docs(s).len()
    &&& g.existing == first_existing(s)
}

/// The counts above zero, summed.
pub open spec fn pos_sum(members: Seq<Form>) -> int
    decreases members.len(),
{
    if members.len() == 0 {
        0
    } else {
        pos_sum(members.drop_last()) + if members.last().fact_count > 0 {
            members.last().fact_count as int
        } else {
            0
        }
    }
}

/// The counts below zero, summed.
pub open spec fn neg_sum(members: Seq<Form>) -> int
    decreases members.len(),
{
    if members.len() == 0 {
        0
    } else {
        neg_sum(members.drop_last()) + if members.last().fact_count < 0 {
            members.last().fact_count as int
        } else {
            0
        }
    }
}

proof fn lemma_sums_remove(s: Seq<Form>, j: int)
    requires
        0 <= j < s.len(),
    ensures
        pos_sum(s) == pos_sum(s.remove(j)) + if s[j].fact_count > 0 {
            s[j].fact_count as int
        } else {
            0
        },
        neg_sum(s) == neg_sum(s.remove(j)) + if s[j].fact_count < 0 {
            s[j].fact_count as int
        } else {
            0
        },
    decreases s.len(),
{
    if j == s.len() - 1 {
        assert(s.remove(j) =~= s.drop_last());
    } else {
        lemma_sums_remove(s.drop_last(), j);
        assert(s.remove(j).drop_last() =~= s.drop_last().remove(j));
        assert(s.remove(j).last() == s.last());
    }
}

/// Reordering the spellings changes neither sum.
proof fn lemma_sums_permute(s: Seq<Form>, t: Seq<Form>)
    requires
        s.to_multiset() == t.to_multiset(),
    ensures
        pos_sum(s) == pos_sum(t),
        neg_sum(s) == neg_sum(t),
    decreases s.len(),
{
    vstd::seq_lib::to_multiset_len(s);
    vstd::seq_lib::to_multiset_len(t);
    if s.len() > 0 {
        let x = s.last();
        vstd::seq_lib::to_multiset_contains(s, x);
        assert(t.to_multiset().count(x) > 0);
        vstd::seq_lib::to_multiset_contains(t, x);
        assert(t.contains(x));
        let j = choose|j: int| 0 <= j < t.len() && t[j] == x;
        vstd::seq_lib::to_multiset_remove(t, j);
        vstd::seq_lib::to_multiset_remove(s, s.len() - 1);
        assert(s.remove(s.len() - 1) =~= s.drop_last());
        lemma_sums_permute(s.drop_last(), t.remove(j));
        lemma_sums_remove(t, j);
    }
}

/// A prefix's sums stay within the whole's.
proof fn lemma_sums_prefix(s: Seq<Form>, i: int)
    requires
        0 <= i <= s.len(),
    ensures
        pos_sum(s.take(i)) <= pos_sum(s),
        neg_sum(s.take(i)) >= neg_sum(s),
    decreases s.len(),
{
    if i < s.len() {
        assert(s.drop_last().take(i) =~= s.take(i));
        lemma_sums_prefix(s.drop_last(), i);
    } else {
        assert(s.take(i) =~= s);
    }
}

/// Counts the spellings of one relation as a group, most used first. The
/// group counts only when its spellings appear in at least two documents
/// together; otherwise `None`.
pub fn count_group(forms: Vec<Form>) -> (r: Option<Group>)
    requires
        forms@.len() > 0,
        pos_sum(forms@) <= i64::MAX,
        neg_sum(forms@) >= i64::MIN,
    ensures
        exists|s: Seq<Form>| {
            &&& #[trigger] in_rank_order(s)
            &&& s.to_multiset() == forms@.to_multiset()
            &&& s.len() == forms@.len()
            &&& match r {
                Some(g) => group_docs(s).len() >= MIN_DOCS && group_from(s, g),
                None => group_docs(s).len() < MIN_DOCS,
            }
        },
{
    let ghost input = forms@;
    let sorted = sort_by_rank(forms);
    proof {
        vstd::seq_lib::to_multiset_len(sorted@);
        vstd::seq_lib::to_multiset_len(input);
        lemma_sums_permute(sorted@, input);
    }
    let mut docs: Vec<u128> = Vec::new();
    let mut facts: i64 = 0;
    let mut names: Vec<String> = Vec::new();
    let mut existing: Option<(u128, bool)> = None;
    let mut i: usize = 0;
    proof {
        assert(sorted@.take(0) =~= Seq::<Form>::empty());
        assert(names@.map_values(|f: String| f@) =~= sorted@.take(0).map_values(|f: Form| f.form@));
    }
    while i < sorted.len()
        invariant
            i <= sorted@.len(),
            pos_sum(sorted@) <= i64::MAX,
            neg_sum(sorted@) >= i64::MIN,
            docs@ == group_docs(sorted@.take(i as int)),
            facts == facts_sum(sorted@.take(i as int)),
            neg_sum(sorted@.take(i as int)) <= facts <= pos_sum(sorted@.take(i as int)),
            existing == first_existing(sorted@.take(i as int)),
            names@.map_values(|f: String| f@) == sorted@.take(i as int).map_values(|f: Form| f.form@),
        decreases sorted.len() - i,
    {
        let item = &sorted[i];
        proof {
            let t = sorted@.take(i + 1);
            assert(t.drop_last() =~= sorted@.take(i as int));
            assert(t.last() == sorted@[i as int]);
            lemma_sums_prefix(sorted@, i + 1);
        }
        add_distinct(&mut docs, &item.docs);
        facts = facts + item.fact_count;
        if existing.is_none() {
            existing = item.existing;
        }
        let nm = string_of(&chars_of(item.form.as_str()));
        let ghost before_names = names@;
        names.push(nm);
        proof {
            assert(nm@ == sorted@[i as int].form@);
            assert(names@ == before_names.push(nm));
            assert(sorted@.take(i + 1) == sorted@.take(i as int).push(sorted@[i as int]));
            let a = names@.map_values(|f: String| f@);
            let b = sorted@.take(i + 1).map_values(|f: Form| f.form@);
            let a0 = before_names.map_values(|f: String| f@);
            let b0 = sorted@.take(i as int).map_values(|f: Form| f.form@);
            assert(a0 == b0);
            assert(b0.len() == i);
            assert(before_names.len() == i);
            assert(a.len() == i + 1);
            assert(b.len() == i + 1);
            assert forall|k: int| 0 <= k < a.len() implies a[k] == b[k] by {
                if k < i {
                    assert(names@[k] == before_names[k]);
                    assert(a[k] == a0[k]);
                    assert(b[k] == b0[k]);
                } else {
                    assert(names@[k] == nm);
                }
            }
            assert(a =~= b);
        }
        i = i + 1;
    }
    proof {
        assert(sorted@.take(sorted@.len() as int) =~= sorted@);
    }
    if docs.len() < 2 {
        proof {
            assert(in_rank_order(sorted@));
        }
        return None;
    }
    let key = string_of(&chars_of(sorted[0].form.as_str()));
    let g = Group { key, forms: names, facts, docs: docs.len(), existing };
    proof {
        assert(group_from(sorted@, g));
        assert(in_rank_order(sorted@));
    }
    Some(g)
}

/// The label a relation adopted from a spelling is created with: the spelling
/// with `_` read as a space.
pub open spec fn label_of(key: Seq<char>) -> Seq<char> {
    Seq::new(key.len(), |i: int| if key[i] == '_' { ' ' } else { key[i] })
}

pub fn relation_label(key: &str) -> (r: String)
    ensures
        r@ == label_of(key@),
{
    let v = chars_of(key);
    let mut out: Vec<char> = Vec::new();
    let mut i: usize = 0;
    while i < v.len()
        invariant
            i <= v@.len(),
            v@ == key@,
            out@ == label_of(key@).take(i as int),
        decreases v.len() - i,
    {
        out.push(if v[i] == '_' { ' ' } else { v[i] });
        proof {
            assert(out@ =~= label_of(key@).take(i + 1));
        }
        i = i + 1;
    }
    proof {
        assert(out@ =~= label_of(key@));
    }
    string_of(&out)
}

/// A relation type to create for a counted group: its key, its label (the
/// key with `_` read as a space), temporal `state`, no axioms (neither
/// functional nor inverse functional: only a person declares those), an empty
/// description, of kind `relation`, with no domains or ranges.
pub struct NewRelation {
    pub key: String,
    pub label: String,
    pub temporal: &'static str,
    pub functional: bool,
    pub inverse_functional: bool,
    pub description: String,
    pub kind: &'static str,
}

/// What a group is adopted as: an existing relation type (with whether the
/// facts' ends are swapped), or a new one.
pub enum Adoption {
    Existing(u128, bool),
    Create(NewRelation),
}

/// The relation a group created for `key` is: its defaults.
pub open spec fn created_as(n: NewRelation, key: Seq<char>) -> bool {
    &&& n.key@ == key
    &&& n.label@ == label_of(key)
    &&& n.temporal@ == "state"@
    &&& !n.functional
    &&& !n.inverse_functional
    &&& n.description@.len() == 0
    &&& n.kind@ == "relation"@
}

/// A group goes to the existing relation it names, else a new relation with
/// the defaults.
pub fn adoption(g: &Group) -> (r: Adoption)
    ensures
        match g.existing {
            Some((id, swap)) => r matches Adoption::Existing(i, s) && i == id && s == swap,
            None => r matches Adoption::Create(n) && created_as(n, g.key@),
        },
{
    match g.existing {
        Some((id, swap)) => Adoption::Existing(id, swap),
        None => {
            let key = string_of(&chars_of(g.key.as_str()));
            let label = relation_label(g.key.as_str());
            let description = string_of(&Vec::new());
            Adoption::Create(
                NewRelation {
                    key,
                    label,
                    temporal: "state",
                    functional: false,
                    inverse_functional: false,
                    description,
                    kind: "relation",
                },
            )
        },
    }
}

/// The spellings of one relation, counted and adopted: the group counts only
/// when its spellings appear in at least `MIN_DOCS` documents together, and
/// then it goes to the existing relation it names, or a relation is created
/// for it with the defaults: its key the most used spelling, its label from
/// that key, temporal `state`, no axioms, no description.
pub fn adopt_forms(forms: Vec<Form>) -> (r: Option<(Group, Adoption)>)
    requires
        forms@.len() > 0,
        pos_sum(forms@) <= i64::MAX,
        neg_sum(forms@) >= i64::MIN,
    ensures
        exists|s: Seq<Form>| {
            &&& #[trigger] in_rank_order(s)
            &&& s.to_multiset() == forms@.to_multiset()
            &&& s.len() == forms@.len()
            &&& match r {
                None => group_docs(s).len() < MIN_DOCS,
                Some((g, a)) => {
                    &&& group_docs(s).len() >= MIN_DOCS
                    &&& group_from(s, g)
                    &&& match first_existing(s) {
                        Some((id, swap)) => a matches Adoption::Existing(i, w) && i == id && w == swap,
                        None => a matches Adoption::Create(n) && created_as(n, s[0].form@),
                    }
                },
            }
        },
{
    let ghost input = forms@;
    let counted = count_group(forms);
    match counted {
        None => None,
        Some(g) => {
            let a = adoption(&g);
            proof {
                let s = choose|s: Seq<Form>| {
                    &&& #[trigger] in_rank_order(s)
                    &&& s.to_multiset() == input.to_multiset()
                    &&& s.len() == input.len()
                    &&& group_docs(s).len() >= MIN_DOCS && group_from(s, g)
                };
                assert(in_rank_order(s));
            }
            Some((g, a))
        },
    }
}

/// Whether a run changed anything worth recording: a relation or class added,
/// or some fact moved.
pub fn worth_recording(added_relations: usize, added_classes: usize, moved: u32) -> (r: bool)
    ensures
        r == !(added_relations == 0 && added_classes == 0 && moved == 0),
{
    !(added_relations == 0 && added_classes == 0 && moved == 0)
}

} // verus!
