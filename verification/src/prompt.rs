//! The ontology lists an extraction prompt carries: the classes, the relations
//! with their signatures, and the attributes under the classes they belong to,
//! either for the whole ontology or for a selection retrieved for one chunk;
//! how long they are, and when a chunk falls back to the whole ontology.
use vstd::prelude::*;
use crate::bootstrap::{lex_le, lex_less_eq, lemma_lex_total};
use crate::text::{chars_of, lemma_utf8_len_prefix, str_eq, string_of, trim_chars, trim_seq, utf8_len};

verus! {

/// The key of the relation the code falls back to; it is never offered to the
/// model.
pub open spec fn fallback_key() -> Seq<char> {
    "related_to"@
}

/// A class of the ontology, as the prompt shows it.
pub struct ClassEntry {
    pub id: u128,
    pub key: String,
    pub label: String,
    pub description: String,
}

/// A relation or attribute type of the ontology, as the prompt shows it.
pub struct RelationEntry {
    pub id: u128,
    pub key: String,
    pub label: String,
    pub description: String,
    /// `attribute` for an attribute; anything else is a relation.
    pub kind: String,
    pub domains: Vec<u128>,
    pub ranges: Vec<u128>,
    pub datatype: Option<String>,
    pub unit: Option<String>,
}

/// Whether an id is in a selection; no selection takes everything.
pub open spec fn picked(sel: Option<Seq<u128>>, id: u128) -> bool {
    match sel {
        None => true,
        Some(s) => s.contains(id),
    }
}

pub open spec fn sel_view(sel: Option<&Vec<u128>>) -> Option<Seq<u128>> {
    match sel {
        None => None,
        Some(v) => Some(v@),
    }
}

/// The key a picked class gives an id: that of the last picked class with the
/// id, as a map built from the list keeps the last.
pub open spec fn key_of(classes: Seq<ClassEntry>, sel: Option<Seq<u128>>, id: u128) -> Option<Seq<char>>
    decreases classes.len(),
{
    if classes.len() == 0 {
        None
    } else if classes.last().id == id && picked(sel, id) {
        Some(classes.last().key@)
    } else {
        key_of(classes.drop_last(), sel, id)
    }
}

/// The keys of those ids that name a picked class, in the order of the ids.
pub open spec fn keys_of(classes: Seq<ClassEntry>, sel: Option<Seq<u128>>, ids: Seq<u128>) -> Seq<Seq<char>>
    decreases ids.len(),
{
    if ids.len() == 0 {
        Seq::empty()
    } else {
        let rest = keys_of(classes, sel, ids.drop_last());
        match key_of(classes, sel, ids.last()) {
            Some(k) => rest.push(k),
            None => rest,
        }
    }
}

/// `x` placed in front of the first entry it sorts before or equal to.
pub open spec fn insert_sorted(s: Seq<Seq<char>>, x: Seq<char>) -> Seq<Seq<char>>
    decreases s.len(),
{
    if s.len() == 0 {
        seq![x]
    } else if lex_le(x, s[0]) {
        seq![x] + s
    } else {
        seq![s[0]] + insert_sorted(s.drop_first(), x)
    }
}

/// The entries in string order.
pub open spec fn sorted(s: Seq<Seq<char>>) -> Seq<Seq<char>>
    decreases s.len(),
{
    if s.len() == 0 {
        Seq::empty()
    } else {
        insert_sorted(sorted(s.drop_last()), s.last())
    }
}

/// The parts with `sep` between each two.
pub open spec fn join(parts: Seq<Seq<char>>, sep: Seq<char>) -> Seq<char>
    decreases parts.len(),
{
    if parts.len() == 0 {
        Seq::empty()
    } else if parts.len() == 1 {
        parts[0]
    } else {
        join(parts.drop_last(), sep) + sep + parts.last()
    }
}

/// One side of a signature: the keys of its classes that are shown, in string
/// order and joined by `|`; `*` when none of them is shown.
pub open spec fn side_text(classes: Seq<ClassEntry>, sel: Option<Seq<u128>>, ids: Seq<u128>) -> Seq<char> {
    let ks = keys_of(classes, sel, ids);
    if ks.len() == 0 {
        "*"@
    } else {
        join(sorted(ks), "|"@)
    }
}

/// Each entry sorts before or equal to every later one.
pub open spec fn in_order(s: Seq<Seq<char>>) -> bool {
    forall|i: int, j: int| 0 <= i < j < s.len() ==> lex_le(#[trigger] s[i], #[trigger] s[j])
}

proof fn lemma_lex_trans(a: Seq<char>, b: Seq<char>, c: Seq<char>)
    requires
        lex_le(a, b),
        lex_le(b, c),
    ensures
        lex_le(a, c),
    decreases a.len(),
{
    if a.len() > 0 && b.len() > 0 && c.len() > 0 && a[0] == b[0] && b[0] == c[0] {
        lemma_lex_trans(a.drop_first(), b.drop_first(), c.drop_first());
    }
}

proof fn lemma_insert_sorted_shape(s: Seq<Seq<char>>, x: Seq<char>) -> (p: int)
    ensures
        0 <= p <= s.len(),
        insert_sorted(s, x) == s.insert(p, x),
    decreases s.len(),
{
    if s.len() == 0 {
        assert(s.insert(0, x) =~= seq![x]);
        0
    } else if lex_le(x, s[0]) {
        assert(s.insert(0, x) =~= seq![x] + s);
        0
    } else {
        let t = s.drop_first();
        let q = lemma_insert_sorted_shape(t, x);
        assert(seq![s[0]] + t.insert(q, x) =~= s.insert(q + 1, x));
        q + 1
    }
}

proof fn lemma_insert_sorted_in_order(s: Seq<Seq<char>>, x: Seq<char>)
    requires
        in_order(s),
    ensures
        in_order(insert_sorted(s, x)),
        insert_sorted(s, x).to_multiset() == s.to_multiset().insert(x),
    decreases s.len(),
{
    let p = lemma_insert_sorted_shape(s, x);
    vstd::seq_lib::to_multiset_insert(s, p, x);
    if s.len() == 0 {
    } else if lex_le(x, s[0]) {
        let r = seq![x] + s;
        assert forall|i: int, j: int| 0 <= i < j < r.len() implies lex_le(#[trigger] r[i], #[trigger] r[j]) by {
            if i == 0 {
                if j > 1 {
                    lemma_lex_trans(x, s[0], s[j - 1]);
                }
            } else {
                assert(r[i] == s[i - 1] && r[j] == s[j - 1]);
            }
        }
        assert(insert_sorted(s, x) == r);
    } else {
        let t = s.drop_first();
        assert forall|i: int, j: int| 0 <= i < j < t.len() implies lex_le(#[trigger] t[i], #[trigger] t[j]) by {
            assert(t[i] == s[i + 1] && t[j] == s[j + 1]);
        }
        lemma_insert_sorted_in_order(t, x);
        lemma_lex_total(x, s[0]);
        let u = insert_sorted(t, x);
        let q = lemma_insert_sorted_shape(t, x);
        let r = seq![s[0]] + u;
        assert forall|i: int, j: int| 0 <= i < j < r.len() implies lex_le(#[trigger] r[i], #[trigger] r[j]) by {
            if i == 0 {
                let k = j - 1;
                assert(r[j] == u[k]);
                if k < q {
                    assert(u[k] == t[k]);
                    assert(t[k] == s[k + 1]);
                } else if k == q {
                    assert(u[k] == x);
                } else {
                    assert(u[k] == t[k - 1]);
                    assert(t[k - 1] == s[k]);
                }
            } else {
                assert(r[i] == u[i - 1] && r[j] == u[j - 1]);
            }
        }
        assert(insert_sorted(s, x) == r);
    }
}

/// What `sorted` gives is in string order and holds exactly the entries it was
/// given.
pub proof fn lemma_sorted(s: Seq<Seq<char>>)
    ensures
        in_order(sorted(s)),
        sorted(s).to_multiset() == s.to_multiset(),
    decreases s.len(),
{
    if s.len() == 0 {
        assert(s =~= Seq::<Seq<char>>::empty());
    } else {
        lemma_sorted(s.drop_last());
        lemma_insert_sorted_in_order(sorted(s.drop_last()), s.last());
        vstd::seq_lib::to_multiset_build(s.drop_last(), s.last());
        assert(s.drop_last().push(s.last()) =~= s);
    }
}

/// Whether some selected class has this key.
pub open spec fn shown_key(classes: Seq<ClassEntry>, sel: Option<Seq<u128>>, k: Seq<char>) -> bool {
    exists|i: int| 0 <= i < classes.len() && picked(sel, classes[i].id) && classes[i].key@ == k
}

proof fn lemma_key_of_shown(classes: Seq<ClassEntry>, sel: Option<Seq<u128>>, id: u128)
    ensures
        key_of(classes, sel, id) matches Some(k) ==> shown_key(classes, sel, k),
    decreases classes.len(),
{
    if classes.len() > 0 {
        if classes.last().id == id && picked(sel, id) {
            assert(classes[classes.len() - 1] == classes.last());
        } else {
            lemma_key_of_shown(classes.drop_last(), sel, id);
            if let Some(k) = key_of(classes.drop_last(), sel, id) {
                let i = choose|i: int|
                    0 <= i < classes.drop_last().len() && picked(sel, classes.drop_last()[i].id)
                        && classes.drop_last()[i].key@ == k;
                assert(classes[i] == classes.drop_last()[i]);
            }
        }
    }
}

/// A signature names only classes that are shown: every key on either side of
/// it is the key of a selected class, so the model is never pointed at a class
/// it cannot see.
pub proof fn law_signatures_name_shown_classes(classes: Seq<ClassEntry>, sel: Option<Seq<u128>>, ids: Seq<u128>)
    ensures
        forall|j: int| 0 <= j < keys_of(classes, sel, ids).len() ==> shown_key(classes, sel, #[trigger] keys_of(classes, sel, ids)[j]),
    decreases ids.len(),
{
    if ids.len() > 0 {
        law_signatures_name_shown_classes(classes, sel, ids.drop_last());
        lemma_key_of_shown(classes, sel, ids.last());
        let rest = keys_of(classes, sel, ids.drop_last());
        let all = keys_of(classes, sel, ids);
        assert forall|j: int| 0 <= j < all.len() implies shown_key(classes, sel, #[trigger] all[j]) by {
            if j < rest.len() {
                assert(all[j] == rest[j]);
            }
        }
    }
}

fn key_lookup(classes: &Vec<ClassEntry>, sel: Option<&Vec<u128>>, id: u128) -> (r: Option<Vec<char>>)
    ensures
        match r {
            Some(k) => key_of(classes@, sel_view(sel), id) == Some(k@),
            None => key_of(classes@, sel_view(sel), id) is None,
        },
{
    let mut i = classes.len();
    proof {
        assert(classes@.take(classes@.len() as int) =~= classes@);
    }
    while i > 0
        invariant
            i <= classes@.len(),
            key_of(classes@, sel_view(sel), id) == key_of(classes@.take(i as int), sel_view(sel), id),
        decreases i,
    {
        let c = &classes[i - 1];
        proof {
            assert(classes@.take(i as int).drop_last() =~= classes@.take(i - 1));
            assert(classes@.take(i as int).last() == classes@[i - 1]);
        }
        if c.id == id && in_selection(sel, id) {
            return Some(chars_of(c.key.as_str()));
        }
        i = i - 1;
    }
    None
}

fn in_selection(sel: Option<&Vec<u128>>, id: u128) -> (r: bool)
    ensures
        r == picked(sel_view(sel), id),
{
    match sel {
        None => true,
        Some(v) => {
            assert(sel_view(sel) == Some(v@));
            let mut k: usize = 0;
            while k < v.len()
                invariant
                    k <= v@.len(),
                    sel_view(sel) == Some(v@),
                    forall|j: int| 0 <= j < k ==> v@[j] != id,
                decreases v.len() - k,
            {
                if v[k] == id {
                    proof {
                        assert(v@[k as int] == id);
                        assert(v@.contains(id));
                    }
                    return true;
                }
                k = k + 1;
            }
            false
        },
    }
}

pub open spec fn vecs_view(v: Seq<Vec<char>>) -> Seq<Seq<char>> {
    v.map_values(|x: Vec<char>| x@)
}

proof fn lemma_insert_at(s: Seq<Seq<char>>, x: Seq<char>, p: int)
    requires
        0 <= p <= s.len(),
        forall|j: int| 0 <= j < p ==> !lex_le(x, #[trigger] s[j]),
        p < s.len() ==> lex_le(x, s[p]),
    ensures
        insert_sorted(s, x) == s.insert(p, x),
    decreases s.len(),
{
    if s.len() == 0 {
        assert(s.insert(p, x) =~= seq![x]);
    } else if p == 0 {
        assert(s.insert(0, x) =~= seq![x] + s);
    } else {
        let t = s.drop_first();
        assert forall|j: int| 0 <= j < p - 1 implies !lex_le(x, #[trigger] t[j]) by {
            assert(t[j] == s[j + 1]);
        }
        lemma_insert_at(t, x, p - 1);
        assert(seq![s[0]] + t.insert(p - 1, x) =~= s.insert(p, x));
    }
}

/// Sorts keys the way `sort_unstable` orders strings.
fn sort_keys(keys: Vec<Vec<char>>) -> (r: Vec<Vec<char>>)
    ensures
        vecs_view(r@) == sorted(vecs_view(keys@)),
{
    let mut out: Vec<Vec<char>> = Vec::new();
    let mut i: usize = 0;
    proof {
        assert(vecs_view(keys@).take(0) =~= Seq::<Seq<char>>::empty());
        assert(vecs_view(out@) =~= Seq::<Seq<char>>::empty());
    }
    while i < keys.len()
        invariant
            i <= keys@.len(),
            vecs_view(out@) == sorted(vecs_view(keys@).take(i as int)),
        decreases keys.len() - i,
    {
        let x = keys[i].clone();
        let mut p: usize = 0;
        while p < out.len() && !lex_less_eq(&x, &out[p])
            invariant
                p <= out@.len(),
                x@ == keys@[i as int]@,
                forall|j: int| 0 <= j < p ==> !lex_le(x@, #[trigger] vecs_view(out@)[j]),
            decreases out.len() - p,
        {
            p = p + 1;
        }
        let ghost prev = vecs_view(out@);
        proof {
            lemma_insert_at(prev, x@, p as int);
            let t = vecs_view(keys@).take(i + 1);
            assert(t.drop_last() =~= vecs_view(keys@).take(i as int));
            assert(t.last() == x@);
        }
        out.insert(p, x);
        proof {
            assert(vecs_view(out@) =~= prev.insert(p as int, x@));
        }
        i = i + 1;
    }
    proof {
        assert(vecs_view(keys@).take(keys@.len() as int) =~= vecs_view(keys@));
    }
    out
}

pub(crate) fn join_chars(parts: &Vec<Vec<char>>, sep: &Vec<char>) -> (r: Vec<char>)
    ensures
        r@ == join(vecs_view(parts@), sep@),
{
    let mut out: Vec<char> = Vec::new();
    let mut i: usize = 0;
    while i < parts.len()
        invariant
            i <= parts@.len(),
            out@ == join(vecs_view(parts@).take(i as int), sep@),
        decreases parts.len() - i,
    {
        let ghost before = out@;
        proof {
            let t = vecs_view(parts@).take(i + 1);
            assert(t.drop_last() =~= vecs_view(parts@).take(i as int));
            assert(t.last() == parts@[i as int]@);
        }
        if i > 0 {
            let mut s = sep.clone();
            out.append(&mut s);
        }
        let mut p = parts[i].clone();
        out.append(&mut p);
        proof {
            if i == 0 {
                assert(vecs_view(parts@).take(1) =~= seq![parts@[0]@]);
                assert(out@ =~= parts@[0]@);
            } else {
                assert(out@ =~= before + sep@ + parts@[i as int]@);
            }
        }
        i = i + 1;
    }
    proof {
        assert(vecs_view(parts@).take(parts@.len() as int) =~= vecs_view(parts@));
    }
    out
}

fn side(classes: &Vec<ClassEntry>, sel: Option<&Vec<u128>>, ids: &Vec<u128>) -> (r: Vec<char>)
    ensures
        r@ == side_text(classes@, sel_view(sel), ids@),
{
    let mut keys: Vec<Vec<char>> = Vec::new();
    let mut i: usize = 0;
    proof {
        assert(ids@.take(0) =~= Seq::<u128>::empty());
        assert(vecs_view(keys@) =~= Seq::<Seq<char>>::empty());
    }
    while i < ids.len()
        invariant
            i <= ids@.len(),
            vecs_view(keys@) == keys_of(classes@, sel_view(sel), ids@.take(i as int)),
        decreases ids.len() - i,
    {
        proof {
            let t = ids@.take(i + 1);
            assert(t.drop_last() =~= ids@.take(i as int));
            assert(t.last() == ids@[i as int]);
        }
        let ghost before = vecs_view(keys@);
        match key_lookup(classes, sel, ids[i]) {
            Some(k) => {
                keys.push(k);
                proof {
                    assert(vecs_view(keys@) =~= before.push(k@));
                }
            },
            None => {},
        }
        i = i + 1;
    }
    proof {
        assert(ids@.take(ids@.len() as int) =~= ids@);
    }
    if keys.len() == 0 {
        let v = vec!['*'];
        proof {
            reveal_strlit("*");
            assert(v@ =~= "*"@);
        }
        return v;
    }
    let s = sort_keys(keys);
    let bar = vec!['|'];
    proof {
        reveal_strlit("|");
        assert(bar@ =~= "|"@);
    }
    join_chars(&s, &bar)
}

// ---------------------------------------------------------------------------
// The three lists
// ---------------------------------------------------------------------------

/// A relation line of the prompt.
pub struct PromptRelation {
    pub key: String,
    pub label: String,
    pub description: String,
    /// `domains → ranges`, empty when the relation names neither.
    pub signature: String,
}

/// The classes (key, label, description), the relations, and the attribute
/// lines a prompt carries.
pub struct PromptLists {
    pub types: Vec<(String, String, String)>,
    pub relations: Vec<PromptRelation>,
    pub attributes: Vec<String>,
}

pub open spec fn type_rows(classes: Seq<ClassEntry>, sel: Option<Seq<u128>>) -> Seq<
    (Seq<char>, Seq<char>, Seq<char>),
>
    decreases classes.len(),
{
    if classes.len() == 0 {
        Seq::empty()
    } else {
        let rest = type_rows(classes.drop_last(), sel);
        let c = classes.last();
        if picked(sel, c.id) {
            rest.push((c.key@, c.label@, c.description@))
        } else {
            rest
        }
    }
}

/// Whether a relation type is listed as a relation: not an attribute, not the
/// fallback relation, and selected.
pub open spec fn relation_listed(r: RelationEntry, rsel: Option<Seq<u128>>) -> bool {
    r.kind@ != "attribute"@ && r.key@ != fallback_key() && picked(rsel, r.id)
}

pub open spec fn signature_of(classes: Seq<ClassEntry>, csel: Option<Seq<u128>>, r: RelationEntry) -> Seq<
    char,
> {
    if r.domains@.len() == 0 && r.ranges@.len() == 0 {
        Seq::empty()
    } else {
        side_text(classes, csel, r.domains@) + " \u{2192} "@ + side_text(classes, csel, r.ranges@)
    }
}

/// The relation lines: key, label, description and signature.
pub open spec fn relation_rows(
    classes: Seq<ClassEntry>,
    csel: Option<Seq<u128>>,
    rels: Seq<RelationEntry>,
    rsel: Option<Seq<u128>>,
) -> Seq<(Seq<char>, Seq<char>, Seq<char>, Seq<char>)>
    decreases rels.len(),
{
    if rels.len() == 0 {
        Seq::empty()
    } else {
        let rest = relation_rows(classes, csel, rels.drop_last(), rsel);
        let r = rels.last();
        if relation_listed(r, rsel) {
            rest.push((r.key@, r.label@, r.description@, signature_of(classes, csel, r)))
        } else {
            rest
        }
    }
}

/// What an attribute's value is: its datatype (`text` when none is set), with
/// the unit after a comma when it has one.
pub open spec fn value_spec(r: RelationEntry) -> Seq<char> {
    let dt = match r.datatype {
        Some(d) => d@,
        None => "text"@,
    };
    match r.unit {
        Some(u) => if u@.len() > 0 {
            dt + ", "@ + u@
        } else {
            dt
        },
        None => dt,
    }
}

/// `- class.attribute (spec)`, followed by `: description` when the trimmed
/// description is not empty.
pub open spec fn attribute_line(class_key: Seq<char>, r: RelationEntry) -> Seq<char> {
    let d = trim_seq(r.description@);
    "- "@ + class_key + "."@ + r.key@ + " ("@ + value_spec(r) + ")"@ + if d.len() == 0 {
        Seq::empty()
    } else {
        ": "@ + d
    }
}

/// One line per domain of an attribute whose class is shown.
pub open spec fn domain_lines(
    classes: Seq<ClassEntry>,
    csel: Option<Seq<u128>>,
    r: RelationEntry,
    domains: Seq<u128>,
) -> Seq<Seq<char>>
    decreases domains.len(),
{
    if domains.len() == 0 {
        Seq::empty()
    } else {
        let rest = domain_lines(classes, csel, r, domains.drop_last());
        match key_of(classes, csel, domains.last()) {
            Some(k) => rest.push(attribute_line(k, r)),
            None => rest,
        }
    }
}

/// The attribute lines: for each selected attribute, a line under each of its
/// classes that is shown.
pub open spec fn attribute_rows(
    classes: Seq<ClassEntry>,
    csel: Option<Seq<u128>>,
    rels: Seq<RelationEntry>,
    rsel: Option<Seq<u128>>,
) -> Seq<Seq<char>>
    decreases rels.len(),
{
    if rels.len() == 0 {
        Seq::empty()
    } else {
        let rest = attribute_rows(classes, csel, rels.drop_last(), rsel);
        let r = rels.last();
        if r.kind@ == "attribute"@ && picked(rsel, r.id) {
            rest + domain_lines(classes, csel, r, r.domains@)
        } else {
            rest
        }
    }
}

pub open spec fn types_view(t: Seq<(String, String, String)>) -> Seq<(Seq<char>, Seq<char>, Seq<char>)> {
    t.map_values(|x: (String, String, String)| (x.0@, x.1@, x.2@))
}

pub open spec fn relations_view(t: Seq<PromptRelation>) -> Seq<(Seq<char>, Seq<char>, Seq<char>, Seq<char>)> {
    t.map_values(|x: PromptRelation| (x.key@, x.label@, x.description@, x.signature@))
}

pub open spec fn strings_view(t: Seq<String>) -> Seq<Seq<char>> {
    t.map_values(|x: String| x@)
}

fn list_types(classes: &Vec<ClassEntry>, sel: Option<&Vec<u128>>) -> (r: Vec<(String, String, String)>)
    ensures
        types_view(r@) == type_rows(classes@, sel_view(sel)),
{
    let mut out: Vec<(String, String, String)> = Vec::new();
    let mut i: usize = 0;
    proof {
        assert(classes@.take(0) =~= Seq::<ClassEntry>::empty());
        assert(types_view(out@) =~= Seq::<(Seq<char>, Seq<char>, Seq<char>)>::empty());
    }
    while i < classes.len()
        invariant
            i <= classes@.len(),
            types_view(out@) == type_rows(classes@.take(i as int), sel_view(sel)),
        decreases classes.len() - i,
    {
        let c = &classes[i];
        proof {
            let t = classes@.take(i + 1);
            assert(t.drop_last() =~= classes@.take(i as int));
            assert(t.last() == classes@[i as int]);
        }
        let ghost before = types_view(out@);
        if in_selection(sel, c.id) {
            out.push((c.key.clone(), c.label.clone(), c.description.clone()));
            proof {
                assert(types_view(out@) =~= before.push((c.key@, c.label@, c.description@)));
            }
        }
        i = i + 1;
    }
    proof {
        assert(classes@.take(classes@.len() as int) =~= classes@);
    }
    out
}

fn relation_signature(classes: &Vec<ClassEntry>, csel: Option<&Vec<u128>>, r: &RelationEntry) -> (s: String)
    ensures
        s@ == signature_of(classes@, sel_view(csel), *r),
{
    if r.domains.len() == 0 && r.ranges.len() == 0 {
        return string_of(&Vec::new());
    }
    let mut out = side(classes, csel, &r.domains);
    let mut arrow = chars_of(" \u{2192} ");
    let mut right = side(classes, csel, &r.ranges);
    let ghost a = out@;
    let ghost b = arrow@;
    let ghost c = right@;
    out.append(&mut arrow);
    out.append(&mut right);
    proof {
        assert(out@ =~= a + b + c);
    }
    string_of(&out)
}

fn list_relations(
    classes: &Vec<ClassEntry>,
    csel: Option<&Vec<u128>>,
    rels: &Vec<RelationEntry>,
    rsel: Option<&Vec<u128>>,
) -> (r: Vec<PromptRelation>)
    ensures
        relations_view(r@) == relation_rows(classes@, sel_view(csel), rels@, sel_view(rsel)),
{
    let mut out: Vec<PromptRelation> = Vec::new();
    let mut i: usize = 0;
    proof {
        assert(rels@.take(0) =~= Seq::<RelationEntry>::empty());
        assert(relations_view(out@) =~= Seq::<(Seq<char>, Seq<char>, Seq<char>, Seq<char>)>::empty());
    }
    while i < rels.len()
        invariant
            i <= rels@.len(),
            relations_view(out@) == relation_rows(
                classes@,
                sel_view(csel),
                rels@.take(i as int),
                sel_view(rsel),
            ),
        decreases rels.len() - i,
    {
        let r = &rels[i];
        proof {
            let t = rels@.take(i + 1);
            assert(t.drop_last() =~= rels@.take(i as int));
            assert(t.last() == rels@[i as int]);
        }
        let ghost before = relations_view(out@);
        let listed = !str_eq(r.kind.as_str(), "attribute") && !str_eq(r.key.as_str(), "related_to")
            && in_selection(rsel, r.id);
        if listed {
            let sig = relation_signature(classes, csel, r);
            let row = PromptRelation {
                key: r.key.clone(),
                label: r.label.clone(),
                description: r.description.clone(),
                signature: sig,
            };
            out.push(row);
            proof {
                assert(relations_view(out@) =~= before.push(
                    (r.key@, r.label@, r.description@, signature_of(classes@, sel_view(csel), *r)),
                ));
            }
        }
        i = i + 1;
    }
    proof {
        assert(rels@.take(rels@.len() as int) =~= rels@);
    }
    out
}

fn value_spec_text(r: &RelationEntry) -> (s: Vec<char>)
    ensures
        s@ == value_spec(*r),
{
    let mut dt = match &r.datatype {
        Some(d) => chars_of(d.as_str()),
        None => chars_of("text"),
    };
    match &r.unit {
        Some(u) => {
            let mut uc = chars_of(u.as_str());
            if uc.len() > 0 {
                let mut comma = chars_of(", ");
                let ghost a = dt@;
                let ghost b = comma@;
                let ghost c = uc@;
                dt.append(&mut comma);
                dt.append(&mut uc);
                proof {
                    assert(dt@ =~= a + b + c);
                }
            }
            dt
        },
        None => dt,
    }
}

fn attribute_text(class_key: &Vec<char>, r: &RelationEntry) -> (s: String)
    ensures
        s@ == attribute_line(class_key@, *r),
{
    let mut out = chars_of("- ");
    let ghost p0 = out@;
    let mut k = class_key.clone();
    out.append(&mut k);
    let mut dot = chars_of(".");
    out.append(&mut dot);
    let mut key = chars_of(r.key.as_str());
    out.append(&mut key);
    let mut open = chars_of(" (");
    out.append(&mut open);
    let mut vs = value_spec_text(r);
    out.append(&mut vs);
    let mut close = chars_of(")");
    out.append(&mut close);
    proof {
        assert(out@ =~= "- "@ + class_key@ + "."@ + r.key@ + " ("@ + value_spec(*r) + ")"@);
    }
    let ghost head = out@;
    let d = trim_chars(&chars_of(r.description.as_str()));
    if d.len() > 0 {
        let mut colon = chars_of(": ");
        let mut dd = d.clone();
        out.append(&mut colon);
        out.append(&mut dd);
        proof {
            assert(out@ =~= head + (": "@ + trim_seq(r.description@)));
        }
    } else {
        proof {
            assert(out@ =~= head + Seq::<char>::empty());
        }
    }
    string_of(&out)
}

fn list_attributes(
    classes: &Vec<ClassEntry>,
    csel: Option<&Vec<u128>>,
    rels: &Vec<RelationEntry>,
    rsel: Option<&Vec<u128>>,
) -> (r: Vec<String>)
    ensures
        strings_view(r@) == attribute_rows(classes@, sel_view(csel), rels@, sel_view(rsel)),
{
    let mut out: Vec<String> = Vec::new();
    let mut i: usize = 0;
    proof {
        assert(rels@.take(0) =~= Seq::<RelationEntry>::empty());
        assert(strings_view(out@) =~= Seq::<Seq<char>>::empty());
    }
    while i < rels.len()
        invariant
            i <= rels@.len(),
            strings_view(out@) == attribute_rows(
                classes@,
                sel_view(csel),
                rels@.take(i as int),
                sel_view(rsel),
            ),
        decreases rels.len() - i,
    {
        let r = &rels[i];
        proof {
            let t = rels@.take(i + 1);
            assert(t.drop_last() =~= rels@.take(i as int));
            assert(t.last() == rels@[i as int]);
        }
        let ghost before = strings_view(out@);
        if str_eq(r.kind.as_str(), "attribute") && in_selection(rsel, r.id) {
            let mut j: usize = 0;
            proof {
                assert(r.domains@.take(0) =~= Seq::<u128>::empty());
                assert(strings_view(out@) =~= before + domain_lines(
                    classes@,
                    sel_view(csel),
                    *r,
                    r.domains@.take(0),
                ));
            }
            while j < r.domains.len()
                invariant
                    j <= r.domains@.len(),
                    strings_view(out@) == before + domain_lines(
                        classes@,
                        sel_view(csel),
                        *r,
                        r.domains@.take(j as int),
                    ),
                decreases r.domains.len() - j,
            {
                proof {
                    let t = r.domains@.take(j + 1);
                    assert(t.drop_last() =~= r.domains@.take(j as int));
                    assert(t.last() == r.domains@[j as int]);
                }
                let ghost mid = strings_view(out@);
                match key_lookup(classes, csel, r.domains[j]) {
                    Some(k) => {
                        let line = attribute_text(&k, r);
                        out.push(line);
                        proof {
                            assert(strings_view(out@) =~= mid.push(attribute_line(k@, *r)));
                        }
                    },
                    None => {},
                }
                j = j + 1;
            }
            proof {
                assert(r.domains@.take(r.domains@.len() as int) =~= r.domains@);
            }
        }
        i = i + 1;
    }
    proof {
        assert(rels@.take(rels@.len() as int) =~= rels@);
    }
    out
}

/// The three lists for a selection of classes and of relation types (`None`:
/// the whole ontology). Only shown classes appear in signatures, a side with
/// none of them shown reads `*`, and an attribute is listed only under the
/// classes that are shown.
pub fn build_lists(
    classes: &Vec<ClassEntry>,
    rels: &Vec<RelationEntry>,
    class_sel: Option<&Vec<u128>>,
    rel_sel: Option<&Vec<u128>>,
) -> (r: PromptLists)
    ensures
        types_view(r.types@) == type_rows(classes@, sel_view(class_sel)),
        relations_view(r.relations@) == relation_rows(
            classes@,
            sel_view(class_sel),
            rels@,
            sel_view(rel_sel),
        ),
        strings_view(r.attributes@) == attribute_rows(
            classes@,
            sel_view(class_sel),
            rels@,
            sel_view(rel_sel),
        ),
{
    let types = list_types(classes, class_sel);
    let relations = list_relations(classes, class_sel, rels, rel_sel);
    let attributes = list_attributes(classes, class_sel, rels, rel_sel);
    PromptLists { types, relations, attributes }
}

// ---------------------------------------------------------------------------
// How long the lists are
// ---------------------------------------------------------------------------

/// Bytes of the class lines: key, label and description, and six more each.
pub open spec fn types_chars(t: Seq<(Seq<char>, Seq<char>, Seq<char>)>) -> nat
    decreases t.len(),
{
    if t.len() == 0 {
        0
    } else {
        types_chars(t.drop_last()) + utf8_len(t.last().0) + utf8_len(t.last().1) + utf8_len(t.last().2)
            + 6
    }
}

/// Bytes of the relation lines: key, label, description and signature, and
/// eight more each.
pub open spec fn relations_chars(t: Seq<(Seq<char>, Seq<char>, Seq<char>, Seq<char>)>) -> nat
    decreases t.len(),
{
    if t.len() == 0 {
        0
    } else {
        relations_chars(t.drop_last()) + utf8_len(t.last().0) + utf8_len(t.last().1) + utf8_len(
            t.last().2,
        ) + utf8_len(t.last().3) + 8
    }
}

/// Bytes of the attribute lines, and one more each.
pub open spec fn attributes_chars(t: Seq<Seq<char>>) -> nat
    decreases t.len(),
{
    if t.len() == 0 {
        0
    } else {
        attributes_chars(t.drop_last()) + utf8_len(t.last()) + 1
    }
}

/// How long the three lists are once laid out in a prompt, in bytes.
pub open spec fn prompt_chars(l: PromptLists) -> nat {
    types_chars(types_view(l.types@)) + relations_chars(relations_view(l.relations@))
        + attributes_chars(strings_view(l.attributes@))
}

proof fn lemma_types_prefix(t: Seq<(Seq<char>, Seq<char>, Seq<char>)>, i: int)
    requires
        0 <= i <= t.len(),
    ensures
        types_chars(t.take(i)) <= types_chars(t),
    decreases t.len() - i,
{
    if i < t.len() {
        lemma_types_prefix(t, i + 1);
        assert(t.take(i + 1).drop_last() =~= t.take(i));
    } else {
        assert(t.take(i) =~= t);
    }
}

proof fn lemma_relations_prefix(t: Seq<(Seq<char>, Seq<char>, Seq<char>, Seq<char>)>, i: int)
    requires
        0 <= i <= t.len(),
    ensures
        relations_chars(t.take(i)) <= relations_chars(t),
    decreases t.len() - i,
{
    if i < t.len() {
        lemma_relations_prefix(t, i + 1);
        assert(t.take(i + 1).drop_last() =~= t.take(i));
    } else {
        assert(t.take(i) =~= t);
    }
}

proof fn lemma_attributes_prefix(t: Seq<Seq<char>>, i: int)
    requires
        0 <= i <= t.len(),
    ensures
        attributes_chars(t.take(i)) <= attributes_chars(t),
    decreases t.len() - i,
{
    if i < t.len() {
        lemma_attributes_prefix(t, i + 1);
        assert(t.take(i + 1).drop_last() =~= t.take(i));
    } else {
        assert(t.take(i) =~= t);
    }
}

/// `acc` plus the UTF-8 length of a string, unless that passes `limit`.
fn add_bytes(acc: u128, s: &str, limit: u128) -> (r: Option<u128>)
    requires
        acc <= limit <= u64::MAX,
    ensures
        match r {
            Some(n) => n == acc + utf8_len(s@) && n <= limit,
            None => acc + utf8_len(s@) > limit,
        },
{
    let v = chars_of(s);
    let mut n = acc;
    let mut i: usize = 0;
    while i < v.len()
        invariant
            v@ == s@,
            i <= v@.len(),
            acc <= limit <= u64::MAX,
            n == acc + utf8_len(v@.take(i as int)),
            n <= limit,
        decreases v.len() - i,
    {
        let c = v[i];
        let w: u128 = if (c as u32) < 0x80 {
            1
        } else if (c as u32) < 0x800 {
            2
        } else if (c as u32) < 0x10000 {
            3
        } else {
            4
        };
        proof {
            assert(v@.take(i + 1).drop_last() =~= v@.take(i as int));
        }
        n = n + w;
        if n > limit {
            proof {
                lemma_utf8_len_prefix(v@, i + 1);
            }
            return None;
        }
        i = i + 1;
    }
    proof {
        assert(v@.take(v@.len() as int) =~= v@);
    }
    Some(n)
}

impl PromptLists {
    /// Whether the lists laid out in a prompt take more than `budget` bytes;
    /// when they do, each chunk gets lists of its own instead.
    pub fn over_budget(&self, budget: usize) -> (r: bool)
        ensures
            r == (prompt_chars(*self) > budget),
    {
        let limit = budget as u128;
        let ghost tv = types_view(self.types@);
        let ghost rv = relations_view(self.relations@);
        let ghost av = strings_view(self.attributes@);
        let mut acc: u128 = 0;
        let mut i: usize = 0;
        proof {
            assert(tv.take(0) =~= Seq::<(Seq<char>, Seq<char>, Seq<char>)>::empty());
        }
        while i < self.types.len()
            invariant
                tv == types_view(self.types@),
                i <= self.types@.len(),
                limit == budget,
                limit <= u64::MAX,
                acc == types_chars(tv.take(i as int)),
                acc <= limit,
            decreases self.types.len() - i,
        {
            let t = &self.types[i];
            proof {
                assert(tv.take(i + 1).drop_last() =~= tv.take(i as int));
                assert(tv.take(i + 1).last() == (t.0@, t.1@, t.2@));
                lemma_types_prefix(tv, i + 1);
            }
            let a = match add_bytes(acc, t.0.as_str(), limit) {
                Some(n) => n,
                None => return true,
            };
            let b = match add_bytes(a, t.1.as_str(), limit) {
                Some(n) => n,
                None => return true,
            };
            let c = match add_bytes(b, t.2.as_str(), limit) {
                Some(n) => n,
                None => return true,
            };
            if c + 6 > limit {
                return true;
            }
            acc = c + 6;
            i = i + 1;
        }
        proof {
            assert(tv.take(tv.len() as int) =~= tv);
        }
        let ghost base = acc;
        let mut j: usize = 0;
        proof {
            assert(rv.take(0) =~= Seq::<(Seq<char>, Seq<char>, Seq<char>, Seq<char>)>::empty());
        }
        while j < self.relations.len()
            invariant
                rv == relations_view(self.relations@),
                j <= self.relations@.len(),
                limit == budget,
                limit <= u64::MAX,
                base == types_chars(tv),
                tv == types_view(self.types@),
                acc == base + relations_chars(rv.take(j as int)),
                acc <= limit,
            decreases self.relations.len() - j,
        {
            let t = &self.relations[j];
            proof {
                assert(rv.take(j + 1).drop_last() =~= rv.take(j as int));
                assert(rv.take(j + 1).last() == (t.key@, t.label@, t.description@, t.signature@));
                lemma_relations_prefix(rv, j + 1);
            }
            let a = match add_bytes(acc, t.key.as_str(), limit) {
                Some(n) => n,
                None => return true,
            };
            let b = match add_bytes(a, t.label.as_str(), limit) {
                Some(n) => n,
                None => return true,
            };
            let c = match add_bytes(b, t.description.as_str(), limit) {
                Some(n) => n,
                None => return true,
            };
            let d = match add_bytes(c, t.signature.as_str(), limit) {
                Some(n) => n,
                None => return true,
            };
            if d + 8 > limit {
                return true;
            }
            acc = d + 8;
            j = j + 1;
        }
        proof {
            assert(rv.take(rv.len() as int) =~= rv);
        }
        let ghost base2 = acc;
        let mut k: usize = 0;
        proof {
            assert(av.take(0) =~= Seq::<Seq<char>>::empty());
        }
        while k < self.attributes.len()
            invariant
                av == strings_view(self.attributes@),
                k <= self.attributes@.len(),
                limit == budget,
                limit <= u64::MAX,
                base2 == types_chars(tv) + relations_chars(rv),
                tv == types_view(self.types@),
                rv == relations_view(self.relations@),
                acc == base2 + attributes_chars(av.take(k as int)),
                acc <= limit,
            decreases self.attributes.len() - k,
        {
            let t = &self.attributes[k];
            proof {
                assert(av.take(k + 1).drop_last() =~= av.take(k as int));
                assert(av.take(k + 1).last() == t@);
                lemma_attributes_prefix(av, k + 1);
            }
            let a = match add_bytes(acc, t.as_str(), limit) {
                Some(n) => n,
                None => return true,
            };
            if a + 1 > limit {
                return true;
            }
            acc = a + 1;
            k = k + 1;
        }
        proof {
            assert(av.take(av.len() as int) =~= av);
        }
        false
    }
}

// ---------------------------------------------------------------------------
// A chunk's own selection
// ---------------------------------------------------------------------------

/// Whether retrieval found nothing for a chunk: every class it found is a
/// built-in one and it found no relation or attribute type. The chunk then
/// gets the whole ontology rather than empty lists.
pub open spec fn retrieval_empty(seeds: Seq<u128>, classes: Seq<u128>, relations: Seq<u128>, attributes: Seq<
    u128,
>) -> bool {
    (forall|i: int| 0 <= i < classes.len() ==> seeds.contains(#[trigger] classes[i])) && relations.len()
        == 0 && attributes.len() == 0
}

fn contains_id(v: &Vec<u128>, x: u128) -> (r: bool)
    ensures
        r == v@.contains(x),
{
    in_selection(Some(v), x)
}

fn extend_ids(out: &mut Vec<u128>, xs: &Vec<u128>)
    ensures
        final(out)@ == old(out)@ + xs@,
{
    let mut i: usize = 0;
    let ghost start = out@;
    while i < xs.len()
        invariant
            i <= xs@.len(),
            out@ == start + xs@.take(i as int),
        decreases xs.len() - i,
    {
        out.push(xs[i]);
        proof {
            assert(start + xs@.take(i + 1) =~= (start + xs@.take(i as int)).push(xs@[i as int]));
        }
        i = i + 1;
    }
    proof {
        assert(xs@.take(xs@.len() as int) =~= xs@);
    }
}

/// The selection a chunk's lists are built from: the built-in classes and the
/// classes retrieved for it, and the relation and attribute types retrieved
/// for it (each a set: only what is in it counts, not order or repeats). `None`
/// when retrieval found nothing beyond the built-in classes.
pub fn chunk_selection(
    seeds: &Vec<u128>,
    classes: &Vec<u128>,
    relations: &Vec<u128>,
    attributes: &Vec<u128>,
) -> (r: Option<(Vec<u128>, Vec<u128>)>)
    ensures
        r is None <==> retrieval_empty(seeds@, classes@, relations@, attributes@),
        match r {
            Some((c, t)) => (forall|x: u128| #[trigger] c@.contains(x) <==> (seeds@.contains(x) || classes@.contains(x)))
                && (forall|x: u128| #[trigger] t@.contains(x) <==> (relations@.contains(x) || attributes@.contains(x))),
            None => true,
        },
{
    let mut only_seeds = true;
    let mut i: usize = 0;
    while i < classes.len()
        invariant
            i <= classes@.len(),
            only_seeds == (forall|j: int| 0 <= j < i ==> seeds@.contains(#[trigger] classes@[j])),
        decreases classes.len() - i,
    {
        if !contains_id(seeds, classes[i]) {
            only_seeds = false;
        }
        i = i + 1;
    }
    if only_seeds && relations.len() == 0 && attributes.len() == 0 {
        return None;
    }
    let mut c: Vec<u128> = Vec::new();
    extend_ids(&mut c, seeds);
    extend_ids(&mut c, classes);
    let mut t: Vec<u128> = Vec::new();
    extend_ids(&mut t, relations);
    extend_ids(&mut t, attributes);
    proof {
        assert(c@ =~= seeds@ + classes@);
        assert(t@ =~= relations@ + attributes@);
        assert forall|x: u128| #[trigger] c@.contains(x) <==> (seeds@.contains(x) || classes@.contains(x)) by {
            if c@.contains(x) {
                let k = choose|k: int| 0 <= k < c@.len() && c@[k] == x;
                if k < seeds@.len() {
                    assert(seeds@[k] == x);
                } else {
                    assert(classes@[k - seeds@.len()] == x);
                }
            }
            if seeds@.contains(x) {
                let k = choose|k: int| 0 <= k < seeds@.len() && seeds@[k] == x;
                assert(c@[k] == x);
            }
            if classes@.contains(x) {
                let k = choose|k: int| 0 <= k < classes@.len() && classes@[k] == x;
                assert(c@[seeds@.len() + k] == x);
            }
        }
        assert forall|x: u128| #[trigger] t@.contains(x) <==> (relations@.contains(x) || attributes@.contains(x)) by {
            if t@.contains(x) {
                let k = choose|k: int| 0 <= k < t@.len() && t@[k] == x;
                if k < relations@.len() {
                    assert(relations@[k] == x);
                } else {
                    assert(attributes@[k - relations@.len()] == x);
                }
            }
            if relations@.contains(x) {
                let k = choose|k: int| 0 <= k < relations@.len() && relations@[k] == x;
                assert(t@[k] == x);
            }
            if attributes@.contains(x) {
                let k = choose|k: int| 0 <= k < attributes@.len() && attributes@[k] == x;
                assert(t@[relations@.len() + k] == x);
            }
        }
    }
    Some((c, t))
}

} // verus!
