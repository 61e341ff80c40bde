//! Graph extraction's rules: which extracted entities are kept and under which
//! type, where an extracted statement goes (an attribute value, a literal on
//! the fallback relation, or a relation between two entities), and whether a
//! subject's type falls under an attribute's domain through the type hierarchy.
//! The model calls and the store work are the caller's.
use vstd::prelude::*;
use crate::text::{chars_of, string_of, trim_chars, trim_seq};

verus! {

// ---------------------------------------------------------------------------
// The type hierarchy
// ---------------------------------------------------------------------------

/// An entity type of the ontology, by id, with the ids of its parent types.
pub struct TypeNode {
    pub id: u128,
    pub parents: Vec<u128>,
}

/// The parents a type has in the table (by its last entry, as a map built from
/// the table would keep); none for a type that is not in it.
pub open spec fn parents_in(types: Seq<TypeNode>, x: u128) -> Seq<u128>
    decreases types.len(),
{
    if types.len() == 0 {
        Seq::empty()
    } else if types.last().id == x {
        types.last().parents@
    } else {
        parents_in(types.drop_last(), x)
    }
}

/// A chain of types, each followed by one of its parents.
pub open spec fn is_chain(types: Seq<TypeNode>, p: Seq<u128>) -> bool {
    p.len() >= 1 && forall|i: int| 0 <= i < p.len() - 1 ==> #[trigger] parents_in(types, p[i]).contains(p[i + 1])
}

/// `b` is `a` or one of its ancestors.
pub open spec fn reaches(types: Seq<TypeNode>, a: u128, b: u128) -> bool {
    exists|p: Seq<u128>| #[trigger] is_chain(types, p) && p[0] == a && p.last() == b
}

/// A type falls under the domains its ancestors fall under: if `b` is `a` or
/// an ancestor of it, and `c` is `b` or an ancestor of `b`, then `c` is `a` or
/// an ancestor of `a`. So an attribute declared on a class applies to the
/// subclasses of its subclasses too.
pub proof fn law_ancestry_is_transitive(types: Seq<TypeNode>, a: u128, b: u128, c: u128)
    requires
        reaches(types, a, b),
        reaches(types, b, c),
    ensures
        reaches(types, a, c),
{
    let p = choose|p: Seq<u128>| #[trigger] is_chain(types, p) && p[0] == a && p.last() == b;
    let q = choose|q: Seq<u128>| #[trigger] is_chain(types, q) && q[0] == b && q.last() == c;
    let r = p + q.drop_first();
    assert forall|i: int| 0 <= i < r.len() - 1 implies #[trigger] parents_in(types, r[i]).contains(r[i + 1]) by {
        if i < p.len() - 1 {
            assert(r[i] == p[i] && r[i + 1] == p[i + 1]);
        } else if i == p.len() - 1 {
            assert(r[i] == b);
            assert(r[i + 1] == q[1]);
            assert(parents_in(types, q[0]).contains(q[1]));
        } else {
            let k = i - p.len() + 1;
            assert(r[i] == q[k] && r[i + 1] == q[k + 1]);
        }
    }
    assert(is_chain(types, r));
    if q.len() == 1 {
        assert(r =~= p);
    } else {
        assert(r.last() == q.last());
    }
    assert(r[0] == a);
}

/// Every parent listed anywhere in the table.
pub open spec fn all_parents(types: Seq<TypeNode>) -> Seq<u128>
    decreases types.len(),
{
    if types.len() == 0 {
        Seq::empty()
    } else {
        all_parents(types.drop_last()) + types.last().parents@
    }
}

proof fn lemma_parents_listed(types: Seq<TypeNode>, x: u128, q: u128)
    requires
        parents_in(types, x).contains(q),
    ensures
        all_parents(types).contains(q),
    decreases types.len(),
{
    if types.len() > 0 {
        let rest = all_parents(types.drop_last());
        let own = types.last().parents@;
        if types.last().id == x {
            let k = choose|k: int| 0 <= k < own.len() && own[k] == q;
            assert((rest + own)[rest.len() + k] == q);
        } else {
            lemma_parents_listed(types.drop_last(), x, q);
            let k = choose|k: int| 0 <= k < rest.len() && rest[k] == q;
            assert((rest + own)[k] == q);
        }
    }
}

/// How many entries of `u` are not yet in `seen`.
pub open spec fn unseen(u: Seq<u128>, seen: Seq<u128>) -> nat
    decreases u.len(),
{
    if u.len() == 0 {
        0
    } else {
        unseen(u.drop_last(), seen) + if seen.contains(u.last()) {
            0nat
        } else {
            1nat
        }
    }
}

proof fn lemma_unseen_shrinks(u: Seq<u128>, seen: Seq<u128>, x: u128)
    ensures
        unseen(u, seen.push(x)) <= unseen(u, seen),
        u.contains(x) && !seen.contains(x) ==> unseen(u, seen.push(x)) < unseen(u, seen),
    decreases u.len(),
{
    if u.len() > 0 {
        lemma_unseen_shrinks(u.drop_last(), seen, x);
        let y = u.last();
        if seen.contains(y) {
            let k = choose|k: int| 0 <= k < seen.len() && seen[k] == y;
            assert(seen.push(x)[k] == y);
        }
        if y == x {
            assert(seen.push(x)[seen.len() as int] == x);
        }
        if u.contains(x) && !seen.contains(x) && y != x {
            let k = choose|k: int| 0 <= k < u.len() && u[k] == x;
            assert(u.drop_last()[k] == x);
        }
    }
}

proof fn lemma_extend_chain(types: Seq<TypeNode>, a: u128, x: u128, q: u128)
    requires
        reaches(types, a, x),
        parents_in(types, x).contains(q),
    ensures
        reaches(types, a, q),
{
    let p = choose|p: Seq<u128>| #[trigger] is_chain(types, p) && p[0] == a && p.last() == x;
    let p2 = p.push(q);
    assert forall|i: int| 0 <= i < p2.len() - 1 implies #[trigger] parents_in(types, p2[i]).contains(p2[i + 1]) by {
        if i < p.len() - 1 {
            assert(p2[i] == p[i] && p2[i + 1] == p[i + 1]);
        } else {
            assert(p2[i] == x && p2[i + 1] == q);
        }
    }
    assert(is_chain(types, p2));
}

proof fn lemma_closed(types: Seq<TypeNode>, seen: Seq<u128>, p: Seq<u128>, k: int)
    requires
        is_chain(types, p),
        seen.contains(p[0]),
        forall|s: u128, q: u128| seen.contains(s) && #[trigger] parents_in(types, s).contains(q) ==> #[trigger] seen.contains(q),
        0 <= k < p.len(),
    ensures
        seen.contains(p[k]),
    decreases k,
{
    if k > 0 {
        lemma_closed(types, seen, p, k - 1);
        assert(parents_in(types, p[k - 1]).contains(p[(k - 1) + 1]));
    }
}

fn seq_has(v: &Vec<u128>, x: u128) -> (r: bool)
    ensures
        r == v@.contains(x),
{
    let mut i: usize = 0;
    while i < v.len()
        invariant
            i <= v@.len(),
            forall|j: int| 0 <= j < i ==> v@[j] != x,
        decreases v.len() - i,
    {
        if v[i] == x {
            return true;
        }
        i = i + 1;
    }
    false
}

fn parents_of(types: &Vec<TypeNode>, x: u128) -> (r: Vec<u128>)
    ensures
        r@ == parents_in(types@, x),
{
    let mut i = types.len();
    proof {
        assert(types@.take(i as int) =~= types@);
    }
    while i > 0
        invariant
            i <= types@.len(),
            parents_in(types@, x) == parents_in(types@.take(i as int), x),
        decreases i,
    {
        proof {
            assert(types@.take(i as int).drop_last() =~= types@.take(i - 1));
            assert(types@.take(i as int).last() == types@[i - 1]);
        }
        if types[i - 1].id == x {
            return types[i - 1].parents.clone();
        }
        i = i - 1;
    }
    Vec::new()
}

/// Whether a subject of type `ty` falls under an attribute's domain: the
/// domain is the type itself or one of its ancestors. The hierarchy is walked
/// with a set of types already seen, so a cycle in it ends the walk.
pub fn type_matches_domain(types: &Vec<TypeNode>, ty: u128, domain: u128) -> (r: bool)
    ensures
        r == reaches(types@, ty, domain),
{
    let ghost univ = seq![ty] + all_parents(types@);
    let mut seen: Vec<u128> = Vec::new();
    let mut stack: Vec<u128> = vec![ty];
    proof {
        assert(univ[0] == ty);
        let p = seq![ty];
        assert(is_chain(types@, p));
    }
    while stack.len() > 0
        invariant
            univ == seq![ty] + all_parents(types@),
            forall|k: int| 0 <= k < stack@.len() ==> reaches(types@, ty, #[trigger] stack@[k]),
            forall|k: int| 0 <= k < stack@.len() ==> univ.contains(#[trigger] stack@[k]),
            forall|s: u128| #[trigger] seen@.contains(s) ==> reaches(types@, ty, s) && s != domain,
            forall|s: u128, q: u128| #[trigger] seen@.contains(s) && #[trigger] parents_in(types@, s).contains(q)
                ==> seen@.contains(q) || stack@.contains(q),
            seen@.contains(ty) || stack@.contains(ty),
        decreases unseen(univ, seen@), stack@.len(),
    {
        let ghost before_stack = stack@;
        let cur = stack.pop().unwrap();
        proof {
            assert(before_stack.last() == cur);
            assert(stack@ =~= before_stack.drop_last());
            assert(reaches(types@, ty, before_stack[before_stack.len() - 1]));
        }
        if cur == domain {
            return true;
        }
        if seq_has(&seen, cur) {
            proof {
                assert forall|s: u128, q: u128| #[trigger] seen@.contains(s) && #[trigger] parents_in(types@, s).contains(q)
                    implies seen@.contains(q) || stack@.contains(q) by {
                    if before_stack.contains(q) && !seen@.contains(q) {
                        let k = choose|k: int| 0 <= k < before_stack.len() && before_stack[k] == q;
                        if k < before_stack.len() - 1 {
                            assert(stack@[k] == q);
                        }
                    }
                }
                if before_stack.contains(ty) && !seen@.contains(ty) {
                    let k = choose|k: int| 0 <= k < before_stack.len() && before_stack[k] == ty;
                    assert(stack@[k] == ty);
                }
            }
            continue;
        }
        let ghost old_seen = seen@;
        seen.push(cur);
        proof {
            assert(univ.contains(before_stack[before_stack.len() - 1]));
            lemma_unseen_shrinks(univ, old_seen, cur);
        }
        let ps = parents_of(types, cur);
        let ghost mid_stack = stack@;
        let mut k: usize = 0;
        while k < ps.len()
            invariant
                univ == seq![ty] + all_parents(types@),
                ps@ == parents_in(types@, cur),
                reaches(types@, ty, cur),
                cur != domain,
                seen@ == old_seen.push(cur),
                forall|s: u128| #[trigger] old_seen.contains(s) ==> reaches(types@, ty, s) && s != domain,
                k <= ps@.len(),
                stack@ == mid_stack + ps@.take(k as int),
                forall|j: int| 0 <= j < mid_stack.len() ==> reaches(types@, ty, #[trigger] mid_stack[j]),
                forall|j: int| 0 <= j < mid_stack.len() ==> univ.contains(#[trigger] mid_stack[j]),
            decreases ps.len() - k,
        {
            proof {
                assert(ps@.contains(ps@[k as int]));
                lemma_extend_chain(types@, ty, cur, ps@[k as int]);
                lemma_parents_listed(types@, cur, ps@[k as int]);
                let ap = all_parents(types@);
                let w = choose|w: int| 0 <= w < ap.len() && ap[w] == ps@[k as int];
                assert(univ[w + 1] == ps@[k as int]);
            }
            stack.push(ps[k]);
            proof {
                assert(ps@.take(k + 1) =~= ps@.take(k as int).push(ps@[k as int]));
                assert(stack@ =~= mid_stack + ps@.take(k + 1));
            }
            k = k + 1;
        }
        proof {
            assert(ps@.take(ps@.len() as int) =~= ps@);
            assert forall|j: int| 0 <= j < stack@.len() implies reaches(types@, ty, #[trigger] stack@[j]) by {
                if j >= mid_stack.len() {
                    let q = ps@[j - mid_stack.len()];
                    assert(stack@[j] == q);
                    assert(ps@.contains(q));
                    lemma_extend_chain(types@, ty, cur, q);
                }
            }
            assert forall|j: int| 0 <= j < stack@.len() implies univ.contains(#[trigger] stack@[j]) by {
                if j >= mid_stack.len() {
                    let q = ps@[j - mid_stack.len()];
                    assert(stack@[j] == q);
                    assert(ps@.contains(q));
                    lemma_parents_listed(types@, cur, q);
                    let ap = all_parents(types@);
                    let w = choose|w: int| 0 <= w < ap.len() && ap[w] == q;
                    assert(univ[w + 1] == q);
                }
            }
            assert forall|s: u128| #[trigger] seen@.contains(s) implies reaches(types@, ty, s) && s != domain by {
                if s != cur {
                    let w = choose|w: int| 0 <= w < seen@.len() && seen@[w] == s;
                    assert(w < old_seen.len());
                    assert(old_seen[w] == s);
                    assert(old_seen.contains(s));
                }
            }
            assert forall|s: u128, q: u128| #[trigger] seen@.contains(s) && #[trigger] parents_in(types@, s).contains(q)
                implies seen@.contains(q) || stack@.contains(q) by {
                if s == cur {
                    let w = choose|w: int| 0 <= w < ps@.len() && ps@[w] == q;
                    assert(stack@[mid_stack.len() + w] == q);
                } else {
                    let w = choose|w: int| 0 <= w < seen@.len() && seen@[w] == s;
                    assert(old_seen[w] == s);
                    assert(old_seen.contains(s));
                    if old_seen.contains(q) {
                        let z = choose|z: int| 0 <= z < old_seen.len() && old_seen[z] == q;
                        assert(seen@[z] == q);
                    } else if q == cur {
                        assert(seen@[old_seen.len() as int] == q);
                    } else {
                        assert(before_stack.contains(q));
                        let z = choose|z: int| 0 <= z < before_stack.len() && before_stack[z] == q;
                        assert(z < before_stack.len() - 1);
                        assert(stack@[z] == q);
                    }
                }
            }
            if before_stack.contains(ty) && ty != cur {
                let z = choose|z: int| 0 <= z < before_stack.len() && before_stack[z] == ty;
                assert(stack@[z] == ty);
            }
            if old_seen.contains(ty) {
                let z = choose|z: int| 0 <= z < old_seen.len() && old_seen[z] == ty;
                assert(seen@[z] == ty);
            }
            if ty == cur {
                assert(seen@[old_seen.len() as int] == ty);
            }
        }
    }
    proof {
        assert(seen@.contains(ty));
        if reaches(types@, ty, domain) {
            let p = choose|p: Seq<u128>| #[trigger] is_chain(types@, p) && p[0] == ty && p.last() == domain;
            assert forall|s: u128, q: u128| seen@.contains(s) && #[trigger] parents_in(types@, s).contains(q)
                implies #[trigger] seen@.contains(q) by {
                assert(!stack@.contains(q));
            }
            lemma_closed(types@, seen@, p, p.len() - 1);
            assert(seen@.contains(domain));
        }
    }
    false
}

// ---------------------------------------------------------------------------
// Entities
// ---------------------------------------------------------------------------

/// An extracted entity is kept under its trimmed name when that is 1 to 100
/// characters long.
pub fn entity_name(raw: &str) -> (r: Option<String>)
    ensures
        0 < trim_seq(raw@).len() <= 100 ==> (r matches Some(n) && n@ == trim_seq(raw@)),
        !(0 < trim_seq(raw@).len() <= 100) ==> r is None,
{
    let t = trim_chars(&chars_of(raw));
    if t.len() == 0 || t.len() > 100 {
        None
    } else {
        Some(string_of(&t))
    }
}

/// A more specific type an extractor names is noted when it is not blank and
/// is not the type key itself (ignoring ASCII case).
pub fn specific_type(raw: Option<&str>, type_key: &str) -> (r: Option<String>)
    ensures
        match raw {
            None => r is None,
            Some(s) => if trim_seq(s@).len() > 0 && !crate::documents::eq_ignore_ascii_case(
                trim_seq(s@),
                type_key@,
            ) {
                r matches Some(t) && t@ == trim_seq(s@)
            } else {
                r is None
            },
        },
{
    match raw {
        None => None,
        Some(s) => {
            let t = crate::text::trim_str(s);
            if t.unicode_len() > 0 && !crate::documents::same_ignoring_ascii_case(
                t.as_str(),
                type_key,
            ) {
                Some(t)
            } else {
                None
            }
        },
    }
}

/// Where an extracted statement goes.
#[derive(Clone, Copy, Debug, PartialEq, Eq, Structural)]
pub enum Route {
    /// A value of an attribute the ontology declares.
    Attribute,
    /// A literal value (a number or a date) on the fallback relation.
    Literal,
    /// A relation between two entities.
    Relation,
}

/// The route of a statement. A predicate that names a declared attribute
/// makes it an attribute value. Otherwise a statement whose predicate is not a
/// known relation becomes a literal when it carries a value and no object, or
/// when its object is not an entity of this chunk and reads as a number or a
/// date. Everything else is a relation.
pub open spec fn route_of(
    attr_hit: bool,
    has_value: bool,
    object: Option<Seq<char>>,
    relation_known: bool,
    object_is_entity: bool,
    object_looks_literal: bool,
) -> Route {
    if attr_hit {
        Route::Attribute
    } else {
        let o = match object {
            Some(o) => Some(trim_seq(o)),
            None => None,
        };
        let no_object = match o {
            None => true,
            Some(x) => x.len() == 0,
        };
        if has_value && no_object && !relation_known {
            Route::Literal
        } else if !no_object && !relation_known && !object_is_entity && object_looks_literal {
            Route::Literal
        } else {
            Route::Relation
        }
    }
}

pub fn route(
    attr_hit: bool,
    has_value: bool,
    object: Option<&str>,
    relation_known: bool,
    object_is_entity: bool,
    object_looks_literal: bool,
) -> (r: Route)
    ensures
        r == route_of(
            attr_hit,
            has_value,
            match object {
                Some(o) => Some(o@),
                None => None,
            },
            relation_known,
            object_is_entity,
            object_looks_literal,
        ),
{
    if attr_hit {
        return Route::Attribute;
    }
    let no_object = match object {
        None => true,
        Some(o) => crate::text::trim_str(o).unicode_len() == 0,
    };
    if has_value && no_object && !relation_known {
        Route::Literal
    } else if !no_object && !relation_known && !object_is_entity && object_looks_literal {
        Route::Literal
    } else {
        Route::Relation
    }
}

/// The attribute a predicate names: the predicate itself, or, written as
/// `class.attribute`, the part after its last dot.
pub open spec fn attribute_candidates(predicate: Seq<char>) -> Seq<Seq<char>> {
    if exists|i: int| 0 <= i < predicate.len() && predicate[i] == '.' {
        seq![predicate, crate::ingest::after_last_dot(predicate)]
    } else {
        seq![predicate]
    }
}

pub fn attribute_keys(predicate: &str) -> (r: Vec<String>)
    ensures
        r@.map_values(|s: String| s@) == attribute_candidates(predicate@),
{
    let p = chars_of(predicate);
    let mut out: Vec<String> = Vec::new();
    out.push(string_of(&p));
    let mut i: usize = 0;
    let mut dot = false;
    while i < p.len()
        invariant
            i <= p@.len(),
            p@ == predicate@,
            dot == exists|j: int| 0 <= j < i && p@[j] == '.',
        decreases p.len() - i,
    {
        if p[i] == '.' {
            dot = true;
        }
        i = i + 1;
    }
    if dot {
        out.push(string_of(&crate::ingest::last_segment(&p)));
    }
    proof {
        assert(out@.map_values(|s: String| s@) =~= attribute_candidates(predicate@));
    }
    out
}

/// What happens to a relation statement once both ends are entities: none when
/// both ends are the same entity; otherwise its relation, or the fallback
/// relation when the predicate is unknown; dropped (`None`) when there is no
/// fallback relation either.
pub open spec fn relation_of(same_entity: bool, predicate: Option<u128>, fallback: Option<u128>) -> Option<u128> {
    if same_entity {
        None
    } else {
        match predicate {
            Some(p) => Some(p),
            None => fallback,
        }
    }
}

pub fn relation_for(same_entity: bool, predicate: Option<u128>, fallback: Option<u128>) -> (r: Option<u128>)
    ensures
        r == relation_of(same_entity, predicate, fallback),
{
    if same_entity {
        None
    } else {
        match predicate {
            Some(p) => Some(p),
            None => fallback,
        }
    }
}

/// Which sides of a new relation fact are checked for a clash with an older
/// one: only for a relation that holds as a state; the subject side when it is
/// functional, the object side when it is inverse functional.
pub fn uniqueness_sides(functional: bool, inverse_functional: bool, is_state: bool) -> (r: (bool, bool))
    ensures
        r == (is_state && functional, is_state && inverse_functional),
{
    (is_state && functional, is_state && inverse_functional)
}

/// Whether an extraction run still owns its document: a new run bumps the
/// document's extraction epoch, and a run that sees another epoch than the one
/// it started with leaves quietly (before each chunk, and once more at the
/// end), writing no status.
pub fn still_owner(stored_epoch: i64, my_epoch: i64) -> (r: bool)
    ensures
        r == (stored_epoch == my_epoch),
{
    stored_epoch == my_epoch
}

/// What a run that finished its chunks does next.
#[derive(Debug, PartialEq, Eq)]
pub struct FinishPlan {
    /// The document's graph status becomes `done`.
    pub mark_done: bool,
    /// A batch adjudication of grey-zone entity pairs is enqueued.
    pub adjudicate: bool,
    /// The review queue is told it changed.
    pub notify_review: bool,
    /// Growing the ontology from the proposals is enqueued.
    pub extend_ontology: bool,
}

/// The end of a run: superseded (another epoch) it does nothing; else the
/// document is done, adjudication is enqueued when grey-zone pairs were queued,
/// the review queue is told when those or conflicts were found, and the
/// ontology is grown when the knowledge base asks for it and no extraction is
/// left running (`idle`, consulted only then).
pub fn finish_plan(
    stored_epoch: i64,
    my_epoch: i64,
    needs_adjudication: bool,
    conflicts_found: bool,
    auto_extend: bool,
    idle: bool,
) -> (r: Option<FinishPlan>)
    ensures
        stored_epoch != my_epoch ==> r is None,
        stored_epoch == my_epoch ==> (r matches Some(p) && p.mark_done && p.adjudicate == needs_adjudication
            && p.notify_review == (needs_adjudication || conflicts_found) && p.extend_ontology == (
        auto_extend && idle)),
{
    if !still_owner(stored_epoch, my_epoch) {
        return None;
    }
    Some(
        FinishPlan {
            mark_done: true,
            adjudicate: needs_adjudication,
            notify_review: needs_adjudication || conflicts_found,
            extend_ontology: auto_extend && idle,
        },
    )
}

} // verus!
