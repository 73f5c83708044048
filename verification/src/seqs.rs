//! Facts about sequences that the proofs of this crate share.

use vstd::prelude::*;

verus! {

/// A sequence with one more element holds what it held before, and the
/// element added.
pub proof fn lemma_push_contains<A>(s: Seq<A>, added: A)
    ensures
        forall|x: A| #[trigger] s.push(added).contains(x) <==> s.contains(x) || x == added,
{
    assert forall|x: A| #[trigger] s.push(added).contains(x) <==> s.contains(x) || x == added by {
        if s.contains(x) {
            let i = choose|i: int| 0 <= i < s.len() && s[i] == x;
            assert(s.push(added)[i] == x);
        }
        if x == added {
            assert(s.push(added)[s.len() as int] == x);
        }
    }
}

/// A concatenation holds what one of its two parts holds.
pub proof fn lemma_concat_contains<A>(a: Seq<A>, b: Seq<A>)
    ensures
        forall|x: A| #[trigger] (a + b).contains(x) <==> a.contains(x) || b.contains(x),
{
    assert forall|x: A| #[trigger] (a + b).contains(x) <==> a.contains(x) || b.contains(x) by {
        if a.contains(x) {
            let i = choose|i: int| 0 <= i < a.len() && a[i] == x;
            assert((a + b)[i] == x);
        }
        if b.contains(x) {
            let i = choose|i: int| 0 <= i < b.len() && b[i] == x;
            assert((a + b)[a.len() + i] == x);
        }
        if (a + b).contains(x) {
            let i = choose|i: int| 0 <= i < (a + b).len() && (a + b)[i] == x;
            if i < a.len() {
                assert(a[i] == x);
            } else {
                assert(b[i - a.len()] == x);
            }
        }
    }
}

/// Whether `p` holds of every element of `s`.
pub open spec fn all_of<A>(s: Seq<A>, p: spec_fn(A) -> bool) -> bool {
    forall|i: int| 0 <= i < s.len() ==> p(#[trigger] s[i])
}

/// Two predicates that agree on the elements of a sequence keep the same
/// elements of it.
pub proof fn lemma_filter_agree<A>(s: Seq<A>, p: spec_fn(A) -> bool, q: spec_fn(A) -> bool)
    requires
        forall|i: int| 0 <= i < s.len() ==> p(#[trigger] s[i]) == q(s[i]),
    ensures
        s.filter(p) == s.filter(q),
    decreases s.len(),
{
    reveal(Seq::filter);
    if s.len() > 0 {
        lemma_filter_agree(s.drop_last(), p, q);
    }
}

/// A predicate that holds of every element keeps the whole sequence; one
/// that fails on some element keeps a shorter one.
pub proof fn lemma_filter_all<A>(s: Seq<A>, p: spec_fn(A) -> bool)
    ensures
        all_of(s, p) ==> s.filter(p) == s,
        !all_of(s, p) ==> s.filter(p).len() < s.len(),
    decreases s.len(),
{
    reveal(Seq::filter);
    if s.len() > 0 {
        let front = s.drop_last();
        lemma_filter_all(front, p);
        front.lemma_filter_len(p);
        if all_of(s, p) {
            assert(all_of(front, p));
        } else if p(s.last()) && all_of(front, p) {
            assert forall|i: int| 0 <= i < s.len() implies p(#[trigger] s[i]) by {
                if i < front.len() {
                    assert(front[i] == s[i]);
                }
            }
        }
    }
}

/// A predicate that holds of no element keeps nothing.
pub proof fn lemma_filter_none<A>(s: Seq<A>, p: spec_fn(A) -> bool)
    requires
        forall|i: int| 0 <= i < s.len() ==> !p(#[trigger] s[i]),
    ensures
        s.filter(p).len() == 0,
    decreases s.len(),
{
    reveal(Seq::filter);
    if s.len() > 0 {
        lemma_filter_none(s.drop_last(), p);
    }
}

/// What a filter keeps satisfies the predicate and comes from the sequence.
pub proof fn lemma_filter_kept<A>(s: Seq<A>, p: spec_fn(A) -> bool)
    ensures
        all_of(s.filter(p), p),
        forall|i: int| 0 <= i < s.filter(p).len() ==> s.contains(#[trigger] s.filter(p)[i]),
    decreases s.len(),
{
    reveal(Seq::filter);
    if s.len() > 0 {
        let front = s.drop_last();
        lemma_filter_kept(front, p);
        assert forall|i: int| 0 <= i < s.filter(p).len() implies s.contains(
            #[trigger] s.filter(p)[i],
        ) by {
            if i < front.filter(p).len() {
                let x = front.filter(p)[i];
                let k = choose|k: int| 0 <= k < front.len() && front[k] == x;
                assert(s[k] == x);
            } else {
                assert(s[s.len() - 1] == s.last());
            }
        }
    }
}

/// A predicate that holds of the element at `i` keeps at least one element,
/// and keeps that one first where it holds of none before it.
pub proof fn lemma_filter_some<A>(s: Seq<A>, p: spec_fn(A) -> bool, i: int)
    requires
        0 <= i < s.len(),
        p(s[i]),
    ensures
        s.filter(p).len() >= 1,
        (forall|k: int| 0 <= k < i ==> !p(s[k])) ==> s.filter(p)[0] == s[i],
{
    let before = s.take(i);
    let rest = s.skip(i + 1);
    assert(s == before.push(s[i]) + rest);
    before.lemma_filter_push(s[i], p);
    Seq::filter_distributes_over_add(before.push(s[i]), rest, p);
    if forall|k: int| 0 <= k < i ==> !p(s[k]) {
        lemma_filter_none(before, p);
    }
}

/// A predicate that holds of the elements at two positions keeps at least
/// two elements.
pub proof fn lemma_filter_two<A>(s: Seq<A>, p: spec_fn(A) -> bool, i: int, j: int)
    requires
        0 <= i < j < s.len(),
        p(s[i]),
        p(s[j]),
    ensures
        s.filter(p).len() >= 2,
{
    let upto = s.take(j);
    let rest = s.skip(j + 1);
    assert(s == upto.push(s[j]) + rest);
    upto.lemma_filter_push(s[j], p);
    Seq::filter_distributes_over_add(upto.push(s[j]), rest, p);
    assert(upto[i] == s[i]);
    lemma_filter_some(upto, p, i);
}

} // verus!
