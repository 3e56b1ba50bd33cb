//! Linear search over sequences: "the first element that satisfies `p`".

use vstd::prelude::*;

verus! {

/// Index of the first element of `s` that satisfies `p`, if any.
pub open spec fn first_match<T>(s: Seq<T>, p: spec_fn(T) -> bool) -> Option<int>
    decreases s.len(),
{
    if s.len() == 0 {
        None
    } else if p(s[0]) {
        Some(0)
    } else {
        match first_match(s.drop_first(), p) {
            Some(i) => Some(i + 1),
            None => None,
        }
    }
}

/// An index `k` such that `p` holds at `k` and nowhere before is the first match.
pub proof fn lemma_first_match_found<T>(s: Seq<T>, p: spec_fn(T) -> bool, k: int)
    requires
        0 <= k < s.len(),
        p(s[k]),
        forall|j: int| 0 <= j < k ==> !p(#[trigger] s[j]),
    ensures
        first_match(s, p) == Some(k),
    decreases s.len(),
{
    if k > 0 {
        assert(!p(s[0]));
        assert forall|j: int| 0 <= j < k - 1 implies !p(#[trigger] s.drop_first()[j]) by {
            assert(s.drop_first()[j] == s[j + 1]);
        }
        lemma_first_match_found(s.drop_first(), p, k - 1);
    }
}

/// If no element satisfies `p` there is no first match.
pub proof fn lemma_first_match_none<T>(s: Seq<T>, p: spec_fn(T) -> bool)
    requires
        forall|j: int| 0 <= j < s.len() ==> !p(#[trigger] s[j]),
    ensures
        first_match(s, p) is None,
    decreases s.len(),
{
    if s.len() > 0 {
        assert(!p(s[0]));
        assert forall|j: int| 0 <= j < s.len() - 1 implies !p(#[trigger] s.drop_first()[j]) by {
            assert(s.drop_first()[j] == s[j + 1]);
        }
        lemma_first_match_none(s.drop_first(), p);
    }
}

/// A first match is in range and satisfies `p`.
pub proof fn lemma_first_match_sat<T>(s: Seq<T>, p: spec_fn(T) -> bool)
    ensures
        first_match(s, p) matches Some(k) ==> 0 <= k < s.len() && p(s[k]),
    decreases s.len(),
{
    if s.len() > 0 && !p(s[0]) {
        lemma_first_match_sat(s.drop_first(), p);
    }
}

/// Without a first match, no element satisfies `p`.
pub proof fn lemma_first_match_none_inv<T>(s: Seq<T>, p: spec_fn(T) -> bool, i: int)
    requires
        first_match(s, p) is None,
        0 <= i < s.len(),
    ensures
        !p(s[i]),
    decreases s.len(),
{
    if i > 0 {
        assert(s[i] == s.drop_first()[i - 1]);
        lemma_first_match_none_inv(s.drop_first(), p, i - 1);
    }
}

/// No element before the first match satisfies `p`.
pub proof fn lemma_first_match_first<T>(s: Seq<T>, p: spec_fn(T) -> bool, j: int)
    requires
        first_match(s, p) is Some,
        0 <= j < first_match(s, p)->0,
    ensures
        !p(s[j]),
    decreases s.len(),
{
    lemma_first_match_sat(s, p);
    if j > 0 {
        assert(s[j] == s.drop_first()[j - 1]);
        lemma_first_match_first(s.drop_first(), p, j - 1);
    }
}

/// If some element satisfies `p` there is a first match.
pub proof fn lemma_first_match_some<T>(s: Seq<T>, p: spec_fn(T) -> bool, i: int)
    requires
        0 <= i < s.len(),
        p(s[i]),
    ensures
        first_match(s, p) is Some,
{
    if first_match(s, p) is None {
        lemma_first_match_none_inv(s, p, i);
    }
}

/// The elements of `s` that satisfy `f`, in order.
pub open spec fn keep<T>(s: Seq<T>, f: spec_fn(T) -> bool) -> Seq<T>
    decreases s.len(),
{
    if s.len() == 0 {
        Seq::empty()
    } else if f(s.last()) {
        keep(s.drop_last(), f).push(s.last())
    } else {
        keep(s.drop_last(), f)
    }
}

/// `keep` depends only on which elements satisfy the predicate.
pub proof fn lemma_keep_ext<T>(s: Seq<T>, f: spec_fn(T) -> bool, g: spec_fn(T) -> bool)
    requires
        forall|x: T| #[trigger] f(x) == g(x),
    ensures
        keep(s, f) == keep(s, g),
    decreases s.len(),
{
    if s.len() > 0 {
        lemma_keep_ext(s.drop_last(), f, g);
    }
}

/// `keep` keeps nothing exactly when no element satisfies the predicate.
pub proof fn lemma_keep_empty<T>(s: Seq<T>, f: spec_fn(T) -> bool)
    ensures
        keep(s, f).len() == 0 <==> forall|i: int| 0 <= i < s.len() ==> !f(#[trigger] s[i]),
    decreases s.len(),
{
    if s.len() > 0 {
        lemma_keep_empty(s.drop_last(), f);
        if keep(s, f).len() == 0 {
            assert forall|i: int| 0 <= i < s.len() implies !f(#[trigger] s[i]) by {
                if i < s.len() - 1 {
                    assert(s[i] == s.drop_last()[i]);
                }
            }
        } else if !f(s.last()) {
            let i = choose|i: int| 0 <= i < s.drop_last().len() && f(#[trigger] s.drop_last()[i]);
            assert(s[i] == s.drop_last()[i]);
        }
    }
}

/// One more element considered by `keep`.
pub proof fn lemma_keep_step<T>(s: Seq<T>, f: spec_fn(T) -> bool, i: int)
    requires
        0 <= i < s.len(),
    ensures
        keep(s.take(i + 1), f) == if f(s[i]) {
            keep(s.take(i), f).push(s[i])
        } else {
            keep(s.take(i), f)
        },
{
    assert(s.take(i + 1).drop_last() =~= s.take(i));
}

/// `keep` never adds elements.
pub proof fn lemma_keep_len<T>(s: Seq<T>, f: spec_fn(T) -> bool)
    ensures
        keep(s, f).len() <= s.len(),
    decreases s.len(),
{
    if s.len() > 0 {
        lemma_keep_len(s.drop_last(), f);
    }
}

/// Three predicates that never hold together keep at most all elements.
pub proof fn lemma_keep_disjoint<T>(
    s: Seq<T>,
    f: spec_fn(T) -> bool,
    g: spec_fn(T) -> bool,
    h: spec_fn(T) -> bool,
)
    requires
        forall|x: T| #![trigger f(x)] #![trigger g(x)] #![trigger h(x)] !(f(x) && g(x)) && !(f(x) && h(x)) && !(g(x) && h(x)),
    ensures
        keep(s, f).len() + keep(s, g).len() + keep(s, h).len() <= s.len(),
    decreases s.len(),
{
    if s.len() > 0 {
        lemma_keep_disjoint(s.drop_last(), f, g, h);
    }
}

} // verus!
