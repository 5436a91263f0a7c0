use vstd::prelude::*;

verus! {

/// `i` is the first position in `s` whose element satisfies `p`.
pub open spec fn is_first_match<A>(s: Seq<A>, p: spec_fn(A) -> bool, i: int) -> bool {
    &&& 0 <= i < s.len()
    &&& p(s[i])
    &&& forall|k: int| 0 <= k < i ==> !p(#[trigger] s[k])
}

/// No element of `s` satisfies `p`.
pub open spec fn no_match<A>(s: Seq<A>, p: spec_fn(A) -> bool) -> bool {
    forall|k: int| 0 <= k < s.len() ==> !p(#[trigger] s[k])
}

/// The position of the first element of `s` that satisfies `p`, if there is one.
pub open spec fn first_match<A>(s: Seq<A>, p: spec_fn(A) -> bool) -> Option<int> {
    if exists|i: int| is_first_match(s, p, i) {
        Some(choose|i: int| is_first_match(s, p, i))
    } else {
        None
    }
}

/// The first match is unique, so `first_match` names it.
pub proof fn lemma_first_match<A>(s: Seq<A>, p: spec_fn(A) -> bool, i: int)
    requires
        is_first_match(s, p, i),
    ensures
        first_match(s, p) == Some(i),
{
    let j = choose|j: int| is_first_match(s, p, j);
    assert(is_first_match(s, p, j));
    if j < i {
        assert(!p(s[j]));
    } else if i < j {
        assert(!p(s[i]));
    }
}

/// Without a match, `first_match` is `None`.
pub proof fn lemma_no_match<A>(s: Seq<A>, p: spec_fn(A) -> bool)
    requires
        no_match(s, p),
    ensures
        first_match(s, p) is None,
{
    if exists|i: int| is_first_match(s, p, i) {
        let i = choose|i: int| is_first_match(s, p, i);
        assert(p(s[i]));
    }
}

/// An element that satisfies `p` makes a first match exist.
pub proof fn lemma_match_gives_first<A>(s: Seq<A>, p: spec_fn(A) -> bool, j: int)
    requires
        0 <= j < s.len(),
        p(s[j]),
    ensures
        first_match(s, p) is Some,
    decreases j,
{
    if forall|k: int| 0 <= k < j ==> !p(#[trigger] s[k]) {
        lemma_first_match(s, p, j);
    } else {
        let k = choose|k: int| 0 <= k < j && p(s[k]);
        lemma_match_gives_first(s, p, k);
    }
}

/// Without a first match, no element satisfies `p`.
pub proof fn lemma_none_means_no_match<A>(s: Seq<A>, p: spec_fn(A) -> bool)
    requires
        first_match(s, p) is None,
    ensures
        no_match(s, p),
{
    assert forall|k: int| 0 <= k < s.len() implies !p(#[trigger] s[k]) by {
        if p(s[k]) {
            lemma_match_gives_first(s, p, k);
        }
    }
}

} // verus!
