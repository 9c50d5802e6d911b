//! Generic sequence specifications used by several modules.
use vstd::prelude::*;

verus! {

/// No element before position `n` of `s` satisfies `p`.
pub open spec fn none_before<T>(s: Seq<T>, p: spec_fn(T) -> bool, n: int) -> bool {
    forall|k: int| 0 <= k < n ==> !p(#[trigger] s[k])
}

/// Position of the first element of `s` that satisfies `p`.
pub open spec fn first_match<T>(s: Seq<T>, p: spec_fn(T) -> bool) -> Option<int> {
    if exists|i: int| 0 <= i < s.len() && p(#[trigger] s[i]) {
        Some(choose|i: int| 0 <= i < s.len() && p(#[trigger] s[i]) && none_before(s, p, i))
    } else {
        None
    }
}

/// A matching position with no match before it is the first match.
pub proof fn lemma_first_match_at<T>(s: Seq<T>, p: spec_fn(T) -> bool, i: int)
    requires
        0 <= i < s.len(),
        p(s[i]),
        none_before(s, p, i),
    ensures
        first_match(s, p) == Some(i),
{
    assert(0 <= i < s.len() && p(s[i]));
    let j = choose|j: int| 0 <= j < s.len() && p(#[trigger] s[j]) && none_before(s, p, j);
    assert(0 <= j < s.len() && p(s[j]) && none_before(s, p, j));
    if j < i {
        assert(!p(s[j]));
    }
    if i < j {
        assert(!p(s[i]));
    }
}

/// A sequence with no matching element has no first match.
pub proof fn lemma_first_match_none<T>(s: Seq<T>, p: spec_fn(T) -> bool)
    requires
        none_before(s, p, s.len() as int),
    ensures
        first_match(s, p) is None,
{
    assert(!exists|i: int| 0 <= i < s.len() && p(#[trigger] s[i]));
}

/// Filtering the first `i + 1` elements extends the filter of the first `i` by `s[i]` when it
/// satisfies the predicate.
pub proof fn lemma_filter_take_step<T>(s: Seq<T>, p: spec_fn(T) -> bool, i: int)
    requires
        0 <= i < s.len(),
    ensures
        s.take(i + 1).filter(p) == if p(s[i]) {
            s.take(i).filter(p).push(s[i])
        } else {
            s.take(i).filter(p)
        },
{
    assert(s.take(i + 1).drop_last() =~= s.take(i));
    assert(s.take(i + 1).last() == s[i]);
    reveal_with_fuel(Seq::filter, 1);
}

/// What the first match is: a matching position with no match before it.
pub proof fn lemma_first_match_props<T>(s: Seq<T>, p: spec_fn(T) -> bool)
    ensures
        match first_match(s, p) {
            Some(i) => 0 <= i < s.len() && p(s[i]) && none_before(s, p, i),
            None => none_before(s, p, s.len() as int),
        },
{
    if exists|i: int| 0 <= i < s.len() && p(#[trigger] s[i]) {
        let w = choose|i: int| 0 <= i < s.len() && p(#[trigger] s[i]);
        lemma_least_match(s, p, w);
    }
}

proof fn lemma_least_match<T>(s: Seq<T>, p: spec_fn(T) -> bool, w: int)
    requires
        0 <= w < s.len(),
        p(s[w]),
    ensures
        exists|i: int| 0 <= i < s.len() && p(#[trigger] s[i]) && none_before(s, p, i),
    decreases w,
{
    if none_before(s, p, w) {
        assert(0 <= w < s.len() && p(s[w]) && none_before(s, p, w));
    } else {
        let k = choose|k: int| 0 <= k < w && p(#[trigger] s[k]);
        lemma_least_match(s, p, k);
    }
}

/// Changing elements other than the first match, without touching whether that one matches,
/// keeps the first match.
pub proof fn lemma_match_kept<T>(old_s: Seq<T>, new_s: Seq<T>, p: spec_fn(T) -> bool, i: int)
    requires
        first_match(old_s, p) == Some(i),
        new_s.len() == old_s.len(),
        forall|k: int| 0 <= k < i ==> #[trigger] new_s[k] == old_s[k],
        0 <= i < new_s.len() && p(new_s[i]),
    ensures
        first_match(new_s, p) == Some(i),
{
    lemma_first_match_props(old_s, p);
    assert forall|k: int| 0 <= k < i implies !p(#[trigger] new_s[k]) by {
        assert(new_s[k] == old_s[k]);
        assert(!p(old_s[k]));
    }
    lemma_first_match_at(new_s, p, i);
}

/// Appending a match to a sequence without one makes it the first match.
pub proof fn lemma_match_appended<T>(old_s: Seq<T>, new_s: Seq<T>, p: spec_fn(T) -> bool)
    requires
        first_match(old_s, p) is None,
        new_s.len() == old_s.len() + 1,
        new_s.take(old_s.len() as int) == old_s,
        p(new_s.last()),
    ensures
        first_match(new_s, p) == Some(old_s.len() as int),
{
    lemma_first_match_props(old_s, p);
    assert forall|k: int| 0 <= k < old_s.len() implies !p(#[trigger] new_s[k]) by {
        assert(new_s[k] == new_s.take(old_s.len() as int)[k]);
        assert(!p(old_s[k]));
    }
    lemma_first_match_at(new_s, p, old_s.len() as int);
}

} // verus!
