//! Generic facts about first occurrences and filters of sequences.

use vstd::prelude::*;

verus! {

/// `i` is the first position holding `x`.
pub open spec fn first_at<A>(s: Seq<A>, x: A, i: int) -> bool {
    &&& 0 <= i < s.len()
    &&& s[i] == x
    &&& forall|j: int| 0 <= j < i ==> #[trigger] s[j] != x
}

/// First position of `x` in `s`, or -1 when `x` does not occur.
pub open spec fn first_index<A>(s: Seq<A>, x: A) -> int {
    if s.contains(x) {
        choose|i: int| first_at(s, x, i)
    } else {
        -1
    }
}

pub proof fn lemma_first_at_unique<A>(s: Seq<A>, x: A, i: int, k: int)
    requires
        first_at(s, x, i),
        first_at(s, x, k),
    ensures
        i == k,
{
    if i < k {
        assert(s[i] != x);
    } else if k < i {
        assert(s[k] != x);
    }
}

proof fn lemma_first_at_exists<A>(s: Seq<A>, x: A, k: int)
    requires
        0 <= k < s.len(),
        s[k] == x,
    ensures
        exists|i: int| first_at(s, x, i),
    decreases k,
{
    if exists|j: int| 0 <= j < k && #[trigger] s[j] == x {
        let j = choose|j: int| 0 <= j < k && #[trigger] s[j] == x;
        lemma_first_at_exists(s, x, j);
    } else {
        assert(first_at(s, x, k));
    }
}

/// `first_index` of a present element is its first occurrence.
pub proof fn lemma_first_index<A>(s: Seq<A>, x: A)
    requires
        s.contains(x),
    ensures
        first_at(s, x, first_index(s, x)),
{
    let k = choose|k: int| 0 <= k < s.len() && s[k] == x;
    lemma_first_at_exists(s, x, k);
}

/// A found first occurrence is `first_index`.
pub proof fn lemma_found_first<A>(s: Seq<A>, x: A, i: int)
    requires
        first_at(s, x, i),
    ensures
        s.contains(x),
        first_index(s, x) == i,
{
    assert(s[i] == x);
    lemma_first_index(s, x);
    lemma_first_at_unique(s, x, i, first_index(s, x));
}

/// One more element at the end of a prefix extends its filter accordingly.
pub proof fn lemma_filter_take_step<A>(s: Seq<A>, pred: spec_fn(A) -> bool, i: int)
    requires
        0 <= i < s.len(),
    ensures
        s.take(i + 1).filter(pred) == if pred(s[i]) {
            s.take(i).filter(pred).push(s[i])
        } else {
            s.take(i).filter(pred)
        },
{
    assert(s.take(i + 1).drop_last() =~= s.take(i));
    reveal_with_fuel(Seq::filter, 1);
}

} // verus!
