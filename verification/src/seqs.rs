//! First-match scanning over sequences, shared by folder lookup,
//! message lookup and the first-unseen computation.

use vstd::prelude::*;

verus! {

/// The index of the first element satisfying `p`, or `-1` if none
/// does.
pub open spec fn first_idx<T>(s: Seq<T>, p: spec_fn(T) -> bool) -> int
    decreases s.len(),
{
    if s.len() == 0 {
        -1
    } else if p(s[0]) {
        0
    } else {
        let r = first_idx(s.drop_first(), p);
        if r < 0 {
            -1
        } else {
            r + 1
        }
    }
}

/// What `first_idx` returns: the first index satisfying `p` when one
/// exists, `-1` otherwise.
pub proof fn lemma_first_idx<T>(s: Seq<T>, p: spec_fn(T) -> bool)
    ensures
        first_idx(s, p) >= 0 ==> {
            &&& first_idx(s, p) < s.len()
            &&& p(s[first_idx(s, p)])
            &&& forall|j: int| 0 <= j < first_idx(s, p) ==> !p(s[j])
        },
        first_idx(s, p) < 0 ==> forall|j: int| 0 <= j < s.len() ==> !p(s[j]),
    decreases s.len(),
{
    if s.len() == 0 {
    } else if p(s[0]) {
    } else {
        let s2 = s.drop_first();
        lemma_first_idx(s2, p);
        let r = first_idx(s2, p);
        if r >= 0 {
            assert(s2[r] == s[r + 1]);
            assert forall|j: int| 0 <= j < r + 1 implies !p(s[j]) by {
                if j > 0 {
                    assert(s2[j - 1] == s[j]);
                }
            }
        } else {
            assert forall|j: int| 0 <= j < s.len() implies !p(s[j]) by {
                if j > 0 {
                    assert(s2[j - 1] == s[j]);
                }
            }
        }
    }
}

/// `first_idx` is the only index satisfying the first-match
/// characterisation, so a loop that finds it forward agrees with it.
pub proof fn lemma_first_idx_unique<T>(s: Seq<T>, p: spec_fn(T) -> bool, i: int)
    requires
        0 <= i < s.len(),
        p(s[i]),
        forall|j: int| 0 <= j < i ==> !p(s[j]),
    ensures
        first_idx(s, p) == i,
{
    lemma_first_idx(s, p);
}

} // verus!
