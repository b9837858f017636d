//! Finding the first element of a sequence that has a property.

use vstd::prelude::*;

verus! {

/// Where the first element of `s` that `hit` holds of stands, or the length
/// of `s` if there is none.
pub open spec fn first_index<T>(s: Seq<T>, hit: spec_fn(T) -> bool) -> int
    decreases s.len(),
{
    if s.len() == 0 || hit(s[0]) {
        0
    } else {
        1 + first_index(s.drop_first(), hit)
    }
}

/// The first hit stands inside or at the end of the sequence, nothing before
/// it is a hit, and what stands there is one.
pub proof fn lemma_first_index<T>(s: Seq<T>, hit: spec_fn(T) -> bool)
    ensures
        0 <= first_index(s, hit) <= s.len(),
        forall|k: int| 0 <= k < first_index(s, hit) ==> !hit(#[trigger] s[k]),
        first_index(s, hit) < s.len() ==> hit(s[first_index(s, hit)]),
    decreases s.len(),
{
    if s.len() == 0 || hit(s[0]) {
    } else {
        let rest = s.drop_first();
        lemma_first_index(rest, hit);
        assert forall|k: int| 0 <= k < first_index(s, hit) implies !hit(#[trigger] s[k]) by {
            if k > 0 {
                assert(s[k] == rest[k - 1]);
            }
        }
    }
}

/// A position with no hit before it, which holds a hit or is the end, is
/// where the first hit stands.
pub proof fn lemma_first_index_at<T>(s: Seq<T>, hit: spec_fn(T) -> bool, i: int)
    requires
        0 <= i <= s.len(),
        forall|k: int| 0 <= k < i ==> !hit(#[trigger] s[k]),
        i < s.len() ==> hit(s[i]),
    ensures
        first_index(s, hit) == i,
    decreases s.len(),
{
    if i > 0 {
        assert(!hit(s[0]));
        let rest = s.drop_first();
        assert forall|k: int| 0 <= k < i - 1 implies !hit(#[trigger] rest[k]) by {
            assert(rest[k] == s[k + 1]);
        }
        lemma_first_index_at(rest, hit, i - 1);
    }
}

} // verus!
