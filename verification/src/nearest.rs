//! The first least of a run of keys: what nearest-colour search comes to once
//! every candidate has its distance.

use vstd::prelude::*;

verus! {

/// The place of the least key, the first of them where several are least.
/// For no keys at all it is 0.
pub open spec fn first_min(keys: Seq<int>) -> int
    decreases keys.len(),
{
    if keys.len() <= 1 {
        0
    } else {
        let best = first_min(keys.drop_last());
        if keys.last() < keys[best] {
            keys.len() - 1
        } else {
            best
        }
    }
}

/// `i` is the place of a least key, and no key before it is as small.
pub open spec fn is_first_min(keys: Seq<int>, i: int) -> bool {
    &&& 0 <= i < keys.len()
    &&& forall|j: int| 0 <= j < keys.len() ==> keys[i] <= #[trigger] keys[j]
    &&& forall|j: int| 0 <= j < i ==> keys[i] < #[trigger] keys[j]
}

/// The keys as integers.
pub open spec fn keys_of(distances: Seq<u32>) -> Seq<int> {
    Seq::new(distances.len(), |i: int| distances[i] as int)
}

/// `first_min` is the place of a least key, and the first such place.
pub proof fn lemma_first_min(keys: Seq<int>)
    requires
        keys.len() > 0,
    ensures
        is_first_min(keys, first_min(keys)),
    decreases keys.len(),
{
    if keys.len() > 1 {
        let init = keys.drop_last();
        lemma_first_min(init);
        let best = first_min(init);
        assert(keys[best] == init[best]);
        assert forall|j: int| 0 <= j < keys.len() implies keys[first_min(keys)] <= #[trigger] keys[j] by {
            if j < init.len() {
                assert(keys[j] == init[j]);
            }
        }
        assert forall|j: int| 0 <= j < first_min(keys) implies keys[first_min(keys)] < #[trigger] keys[j] by {
            assert(keys[j] == init[j]);
        }
    }
}

/// No other place is the first least.
pub proof fn lemma_first_min_unique(keys: Seq<int>, i: int)
    requires
        is_first_min(keys, i),
    ensures
        i == first_min(keys),
{
    lemma_first_min(keys);
    let m = first_min(keys);
    if i < m {
        assert(keys[m] < keys[i]);
        assert(keys[i] <= keys[m]);
    } else if m < i {
        assert(keys[i] < keys[m]);
        assert(keys[m] <= keys[i]);
    }
}

/// How the first least moves when one more key is looked at.
pub proof fn lemma_first_min_step(keys: Seq<int>, i: int)
    requires
        0 < i < keys.len(),
    ensures
        0 <= first_min(keys.take(i)) < i,
        first_min(keys.take(i + 1)) == if keys[i] < keys[first_min(keys.take(i))] {
            i
        } else {
            first_min(keys.take(i))
        },
{
    lemma_first_min(keys.take(i));
    assert(keys.take(i + 1).drop_last() =~= keys.take(i));
}

} // verus!
