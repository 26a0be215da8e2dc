//! Finding an item by its key in a list that is searched from the front.

use vstd::prelude::*;

verus! {

/// The place of the first of `keys` that equals `k`.
pub open spec fn position<K>(keys: Seq<K>, k: K) -> Option<int>
    decreases keys.len(),
{
    if keys.len() == 0 {
        None
    } else {
        match position(keys.drop_last(), k) {
            Some(i) => Some(i),
            None => if keys.last() == k {
                Some(keys.len() - 1)
            } else {
                None
            },
        }
    }
}

/// What `position` finds is the first place that holds the key, and it finds
/// nothing only where no place holds the key.
pub proof fn lemma_position<K>(keys: Seq<K>, k: K)
    ensures
        match position(keys, k) {
            Some(i) => 0 <= i < keys.len() && keys[i] == k && forall|j: int|
                0 <= j < i ==> keys[j] != k,
            None => forall|j: int| 0 <= j < keys.len() ==> keys[j] != k,
        },
    decreases keys.len(),
{
    if keys.len() > 0 {
        let head = keys.drop_last();
        lemma_position(head, k);
        assert(forall|j: int| 0 <= j < head.len() ==> head[j] == keys[j]);
        match position(head, k) {
            Some(i) => {
                assert(head[i] == k);
                assert forall|j: int| 0 <= j < i implies keys[j] != k by {
                    assert(head[j] != k);
                }
            },
            None => {
                assert forall|j: int| 0 <= j < keys.len() - 1 implies keys[j] != k by {
                    assert(head[j] != k);
                }
            },
        }
    }
}

/// A key that stands at `i` and nowhere before is found at `i`.
pub proof fn lemma_position_found<K>(keys: Seq<K>, k: K, i: int)
    requires
        0 <= i < keys.len(),
        keys[i] == k,
        forall|j: int| 0 <= j < i ==> keys[j] != k,
    ensures
        position(keys, k) == Some(i),
{
    lemma_position(keys, k);
}

/// A key that stands nowhere is not found.
pub proof fn lemma_position_absent<K>(keys: Seq<K>, k: K)
    requires
        forall|j: int| 0 <= j < keys.len() ==> keys[j] != k,
    ensures
        position(keys, k) is None,
{
    lemma_position(keys, k);
}

/// One more key at the end is found only where the key was not found
/// before.
pub proof fn lemma_position_push<K>(keys: Seq<K>, x: K, k: K)
    ensures
        position(keys.push(x), k) == match position(keys, k) {
            Some(i) => Some(i),
            None => if x == k {
                Some(keys.len() as int)
            } else {
                None
            },
        },
{
    assert(keys.push(x).drop_last() =~= keys);
}

/// No key stands twice.
pub open spec fn distinct<K>(keys: Seq<K>) -> bool {
    forall|i: int, j: int| 0 <= i < j < keys.len() ==> keys[i] != keys[j]
}

/// In a list without repeated keys every key is found where it stands.
pub proof fn lemma_position_of_distinct<K>(keys: Seq<K>, i: int)
    requires
        distinct(keys),
        0 <= i < keys.len(),
    ensures
        position(keys, keys[i]) == Some(i),
{
    lemma_position(keys, keys[i]);
}

} // verus!
