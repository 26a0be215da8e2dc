//! Views of lists: the list of the views of the items.

use vstd::prelude::*;

verus! {

/// The views of the items of `s`, in their order.
pub open spec fn views<T: View>(s: Seq<T>) -> Seq<T::V> {
    Seq::new(s.len(), |i: int| s[i]@)
}

pub broadcast proof fn lemma_views_len<T: View>(s: Seq<T>)
    ensures
        #[trigger] views(s).len() == s.len(),
{
}

pub broadcast proof fn lemma_views_index<T: View>(s: Seq<T>, i: int)
    requires
        0 <= i < s.len(),
    ensures
        #[trigger] views(s)[i] == s[i]@,
{
}

pub broadcast proof fn lemma_views_push<T: View>(s: Seq<T>, x: T)
    ensures
        #[trigger] views(s.push(x)) == views(s).push(x@),
{
    assert(views(s.push(x)) =~= views(s).push(x@));
}

pub broadcast proof fn lemma_views_update<T: View>(s: Seq<T>, i: int, x: T)
    requires
        0 <= i < s.len(),
    ensures
        #[trigger] views(s.update(i, x)) == views(s).update(i, x@),
{
    assert(views(s.update(i, x)) =~= views(s).update(i, x@));
}

pub broadcast proof fn lemma_views_empty<T: View>()
    ensures
        #[trigger] views(Seq::<T>::empty()) == Seq::<T::V>::empty(),
{
    assert(views(Seq::<T>::empty()) =~= Seq::<T::V>::empty());
}

pub broadcast proof fn lemma_views_drop_last<T: View>(s: Seq<T>)
    requires
        s.len() > 0,
    ensures
        #[trigger] views(s.drop_last()) == views(s).drop_last(),
{
    assert(views(s.drop_last()) =~= views(s).drop_last());
}

pub broadcast proof fn lemma_views_take<T: View>(s: Seq<T>, n: int)
    requires
        0 <= n <= s.len(),
    ensures
        #[trigger] views(s.take(n)) == views(s).take(n),
{
    assert(views(s.take(n)) =~= views(s).take(n));
}

pub broadcast group group_views {
    lemma_views_len,
    lemma_views_index,
    lemma_views_push,
    lemma_views_update,
    lemma_views_empty,
    lemma_views_drop_last,
    lemma_views_take,
}

} // verus!
