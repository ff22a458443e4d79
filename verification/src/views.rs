//! Lists as mathematical values.

use vstd::prelude::*;

verus! {

/// The values that the items of a list stand for, in order.
pub open spec fn views<T: View>(s: Seq<T>) -> Seq<T::V> {
    Seq::new(s.len(), |i: int| s[i]@)
}

/// The values of a list with one more item are those of the list and that of
/// the item.
pub proof fn lemma_views_push<T: View>(s: Seq<T>, item: T)
    ensures
        views(s.push(item)) == views(s).push(item@),
{
    assert(views(s.push(item)) =~= views(s).push(item@));
}

} // verus!
