//! The mathematical model of a pool: a sequence of items, each a sequence of
//! characters.

use vstd::prelude::*;

verus! {

/// The items of `pool`, each taken by its characters.
pub open spec fn items(pool: Seq<String>) -> Seq<Seq<char>> {
    Seq::new(pool.len(), |i: int| pool[i]@)
}

/// Removing a string from a pool removes the item at the same place.
pub proof fn lemma_items_remove(pool: Seq<String>, at: int)
    requires
        0 <= at < pool.len(),
    ensures
        items(pool.remove(at)) == items(pool).remove(at),
{
    assert(items(pool.remove(at)) =~= items(pool).remove(at));
}

/// The items of two pools laid end to end are the items of the one followed
/// by the items of the other.
pub proof fn lemma_items_concat(front: Seq<String>, back: Seq<String>)
    ensures
        items(front + back) == items(front) + items(back),
{
    assert(items(front + back) =~= items(front) + items(back));
}

/// Appending a string to a pool appends its characters to the items.
pub proof fn lemma_items_push(pool: Seq<String>, last: String)
    ensures
        items(pool.push(last)) == items(pool).push(last@),
{
    assert(items(pool.push(last)) =~= items(pool).push(last@));
}

} // verus!
