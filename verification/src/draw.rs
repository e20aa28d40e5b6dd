//! Drawing candidates from the pool under a selection policy.

use crate::model::{items, lemma_items_push, lemma_items_remove};
use crate::random::{random_index, random_item};
use vstd::prelude::*;

verus! {

/// The number of candidates drawn for one round.
pub const BATCH_SIZE: usize = 5;

/// Whether a draw under the two flags is defined on a pool of `len` items.
///
/// An empty pool yields the empty item under every policy; on any other pool
/// the draw must be random or remove what it draws. Ordered selection that
/// keeps its item would hand out the front item over and over: no draw is
/// defined for it, and the functions of this module leave it out.
pub open spec fn supported(random: bool, remove: bool, len: nat) -> bool {
    random || remove || len == 0
}

/// Tells whether candidates can be drawn from `pool` under the two flags.
///
/// A program tests this before it draws, and treats `false` as a fault in
/// its configuration.
pub fn policy_supported(random: bool, remove: bool, pool: &Vec<String>) -> (ok: bool)
    ensures
        ok == supported(random, remove, pool@.len()),
{
    random || remove || pool.len() == 0
}

/// One draw at position `at`: `item` is what stood there, and `after` is
/// `before` without it when the draw removes, `before` itself otherwise.
pub open spec fn draws(
    before: Seq<Seq<char>>,
    at: int,
    remove: bool,
    item: Seq<char>,
    after: Seq<Seq<char>>,
) -> bool {
    &&& 0 <= at < before.len()
    &&& item == before[at]
    &&& after == if remove {
        before.remove(at)
    } else {
        before
    }
}

/// Removes the string at position `at` from the pool and returns it.
pub fn take_at(pool: &mut Vec<String>, at: usize) -> (item: String)
    requires
        at < old(pool).len(),
    ensures
        draws(items(old(pool)@), at as int, true, item@, items(final(pool)@)),
{
    proof {
        lemma_items_remove(pool@, at as int);
    }
    pool.remove(at)
}

/// What one draw may give: from the pool `before`, the item `item` and the
/// pool `after`.
///
/// An empty pool gives the empty item and stays as it is. Any other pool
/// gives the item at some position, the front one unless the draw is random;
/// it gives nothing to an ordered draw that keeps its item.
pub open spec fn draw_gives(
    before: Seq<Seq<char>>,
    random: bool,
    remove: bool,
    item: Seq<char>,
    after: Seq<Seq<char>>,
) -> bool {
    if before.len() == 0 {
        item == Seq::<char>::empty() && after == before
    } else {
        &&& random || remove
        &&& exists|at: int|
            (random || at == 0) && #[trigger] draws(before, at, remove, item, after)
    }
}

/// Draws one item from the pool.
///
/// An empty pool yields the empty item and stays empty. Otherwise a random
/// draw takes the item at some position, an ordered draw the one at the
/// front; the item leaves the pool exactly when `remove` is set.
pub fn select_element(random: bool, remove: bool, pool: &mut Vec<String>) -> (item: String)
    requires
        supported(random, remove, old(pool)@.len()),
    ensures
        draw_gives(items(old(pool)@), random, remove, item@, items(final(pool)@)),
        !remove ==> final(pool)@ == old(pool)@,
{
    if pool.len() == 0 {
        String::new()
    } else if remove {
        let at: usize = if random {
            random_index(pool.len())
        } else {
            0
        };
        let item = take_at(pool, at);
        assert(draws(items(old(pool)@), at as int, remove, item@, items(pool@)));
        item
    } else {
        let item = random_item(pool).unwrap().clone();
        let ghost at = choose|at: int| 0 <= at < pool.len() && item == #[trigger] pool[at];
        assert(draws(items(old(pool)@), at, remove, item@, items(pool@)));
        item
    }
}

/// What a run of draws may give: `batch` holds the items in the order in
/// which they were drawn, one draw for each, every draw made on the pool as
/// the draw before left it.
pub open spec fn batch_gives(
    before: Seq<Seq<char>>,
    random: bool,
    remove: bool,
    batch: Seq<Seq<char>>,
    after: Seq<Seq<char>>,
) -> bool
    decreases batch.len(),
{
    if batch.len() == 0 {
        after == before
    } else {
        exists|mid: Seq<Seq<char>>|
            batch_gives(before, random, remove, batch.drop_last(), mid) && #[trigger] draw_gives(
                mid,
                random,
                remove,
                batch.last(),
                after,
            )
    }
}

/// A run of draws followed by one more draw is a run of draws.
pub proof fn lemma_batch_extend(
    before: Seq<Seq<char>>,
    random: bool,
    remove: bool,
    batch: Seq<Seq<char>>,
    mid: Seq<Seq<char>>,
    item: Seq<char>,
    after: Seq<Seq<char>>,
)
    requires
        batch_gives(before, random, remove, batch, mid),
        draw_gives(mid, random, remove, item, after),
    ensures
        batch_gives(before, random, remove, batch.push(item), after),
{
    let longer = batch.push(item);
    assert(longer.drop_last() =~= batch);
    assert(longer.last() == item);
    assert(draw_gives(mid, random, remove, longer.last(), after));
}

/// How many draws of a run of `draws` find an item in a pool of `len` items
/// when each draw removes what it finds.
pub open spec fn found(draws: nat, len: nat) -> nat {
    if draws <= len {
        draws
    } else {
        len
    }
}

/// Draws the candidates of one round: `BATCH_SIZE` draws, one after another.
///
/// The batch holds what the draws gave, in their order, and the pool is what
/// the last draw left.
pub fn draw_batch(random: bool, remove: bool, pool: &mut Vec<String>) -> (batch: Vec<String>)
    requires
        supported(random, remove, old(pool)@.len()),
    ensures
        batch@.len() == BATCH_SIZE,
        batch_gives(items(old(pool)@), random, remove, items(batch@), items(final(pool)@)),
        !remove ==> final(pool)@ == old(pool)@,
        remove ==> final(pool)@.len() == old(pool)@.len() - found(
            BATCH_SIZE as nat,
            old(pool)@.len(),
        ),
        !random ==> {
            &&& items(final(pool)@) == items(old(pool)@).skip(
                found(BATCH_SIZE as nat, old(pool)@.len()) as int,
            )
            &&& forall|i: int|
                0 <= i < BATCH_SIZE ==> #[trigger] batch@[i]@ == if i < old(pool)@.len() {
                    old(pool)@[i]@
                } else {
                    Seq::<char>::empty()
                }
        },
{
    let mut batch: Vec<String> = Vec::new();
    let mut count: usize = 0;
    proof {
        assert(items(batch@) =~= Seq::<Seq<char>>::empty());
    }
    while count < BATCH_SIZE
        invariant
            count <= BATCH_SIZE,
            batch@.len() == count,
            !remove ==> pool@ == old(pool)@,
            supported(random, remove, pool@.len()),
            batch_gives(items(old(pool)@), random, remove, items(batch@), items(pool@)),
        decreases BATCH_SIZE - count,
    {
        let ghost mid = items(pool@);
        let ghost so_far = items(batch@);
        let item = select_element(random, remove, pool);
        let ghost drawn = item@;
        proof {
            lemma_items_push(batch@, item);
        }
        batch.push(item);
        proof {
            lemma_batch_extend(items(old(pool)@), random, remove, so_far, mid, drawn, items(pool@));
            assert(mid.len() == 0 ==> items(pool@).len() == 0);
        }
        count += 1;
    }
    proof {
        let before = items(old(pool)@);
        if remove {
            lemma_removing_batch(before, random, items(batch@), items(pool@));
        }
        if !random {
            if remove {
                lemma_ordered_batch(before, items(batch@), items(pool@));
            } else {
                lemma_keeping_batch(before, random, items(batch@), items(pool@));
                assert(before.skip(0) =~= before);
            }
            assert forall|i: int| 0 <= i < BATCH_SIZE implies #[trigger] batch@[i]@ == if i
                < old(pool)@.len() {
                old(pool)@[i]@
            } else {
                Seq::<char>::empty()
            } by {
                assert(items(batch@)[i] == batch@[i]@);
            }
        }
    }
    batch
}

/// Ordered draws that remove hand out the front of the pool in its order:
/// draw `i` gives the item that stood at position `i`, or the empty item once
/// the pool is exhausted, and the pool that is left starts where the draws
/// stopped.
pub proof fn lemma_ordered_batch(
    before: Seq<Seq<char>>,
    batch: Seq<Seq<char>>,
    after: Seq<Seq<char>>,
)
    requires
        batch_gives(before, false, true, batch, after),
    ensures
        after == before.skip(found(batch.len(), before.len()) as int),
        forall|i: int|
            0 <= i < batch.len() ==> #[trigger] batch[i] == if i < before.len() {
                before[i]
            } else {
                Seq::<char>::empty()
            },
    decreases batch.len(),
{
    if batch.len() == 0 {
        assert(before.skip(0) =~= before);
    } else {
        let mid = choose|mid: Seq<Seq<char>>|
            batch_gives(before, false, true, batch.drop_last(), mid) && #[trigger] draw_gives(
                mid,
                false,
                true,
                batch.last(),
                after,
            );
        lemma_ordered_batch(before, batch.drop_last(), mid);
        let earlier = found(batch.drop_last().len(), before.len()) as int;
        if mid.len() == 0 {
            assert(after =~= before.skip(found(batch.len(), before.len()) as int));
        } else {
            let at = choose|at: int|
                at == 0 && #[trigger] draws(mid, at, true, batch.last(), after);
            assert(after =~= before.skip(earlier + 1));
        }
        assert forall|i: int| 0 <= i < batch.len() implies #[trigger] batch[i] == if i
            < before.len() {
            before[i]
        } else {
            Seq::<char>::empty()
        } by {
            if i < batch.len() - 1 {
                assert(batch[i] == batch.drop_last()[i]);
            }
        }
    }
}

/// Draws that remove take each item from a place of its own: the pool
/// shrinks by the number of draws that found it non-empty, what those draws
/// gave and what is left make up the pool as it was, item for item, and every
/// later draw gives the empty item.
pub proof fn lemma_removing_batch(
    before: Seq<Seq<char>>,
    random: bool,
    batch: Seq<Seq<char>>,
    after: Seq<Seq<char>>,
)
    requires
        batch_gives(before, random, true, batch, after),
    ensures
        after.len() == before.len() - found(batch.len(), before.len()),
        before.to_multiset() == after.to_multiset().add(
            batch.take(found(batch.len(), before.len()) as int).to_multiset(),
        ),
        forall|i: int|
            before.len() <= i < batch.len() ==> #[trigger] batch[i] == Seq::<char>::empty(),
    decreases batch.len(),
{
    broadcast use vstd::seq_lib::group_to_multiset_ensures;

    if batch.len() == 0 {
        assert(batch.take(0) =~= Seq::<Seq<char>>::empty());
        assert(before.to_multiset() =~= after.to_multiset().add(batch.take(0).to_multiset()));
    } else {
        let mid = choose|mid: Seq<Seq<char>>|
            batch_gives(before, random, true, batch.drop_last(), mid) && #[trigger] draw_gives(
                mid,
                random,
                true,
                batch.last(),
                after,
            );
        let shorter = batch.drop_last();
        lemma_removing_batch(before, random, shorter, mid);
        let earlier = found(shorter.len(), before.len()) as int;
        let now = found(batch.len(), before.len()) as int;
        if mid.len() == 0 {
            assert(now == earlier);
            assert(batch.take(now) =~= shorter.take(earlier));
        } else {
            let at = choose|at: int| #[trigger] draws(mid, at, true, batch.last(), after);
            assert(now == earlier + 1);
            assert(batch.take(now) =~= shorter.take(earlier).push(batch.last()));
            assert(after.to_multiset() =~= mid.to_multiset().remove(mid[at]));
            assert(mid.to_multiset().count(mid[at]) > 0) by {
                assert(mid.contains(mid[at]));
            }
            assert(before.to_multiset() =~= after.to_multiset().add(
                batch.take(now).to_multiset(),
            ));
        }
        assert forall|i: int| before.len() <= i < batch.len() implies #[trigger] batch[i]
            == Seq::<char>::empty() by {
            if i < batch.len() - 1 {
                assert(batch[i] == shorter[i]);
            }
        }
    }
}

/// From a pool that holds no item twice, draws that remove give pairwise
/// distinct items for as long as the pool lasts, and none of them is left in
/// the pool.
pub proof fn lemma_distinct_batch(
    before: Seq<Seq<char>>,
    random: bool,
    batch: Seq<Seq<char>>,
    after: Seq<Seq<char>>,
)
    requires
        batch_gives(before, random, true, batch, after),
        before.no_duplicates(),
    ensures
        batch.take(found(batch.len(), before.len()) as int).no_duplicates(),
        forall|i: int|
            0 <= i < found(batch.len(), before.len()) ==> !after.contains(#[trigger] batch[i]),
{
    broadcast use vstd::seq_lib::group_to_multiset_ensures;

    let taken = batch.take(found(batch.len(), before.len()) as int);
    let whole = after + taken;
    lemma_removing_batch(before, random, batch, after);
    before.lemma_multiset_has_no_duplicates();
    vstd::seq_lib::lemma_multiset_commutative(after, taken);
    whole.lemma_multiset_has_no_duplicates_conv();
    assert forall|i: int, j: int|
        0 <= i < taken.len() && 0 <= j < taken.len() && i != j implies taken[i] != taken[j] by {
        assert(whole[after.len() + i] == taken[i]);
        assert(whole[after.len() + j] == taken[j]);
    }
    assert forall|i: int| 0 <= i < taken.len() implies !after.contains(#[trigger] batch[i]) by {
        if after.contains(batch[i]) {
            let k = choose|k: int| 0 <= k < after.len() && after[k] == batch[i];
            assert(whole[k] == after[k]);
            assert(whole[after.len() + i] == taken[i]);
        }
    }
}

/// Draws that keep their items leave the pool as it was, and each item they
/// give stands in the pool; from an empty pool each is the empty item.
pub proof fn lemma_keeping_batch(
    before: Seq<Seq<char>>,
    random: bool,
    batch: Seq<Seq<char>>,
    after: Seq<Seq<char>>,
)
    requires
        batch_gives(before, random, false, batch, after),
    ensures
        after == before,
        forall|i: int|
            0 <= i < batch.len() ==> if before.len() == 0 {
                #[trigger] batch[i] == Seq::<char>::empty()
            } else {
                random && before.contains(batch[i])
            },
    decreases batch.len(),
{
    if batch.len() > 0 {
        let mid = choose|mid: Seq<Seq<char>>|
            batch_gives(before, random, false, batch.drop_last(), mid) && #[trigger] draw_gives(
                mid,
                random,
                false,
                batch.last(),
                after,
            );
        lemma_keeping_batch(before, random, batch.drop_last(), mid);
        if mid.len() > 0 {
            let at = choose|at: int| #[trigger] draws(mid, at, false, batch.last(), after);
            assert(before.contains(batch.last()));
        }
        assert forall|i: int| 0 <= i < batch.len() implies if before.len() == 0 {
            #[trigger] batch[i] == Seq::<char>::empty()
        } else {
            random && before.contains(batch[i])
        } by {
            if i < batch.len() - 1 {
                assert(batch[i] == batch.drop_last()[i]);
            }
        }
    }
}

} // verus!
