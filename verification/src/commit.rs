//! Settling a round: the chosen candidate is reported, and the batch goes
//! back to the end of the pool, with or without it.

use crate::input::{chosen_position, read_choice, InputError};
use crate::model::{items, lemma_items_concat, lemma_items_remove};
use vstd::prelude::*;

verus! {

/// What goes back to the pool of a batch whose candidate at `index` was
/// chosen: the batch without that candidate when the choice removes it, the
/// whole batch otherwise, in the batch's order.
pub open spec fn returned(batch: Seq<Seq<char>>, index: int, remove: bool) -> Seq<Seq<char>> {
    if remove {
        batch.remove(index)
    } else {
        batch
    }
}

/// Settles the round on the candidate at `index`: returns that candidate, and
/// appends to the pool what goes back of the batch. The batch is left empty.
pub fn commit_choice(
    batch: &mut Vec<String>,
    index: usize,
    remove: bool,
    pool: &mut Vec<String>,
) -> (chosen: String)
    requires
        index < old(batch)@.len(),
    ensures
        chosen@ == old(batch)@[index as int]@,
        items(final(pool)@) == items(old(pool)@) + returned(
            items(old(batch)@),
            index as int,
            remove,
        ),
        final(batch)@.len() == 0,
{
    let chosen = if remove {
        proof {
            lemma_items_remove(batch@, index as int);
        }
        batch.remove(index)
    } else {
        batch[index].clone()
    };
    proof {
        lemma_items_concat(pool@, batch@);
    }
    pool.append(batch);
    chosen
}

/// Answers the prompt of a round with a line of console input.
///
/// A line that names a candidate settles the round on it. Any other line is
/// turned down with the reason, and batch and pool stay as they were, so
/// that the prompt can be repeated.
pub fn resolve_and_commit(
    line: &str,
    remove: bool,
    batch: &mut Vec<String>,
    pool: &mut Vec<String>,
) -> (outcome: Result<String, InputError>)
    ensures
        match chosen_position(line@, old(batch)@.len() as usize) {
            Ok(index) => {
                &&& outcome matches Ok(chosen)
                &&& index < old(batch)@.len()
                &&& chosen@ == old(batch)@[index as int]@
                &&& items(final(pool)@) == items(old(pool)@) + returned(
                    items(old(batch)@),
                    index as int,
                    remove,
                )
                &&& final(batch)@.len() == 0
            },
            Err(error) => {
                &&& outcome == Err::<String, InputError>(error)
                &&& final(batch)@ == old(batch)@
                &&& final(pool)@ == old(pool)@
            },
        },
{
    match read_choice(line, batch.len()) {
        Ok(index) => Ok(commit_choice(batch, index, remove, pool)),
        Err(error) => Err(error),
    }
}

} // verus!
