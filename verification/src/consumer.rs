//! What a consumer of the flattened sequence can rely on.
//!
//! A consumer begins with an empty list and applies each notification as it
//! is handed out. The statements here are about that list.

use crate::diff::{
    apply_all, lemma_apply_all_len, lemma_chain_concat, valid_chain, VecDiff,
};
use crate::flatten::Flatten;
use crate::layout::{lemma_flat_split_at, offset_of};
use vstd::prelude::*;

verus! {

/// A consumer that has applied every notification handed out so far, and
/// goes on to apply those that wait, holds the concatenation of what the
/// inner sequences have contributed. With nothing waiting it holds that
/// concatenation already.
pub proof fn lemma_consumer_holds_flattened<S, T>(flatten: Flatten<S, T>)
    requires
        flatten.in_sync(Seq::empty()),
    ensures
        valid_chain(flatten.shown().len(), flatten.queued()),
        apply_all(flatten.shown(), flatten.queued()) == flatten.flat(),
        flatten.queued().len() == 0 ==> flatten.shown() == flatten.flat(),
{
    let none = Seq::<T>::empty();
    assert(flatten.produced() + Seq::<VecDiff<T>>::empty() =~= flatten.produced());
    lemma_chain_concat(none, flatten.handed_out(), flatten.queued());
    lemma_apply_all_len(none, flatten.handed_out());
}

/// The items that an inner sequence has contributed stand in the flattened
/// sequence as one block, which begins behind the items of the inner
/// sequences before it and has as many items as the inner sequence has
/// contributed.
pub proof fn lemma_child_block<T>(children: Seq<Seq<T>>, index: int)
    requires
        0 <= index < children.len(),
    ensures
        offset_of(children, index) + children[index].len() <= children.flatten().len(),
        children.flatten().subrange(
            offset_of(children, index) as int,
            (offset_of(children, index) + children[index].len()) as int,
        ) == children[index],
{
    lemma_flat_split_at(children, index);
    let offset = offset_of(children, index);
    assert(children.flatten().subrange(offset as int, (offset + children[index].len()) as int)
        =~= children[index]);
}

/// In a valid chain every notification names only positions that exist in
/// what the notifications before it have made of the list.
pub proof fn lemma_each_step_valid<T>(s: Seq<T>, diffs: Seq<VecDiff<T>>, step: int)
    requires
        valid_chain(s.len(), diffs),
        0 <= step < diffs.len(),
    ensures
        diffs[step].valid_on(apply_all(s, diffs.take(step)).len()),
    decreases diffs.len(),
{
    if step == diffs.len() - 1 {
        assert(diffs.take(step) =~= diffs.drop_last());
        lemma_apply_all_len(s, diffs.drop_last());
    } else {
        lemma_each_step_valid(s, diffs.drop_last(), step);
        assert(diffs.drop_last().take(step) =~= diffs.take(step));
    }
}

/// Take the notifications in the order in which they are handed out, those
/// that wait behind those handed out already, and apply them one by one to
/// a list that begins empty: none of them names a position that the list
/// lacks at its turn.
pub proof fn lemma_every_notification_applies<S, T>(flatten: Flatten<S, T>, step: int)
    requires
        flatten.in_sync(Seq::empty()),
        0 <= step < flatten.produced().len(),
    ensures
        flatten.produced()[step].valid_on(
            apply_all(Seq::<T>::empty(), flatten.produced().take(step)).len(),
        ),
{
    assert(flatten.produced() + Seq::<VecDiff<T>>::empty() =~= flatten.produced());
    lemma_each_step_valid(Seq::<T>::empty(), flatten.produced(), step);
}

/// A replacement can be applied to any list and leaves the new values,
/// whatever the list held and whatever the consumer had not yet seen; a
/// second application changes nothing.
pub proof fn lemma_replace_resets<T>(values: Vec<T>, held: Seq<T>, other: Seq<T>)
    ensures
        (VecDiff::Replace { values }).valid_on(held.len()),
        (VecDiff::Replace { values }).apply(held) == values@,
        (VecDiff::Replace { values }).apply(held) == (VecDiff::Replace { values }).apply(other),
        (VecDiff::Replace { values }).apply((VecDiff::Replace { values }).apply(held)) == (
        VecDiff::Replace { values }).apply(held),
{
}

} // verus!
