//! Where the inner sequences stand in the flattened sequence.
//!
//! The flattened sequence is the concatenation of what the inner sequences
//! have contributed, in outer order. An inner sequence begins behind the
//! items of those before it; no position is stored.

use crate::block::{with_block, without_block};
use crate::state::FlattenState;
use vstd::prelude::*;
use vstd::seq_lib::lemma_flatten_concat;

verus! {

/// What each of the inner sequences has contributed, in outer order.
pub open spec fn contents<S, T>(inner: Seq<FlattenState<S, T>>) -> Seq<Seq<T>> {
    inner.map_values(|state: FlattenState<S, T>| state@)
}

/// The sources of the inner sequences, in outer order.
pub open spec fn sources<S, T>(inner: Seq<FlattenState<S, T>>) -> Seq<Option<S>> {
    inner.map_values(|state: FlattenState<S, T>| state.signal())
}

/// Whether every count is the number of items its inner sequence has
/// contributed.
pub open spec fn all_wf<S, T>(inner: Seq<FlattenState<S, T>>) -> bool {
    forall|i: int| 0 <= i < inner.len() ==> (#[trigger] inner[i]).wf()
}

/// The number of flattened items before the inner sequence at `index`,
/// which is the flattened position at which that inner sequence begins.
pub open spec fn offset_of<T>(children: Seq<Seq<T>>, index: int) -> nat {
    children.take(index).flatten().len()
}

/// The outer sequence after the element at `old_index` has been taken
/// out and put back in at `new_index`.
pub open spec fn moved<A>(list: Seq<A>, old_index: int, new_index: int) -> Seq<A> {
    list.remove(old_index).insert(new_index, list[old_index])
}

/// The flattened sequence falls into the part before a position of the
/// outer sequence and the part from it on.
pub proof fn lemma_flat_split<T>(children: Seq<Seq<T>>, index: int)
    requires
        0 <= index <= children.len(),
    ensures
        children.flatten() == children.take(index).flatten() + children.skip(index).flatten(),
        offset_of(children, index) <= children.flatten().len(),
{
    assert(children.take(index) + children.skip(index) =~= children);
    lemma_flatten_concat(children.take(index), children.skip(index));
}

/// The flattened sequence falls into the part before an inner sequence,
/// that inner sequence, and the part behind it.
pub proof fn lemma_flat_split_at<T>(children: Seq<Seq<T>>, index: int)
    requires
        0 <= index < children.len(),
    ensures
        children.flatten() == children.take(index).flatten() + children[index] + children.skip(
            index + 1,
        ).flatten(),
        children.take(index + 1).flatten() == children.take(index).flatten() + children[index],
        offset_of(children, index + 1) == offset_of(children, index) + children[index].len(),
        offset_of(children, index) + children[index].len() <= children.flatten().len(),
{
    lemma_flat_split(children, index + 1);
    children.take(index).lemma_flatten_push(children[index]);
    assert(children.take(index + 1) =~= children.take(index).push(children[index]));
}

/// The flattened sequence after an inner sequence has been put in.
pub proof fn lemma_flat_insert<T>(children: Seq<Seq<T>>, index: int, child: Seq<T>)
    requires
        0 <= index <= children.len(),
    ensures
        children.insert(index, child).flatten() == children.take(index).flatten() + child
            + children.skip(index).flatten(),
{
    let one = seq![child];
    assert(children.insert(index, child) =~= children.take(index) + one + children.skip(index));
    lemma_flatten_concat(children.take(index) + one, children.skip(index));
    lemma_flatten_concat(children.take(index), one);
    one.lemma_flatten_singleton();
}

/// The flattened sequence after an inner sequence has been taken out.
pub proof fn lemma_flat_remove<T>(children: Seq<Seq<T>>, index: int)
    requires
        0 <= index < children.len(),
    ensures
        children.remove(index).flatten() == children.take(index).flatten() + children.skip(
            index + 1,
        ).flatten(),
        children.remove(index).flatten() == without_block(
            children.flatten(),
            offset_of(children, index),
            children[index].len(),
        ),
{
    assert(children.remove(index) =~= children.take(index) + children.skip(index + 1));
    lemma_flatten_concat(children.take(index), children.skip(index + 1));
    lemma_flat_split_at(children, index);
    let flat = children.flatten();
    let from = offset_of(children, index);
    assert(without_block(flat, from, children[index].len()) =~= children.take(index).flatten()
        + children.skip(index + 1).flatten());
}

/// The flattened sequence after an inner sequence has been exchanged.
pub proof fn lemma_flat_update<T>(children: Seq<Seq<T>>, index: int, child: Seq<T>)
    requires
        0 <= index < children.len(),
    ensures
        children.update(index, child).flatten() == with_block(
            children.flatten(),
            offset_of(children, index),
            children[index].len(),
            child,
        ),
        offset_of(children.update(index, child), index) == offset_of(children, index),
{
    let after = children.update(index, child);
    lemma_flat_split_at(children, index);
    lemma_flat_split_at(after, index);
    assert(after.take(index) =~= children.take(index));
    assert(after.skip(index + 1) =~= children.skip(index + 1));
    assert(after.flatten() =~= with_block(
        children.flatten(),
        offset_of(children, index),
        children[index].len(),
        child,
    ));
}

/// Where a moved inner sequence begins after the move, in terms of the
/// outer sequence before it.
pub proof fn lemma_moved_offset<T>(children: Seq<Seq<T>>, old_index: int, new_index: int)
    requires
        0 <= old_index < children.len(),
        0 <= new_index < children.len(),
    ensures
        new_index < old_index ==> offset_of(moved(children, old_index, new_index), new_index)
            == offset_of(children, new_index),
        old_index <= new_index ==> offset_of(moved(children, old_index, new_index), new_index)
            == offset_of(children, new_index + 1) - children[old_index].len(),
{
    let after = moved(children, old_index, new_index);
    if new_index < old_index {
        assert(after.take(new_index) =~= children.take(new_index));
    } else {
        lemma_flat_split_at(children.take(new_index + 1), old_index);
        assert(children.take(new_index + 1).take(old_index) + children.take(new_index + 1).skip(
            old_index + 1,
        ) =~= after.take(new_index));
        lemma_flatten_concat(
            children.take(new_index + 1).take(old_index),
            children.take(new_index + 1).skip(old_index + 1),
        );
    }
}

/// The flattened position at which the inner sequence at `index` begins.
pub fn prefix_len<S, T>(inner: &Vec<FlattenState<S, T>>, index: usize) -> (offset: usize)
    requires
        index <= inner@.len(),
        all_wf(inner@),
        contents(inner@).flatten().len() <= usize::MAX,
    ensures
        offset == offset_of(contents(inner@), index as int),
{
    let ghost children = contents(inner@);
    let mut offset: usize = 0;
    let mut i: usize = 0;
    assert(children.take(0) =~= Seq::<Seq<T>>::empty());
    while i < index
        invariant
            i <= index <= inner@.len(),
            children == contents(inner@),
            all_wf(inner@),
            children.flatten().len() <= usize::MAX,
            offset == offset_of(children, i as int),
        decreases index - i,
    {
        proof {
            lemma_flat_split_at(children, i as int);
        }
        offset = offset + inner[i].len();
        i = i + 1;
    }
    offset
}

} // verus!
