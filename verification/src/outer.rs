//! Changes of the outer sequence, and the notifications in flattened
//! coordinates that stand for them.

use crate::block::{
    fits_chain, lemma_moves_towards_back, lemma_moves_towards_front, lemma_pops, lemma_removals,
    lemma_repeated_move_len, moves_towards_back, moves_towards_front, removals, repeated,
    without_block,
};
use crate::diff::{apply_all, lemma_apply_all_len, len_after_all, valid_chain, VecDiff};
use crate::layout::{
    all_wf, contents, lemma_flat_insert, lemma_flat_remove, lemma_flat_split,
    lemma_flat_split_at, lemma_moved_offset, moved, offset_of, prefix_len,
};
use crate::pending::PendingBuilder;
use crate::state::{push_removals, push_repeated_move, Batch, FlattenState};
use vstd::prelude::*;

verus! {

/// What each of some new inner sequences holds after the changes that it
/// gave when it was first polled.
pub open spec fn fresh_contents<S, T>(children: Seq<(S, Batch<T>)>) -> Seq<Seq<T>> {
    children.map_values(|child: (S, Batch<T>)| apply_all(Seq::<T>::empty(), child.1.diffs@))
}

/// The sources of some new inner sequences after they were first polled:
/// one that reported its end is let go.
pub open spec fn fresh_sources<S, T>(children: Seq<(S, Batch<T>)>) -> Seq<Option<S>> {
    children.map_values(
        |child: (S, Batch<T>)|
            if child.1.exhausted {
                None
            } else {
                Some(child.0)
            },
    )
}

/// One change of the outer sequence. Where it brings new inner sequences,
/// it holds their sources; a replacement also holds what each new inner
/// sequence gave when it was first polled.
#[derive(Debug)]
pub enum OuterDiff<S, T> {
    Replace { children: Vec<(S, Batch<T>)> },
    InsertAt { index: usize, child: S },
    UpdateAt { index: usize, child: S },
    RemoveAt { index: usize },
    Move { old_index: usize, new_index: usize },
    Push { child: S },
    Pop {},
    Clear {},
}

impl<S, T> OuterDiff<S, T> {
    /// Whether the change refers only to positions that exist in an outer
    /// sequence of `count` inner sequences, and whether what the new inner
    /// sequences of a replacement gave can be applied in order.
    pub open spec fn valid_on(self, count: nat) -> bool {
        match self {
            OuterDiff::Replace { children } => forall|i: int|
                0 <= i < children@.len() ==> fits_chain(0, 0, (#[trigger] children@[i]).1.diffs@),
            OuterDiff::InsertAt { index, .. } => index <= count,
            OuterDiff::UpdateAt { index, .. } => index < count,
            OuterDiff::RemoveAt { index } => index < count,
            OuterDiff::Move { old_index, new_index } => old_index < count && new_index < count,
            OuterDiff::Push { .. } => true,
            OuterDiff::Pop { } => count > 0,
            OuterDiff::Clear { } => true,
        }
    }

    /// Whether the change is answered at once by one notification that
    /// resets the consumer, in place of notifications that are queued.
    pub open spec fn resets(self) -> bool {
        self is Replace || self is Clear
    }

    /// What the inner sequences have contributed after the change.
    pub open spec fn contents_after(self, children: Seq<Seq<T>>) -> Seq<Seq<T>> {
        match self {
            OuterDiff::Replace { children: fresh } => fresh_contents(fresh@),
            OuterDiff::InsertAt { index, .. } => children.insert(index as int, Seq::empty()),
            OuterDiff::UpdateAt { index, .. } => children.update(index as int, Seq::empty()),
            OuterDiff::RemoveAt { index } => children.remove(index as int),
            OuterDiff::Move { old_index, new_index } => moved(
                children,
                old_index as int,
                new_index as int,
            ),
            OuterDiff::Push { .. } => children.push(Seq::empty()),
            OuterDiff::Pop { } => children.drop_last(),
            OuterDiff::Clear { } => Seq::empty(),
        }
    }

    /// The sources of the inner sequences after the change.
    pub open spec fn sources_after(self, before: Seq<Option<S>>) -> Seq<Option<S>> {
        match self {
            OuterDiff::Replace { children: fresh } => fresh_sources(fresh@),
            OuterDiff::InsertAt { index, child } => before.insert(index as int, Some(child)),
            OuterDiff::UpdateAt { index, child } => before.update(index as int, Some(child)),
            OuterDiff::RemoveAt { index } => before.remove(index as int),
            OuterDiff::Move { old_index, new_index } => moved(
                before,
                old_index as int,
                new_index as int,
            ),
            OuterDiff::Push { child } => before.push(Some(child)),
            OuterDiff::Pop { } => before.drop_last(),
            OuterDiff::Clear { } => Seq::empty(),
        }
    }

    /// The notifications that are queued for the change, given what the
    /// inner sequences have contributed before it.
    pub open spec fn emitted(self, children: Seq<Seq<T>>) -> Seq<VecDiff<T>> {
        match self {
            OuterDiff::UpdateAt { index, .. } => removals(
                offset_of(children, index as int),
                children[index as int].len(),
            ),
            OuterDiff::RemoveAt { index } => removals(
                offset_of(children, index as int),
                children[index as int].len(),
            ),
            OuterDiff::Move { old_index, new_index } => if old_index != new_index {
                child_moves(children, old_index as int, new_index as int)
            } else {
                Seq::empty()
            },
            OuterDiff::Pop { } => repeated(VecDiff::Pop { }, children.last().len()),
            _ => Seq::empty(),
        }
    }

    /// Tells whether the change can be made to an outer sequence of `count`
    /// inner sequences.
    pub fn is_valid_on(&self, count: usize) -> (ok: bool)
        ensures
            ok == self.valid_on(count as nat),
    {
        match self {
            OuterDiff::Replace { children } => all_fit(children),
            OuterDiff::InsertAt { index, .. } => *index <= count,
            OuterDiff::UpdateAt { index, .. } => *index < count,
            OuterDiff::RemoveAt { index } => *index < count,
            OuterDiff::Move { old_index, new_index } => *old_index < count && *new_index < count,
            OuterDiff::Push { .. } => true,
            OuterDiff::Pop { } => count > 0,
            OuterDiff::Clear { } => true,
        }
    }
}

/// Tells whether what each of some new inner sequences gave when it was
/// first polled can be applied in order, beginning with nothing.
fn all_fit<S, T>(children: &Vec<(S, Batch<T>)>) -> (ok: bool)
    ensures
        ok == forall|i: int|
            0 <= i < children@.len() ==> fits_chain(0, 0, (#[trigger] children@[i]).1.diffs@),
{
    let mut i: usize = 0;
    while i < children.len()
        invariant
            i <= children@.len(),
            forall|k: int| 0 <= k < i ==> fits_chain(0, 0, (#[trigger] children@[k]).1.diffs@),
        decreases children@.len() - i,
    {
        if !children[i].1.fits(0, 0) {
            assert(!fits_chain(0, 0, children@[i as int].1.diffs@));
            return false;
        }
        i += 1;
    }
    true
}

/// The single-item moves that stand for the move of the inner sequence at
/// `old_index` to `new_index`: one for each item it has contributed. On the
/// way to the front each takes the last item of the block to the block's
/// new beginning; on the way to the back each takes the first item of the
/// block to the block's new end.
pub open spec fn child_moves<T>(children: Seq<Seq<T>>, old_index: int, new_index: int) -> Seq<
    VecDiff<T>,
> {
    let from = offset_of(children, old_index);
    let to = offset_of(moved(children, old_index, new_index), new_index);
    if new_index < old_index {
        moves_towards_front(from, to, children[old_index].len())
    } else {
        moves_towards_back(from, to, children[old_index].len())
    }
}

/// What the notifications queued for a change of the outer sequence do:
/// applied in order to the flattened sequence from before the change, they
/// give the flattened sequence from after it, and none of them names a
/// position that is missing at its turn. This is stated of every change
/// that is not answered by a reset.
pub proof fn lemma_outer_effect<S, T>(diff: OuterDiff<S, T>, children: Seq<Seq<T>>)
    requires
        diff.valid_on(children.len()),
        !diff.resets(),
        children.flatten().len() <= usize::MAX,
    ensures
        valid_chain(children.flatten().len(), diff.emitted(children)),
        apply_all(children.flatten(), diff.emitted(children)) == diff.contents_after(
            children,
        ).flatten(),
        diff.contents_after(children).flatten().len() <= children.flatten().len(),
{
    let flat = children.flatten();
    let none = Seq::<T>::empty();
    match diff {
        OuterDiff::InsertAt { index, .. } => {
            lemma_flat_insert(children, index as int, none);
            lemma_flat_split(children, index as int);
            assert(children.take(index as int).flatten() + none =~= children.take(
                index as int,
            ).flatten());
            assert(children.insert(index as int, none).flatten() == flat);
        },
        OuterDiff::UpdateAt { index, .. } => {
            let i = index as int;
            lemma_flat_split_at(children, i);
            lemma_removals(flat, offset_of(children, i), children[i].len());
            lemma_flat_remove(children, i);
            assert(children.remove(i).flatten().len() <= flat.len());
            lemma_flat_insert(children.remove(i), i, none);
            assert(children.remove(i).insert(i, none) =~= children.update(i, none));
            lemma_flat_split(children.remove(i), i);
            assert(children.remove(i).take(i).flatten() + none =~= children.remove(i).take(
                i,
            ).flatten());
        },
        OuterDiff::RemoveAt { index } => {
            let i = index as int;
            lemma_flat_split_at(children, i);
            lemma_removals(flat, offset_of(children, i), children[i].len());
            lemma_flat_remove(children, i);
        },
        OuterDiff::Move { old_index, new_index } => {
            if old_index != new_index {
                lemma_child_moves(children, old_index as int, new_index as int);
                lemma_apply_all_len(
                    flat,
                    child_moves(children, old_index as int, new_index as int),
                );
                lemma_moves_keep_len(children, old_index as int, new_index as int);
            } else {
                assert(moved(children, old_index as int, new_index as int) =~= children);
            }
        },
        OuterDiff::Push { .. } => {
            children.lemma_flatten_push(none);
            assert(flat + none =~= flat);
        },
        OuterDiff::Pop { } => {
            let last = children.len() - 1;
            lemma_flat_split_at(children, last);
            lemma_pops(flat, children.last().len());
            assert(children.drop_last() =~= children.take(last));
            assert(children.skip(last + 1) =~= Seq::<Seq<T>>::empty());
            assert(flat.take(flat.len() - children.last().len()) =~= children.take(
                last,
            ).flatten());
        },
        _ => {},
    }
}

/// The single-item moves that stand for the move of an inner sequence
/// leave the number of items as it is.
proof fn lemma_moves_keep_len<T>(children: Seq<Seq<T>>, old_index: int, new_index: int)
    ensures
        len_after_all(
            children.flatten().len(),
            child_moves(children, old_index, new_index),
        ) == children.flatten().len(),
{
    let from = offset_of(children, old_index);
    let to = offset_of(moved(children, old_index, new_index), new_index);
    let count = children[old_index].len();
    let len = children.flatten().len();
    if new_index < old_index {
        lemma_repeated_move_len::<T>(len, (from + count - 1) as usize, to as usize, count);
    } else {
        lemma_repeated_move_len::<T>(len, from as usize, (to + count - 1) as usize, count);
    }
}

/// The single-item moves that stand for the move of an inner sequence
/// carry its items, in order, to where the moved inner sequence stands in
/// the flattened sequence, and never name a missing position.
pub proof fn lemma_child_moves<T>(children: Seq<Seq<T>>, old_index: int, new_index: int)
    requires
        0 <= old_index < children.len(),
        0 <= new_index < children.len(),
        children.flatten().len() <= usize::MAX,
    ensures
        valid_chain(children.flatten().len(), child_moves(children, old_index, new_index)),
        apply_all(children.flatten(), child_moves(children, old_index, new_index)) == moved(
            children,
            old_index,
            new_index,
        ).flatten(),
{
    let flat = children.flatten();
    let block = children[old_index];
    let rest = children.remove(old_index);
    let after = moved(children, old_index, new_index);
    let from = offset_of(children, old_index);
    let to = offset_of(after, new_index);
    lemma_flat_split_at(children, old_index);
    lemma_flat_remove(children, old_index);
    lemma_flat_insert(rest, new_index, block);
    lemma_flat_split(rest, new_index);
    lemma_moved_offset(children, old_index, new_index);
    assert(after.take(new_index) =~= rest.take(new_index));
    assert(flat.subrange(from as int, (from + block.len()) as int) =~= block);
    let others = without_block(flat, from, block.len());
    assert(others.take(to as int) =~= rest.take(new_index).flatten());
    assert(others.skip(to as int) =~= rest.skip(new_index).flatten());
    if new_index < old_index {
        lemma_flat_split(children.take(old_index), new_index);
        assert(children.take(old_index).take(new_index) =~= children.take(new_index));
        lemma_moves_towards_front(flat, from, to, block.len());
    } else {
        lemma_flat_split(children, new_index + 1);
        lemma_flat_split(children.take(new_index + 1), old_index + 1);
        assert(children.take(new_index + 1).take(old_index + 1) =~= children.take(old_index + 1));
        lemma_moves_towards_back(flat, from, to, block.len());
    }
}

/// Queues the removals of every item that the inner sequence at `index`
/// has contributed, last first.
pub fn fill_removals<S, T>(
    inner: &Vec<FlattenState<S, T>>,
    index: usize,
    pending: &mut PendingBuilder<VecDiff<T>>,
)
    requires
        index < inner@.len(),
        all_wf(inner@),
        contents(inner@).flatten().len() <= usize::MAX,
        old(pending).wf(),
    ensures
        final(pending).wf(),
        final(pending)@ == old(pending)@ + removals::<T>(
            offset_of(contents(inner@), index as int),
            inner@[index as int]@.len(),
        ),
{
    let removed_len = inner[index].len();
    let prev_len = prefix_len(inner, index);
    proof {
        lemma_flat_split_at(contents(inner@), index as int);
    }
    push_removals(prev_len, removed_len, pending);
}

/// Queues the single-item moves that stand for the move of the inner
/// sequence at `old_index` to `new_index`.
pub fn fill_moves<S, T>(
    inner: &Vec<FlattenState<S, T>>,
    old_index: usize,
    new_index: usize,
    pending: &mut PendingBuilder<VecDiff<T>>,
)
    requires
        old_index < inner@.len(),
        new_index < inner@.len(),
        all_wf(inner@),
        contents(inner@).flatten().len() <= usize::MAX,
        old(pending).wf(),
    ensures
        final(pending).wf(),
        final(pending)@ == old(pending)@ + child_moves(
            contents(inner@),
            old_index as int,
            new_index as int,
        ),
{
    let ghost children = contents(inner@);
    let moved_len = inner[old_index].len();
    let old_prev_len = prefix_len(inner, old_index);
    proof {
        lemma_moved_offset(children, old_index as int, new_index as int);
        lemma_flat_split_at(children, old_index as int);
        lemma_flat_split_at(children, new_index as int);
    }
    if moved_len > 0 {
        if new_index < old_index {
            let new_prev_len = prefix_len(inner, new_index);
            push_repeated_move(old_prev_len + moved_len - 1, new_prev_len, moved_len, pending);
        } else {
            proof {
                lemma_flat_split_at(children.take(new_index + 1), old_index as int);
                lemma_flat_split(children, new_index + 1);
            }
            assert(new_index < inner.len());
            let new_prev_len = prefix_len(inner, new_index + 1) - moved_len;
            push_repeated_move(old_prev_len, new_prev_len + moved_len - 1, moved_len, pending);
        }
    } else {
        assert(pending@ =~= old(pending)@ + child_moves(
            children,
            old_index as int,
            new_index as int,
        ));
    }
}

} // verus!
