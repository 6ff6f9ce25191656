//! Runs of single-item notifications that act on one contiguous block of a
//! sequence, and what applying them does.

use crate::diff::{
    apply_all, lemma_apply_all_len, lemma_chain_concat, lemma_chain_single, len_after_all,
    valid_chain, VecDiff,
};
use vstd::prelude::*;

verus! {

/// `count` times the same change.
pub open spec fn repeated<T>(d: VecDiff<T>, count: nat) -> Seq<VecDiff<T>> {
    Seq::new(count, |k: int| d)
}

/// The removals that take away the `count` items from `offset` on, the last
/// of them first.
pub open spec fn removals<T>(offset: nat, count: nat) -> Seq<VecDiff<T>> {
    Seq::new(count, |k: int| VecDiff::RemoveAt { index: (offset + count - 1 - k) as usize })
}

/// The insertions that put `values` in at `offset`, the first of them first.
pub open spec fn insertions<T>(offset: nat, values: Seq<T>) -> Seq<VecDiff<T>> {
    Seq::new(
        values.len(),
        |k: int| VecDiff::InsertAt { index: (offset + k) as usize, value: values[k] },
    )
}

/// The single-item moves that carry a block of `count` items towards the
/// front: each takes the block's last item to the block's new first place.
/// `from` and `to` are the positions of the block's first item among the
/// other items, before and after.
pub open spec fn moves_towards_front<T>(from: nat, to: nat, count: nat) -> Seq<VecDiff<T>> {
    repeated(
        VecDiff::Move { old_index: (from + count - 1) as usize, new_index: to as usize },
        count,
    )
}

/// The single-item moves that carry a block of `count` items towards the
/// back: each takes the block's first item to the block's new last place.
/// `from` and `to` are the positions of the block's first item among the
/// other items, before and after.
pub open spec fn moves_towards_back<T>(from: nat, to: nat, count: nat) -> Seq<VecDiff<T>> {
    repeated(
        VecDiff::Move { old_index: from as usize, new_index: (to + count - 1) as usize },
        count,
    )
}

/// Removing a block item by item, last first, leaves what stood before it
/// and what stood behind it, and never names a missing position.
pub proof fn lemma_removals<T>(s: Seq<T>, offset: nat, count: nat)
    requires
        offset + count <= s.len() <= usize::MAX,
    ensures
        valid_chain(s.len(), removals::<T>(offset, count)),
        apply_all(s, removals::<T>(offset, count)) == s.take(offset as int) + s.skip(
            (offset + count) as int,
        ),
    decreases count,
{
    let r = removals::<T>(offset, count);
    if count == 0 {
        assert(s.take(offset as int) + s.skip(offset as int) =~= s);
    } else {
        let before = removals::<T>(offset + 1, (count - 1) as nat);
        assert(r.drop_last() =~= before);
        lemma_removals(s, offset + 1, (count - 1) as nat);
        let mid = apply_all(s, before);
        lemma_apply_all_len(s, before);
        assert(r.last() == VecDiff::<T>::RemoveAt { index: offset as usize });
        assert(mid.remove(offset as int) =~= s.take(offset as int) + s.skip(
            (offset + count) as int,
        ));
    }
}

/// Inserting values one by one at rising positions puts them, in order,
/// between what stood before the position and what stood from it on.
pub proof fn lemma_insertions<T>(s: Seq<T>, offset: nat, values: Seq<T>)
    requires
        offset <= s.len(),
        s.len() + values.len() <= usize::MAX,
    ensures
        valid_chain(s.len(), insertions(offset, values)),
        apply_all(s, insertions(offset, values)) == s.take(offset as int) + values + s.skip(
            offset as int,
        ),
    decreases values.len(),
{
    let ins = insertions(offset, values);
    if values.len() == 0 {
        assert(s.take(offset as int) + values + s.skip(offset as int) =~= s);
    } else {
        let before = insertions(offset, values.drop_last());
        assert(ins.drop_last() =~= before);
        lemma_insertions(s, offset, values.drop_last());
        let mid = apply_all(s, before);
        lemma_apply_all_len(s, before);
        let k = values.len() - 1;
        assert(ins.last() == VecDiff::InsertAt { index: (offset + k) as usize, value: values[k] });
        assert(mid.insert(offset + k, values[k]) =~= s.take(offset as int) + values + s.skip(
            offset as int,
        ));
    }
}

/// Popping `count` times leaves all but the last `count` items.
pub proof fn lemma_pops<T>(s: Seq<T>, count: nat)
    requires
        count <= s.len(),
    ensures
        valid_chain(s.len(), repeated(VecDiff::<T>::Pop { }, count)),
        apply_all(s, repeated(VecDiff::<T>::Pop { }, count)) == s.take(s.len() - count),
    decreases count,
{
    let p = repeated(VecDiff::<T>::Pop { }, count);
    if count == 0 {
        assert(s.take(s.len() as int) =~= s);
    } else {
        let before = repeated(VecDiff::<T>::Pop { }, (count - 1) as nat);
        assert(p.drop_last() =~= before);
        lemma_pops(s, (count - 1) as nat);
        lemma_apply_all_len(s, before);
        assert(apply_all(s, before).drop_last() =~= s.take(s.len() - count));
    }
}

/// Moves leave the number of items as it is.
pub proof fn lemma_repeated_move_len<T>(len: nat, old_index: usize, new_index: usize, count: nat)
    ensures
        len_after_all(len, repeated(VecDiff::<T>::Move { old_index, new_index }, count)) == len,
    decreases count,
{
    let d = VecDiff::<T>::Move { old_index, new_index };
    if count > 0 {
        assert(repeated(d, count).drop_last() =~= repeated(d, (count - 1) as nat));
        lemma_repeated_move_len::<T>(len, old_index, new_index, (count - 1) as nat);
    }
}

/// What is left of `s` without the `count` items from `from` on.
pub open spec fn without_block<T>(s: Seq<T>, from: nat, count: nat) -> Seq<T> {
    s.take(from as int) + s.skip((from + count) as int)
}

/// `s` with the block of `count` items at `from` taken out and put back in
/// so that `to` of the other items stand before it.
pub open spec fn with_block_at<T>(s: Seq<T>, from: nat, to: nat, count: nat) -> Seq<T> {
    let block = s.subrange(from as int, (from + count) as int);
    let others = without_block(s, from, count);
    others.take(to as int) + block + others.skip(to as int)
}

/// The state after the first `k` single-item moves of a block that travels
/// towards the front: the last `k` items of the block have arrived.
proof fn lemma_front_steps<T>(s: Seq<T>, from: nat, to: nat, count: nat, k: nat)
    requires
        to <= from,
        from + count <= s.len() <= usize::MAX,
        k <= count,
    ensures
        valid_chain(
            s.len(),
            repeated(
                VecDiff::<T>::Move {
                    old_index: (from + count - 1) as usize,
                    new_index: to as usize,
                },
                k,
            ),
        ),
        apply_all(
            s,
            repeated(
                VecDiff::<T>::Move {
                    old_index: (from + count - 1) as usize,
                    new_index: to as usize,
                },
                k,
            ),
        ) == {
            let block = s.subrange(from as int, (from + count) as int);
            let others = without_block(s, from, count);
            others.take(to as int) + block.skip(count - k) + others.subrange(to as int, from as int)
                + block.take(count - k) + others.skip(from as int)
        },
    decreases k,
{
    let d = VecDiff::<T>::Move { old_index: (from + count - 1) as usize, new_index: to as usize };
    let block = s.subrange(from as int, (from + count) as int);
    let others = without_block(s, from, count);
    if k == 0 {
        assert(others.take(to as int) + block.skip(count as int) + others.subrange(
            to as int,
            from as int,
        ) + block.take(count as int) + others.skip(from as int) =~= s);
    } else {
        let before = repeated(d, (k - 1) as nat);
        assert(repeated(d, k).drop_last() =~= before);
        lemma_front_steps(s, from, to, count, (k - 1) as nat);
        lemma_apply_all_len(s, before);
        let mid = apply_all(s, before);
        let a = from + count - 1;
        assert(mid.len() == s.len());
        assert(mid.remove(a).insert(to as int, mid[a]) =~= others.take(to as int) + block.skip(
            count - k,
        ) + others.subrange(to as int, from as int) + block.take(count - k) + others.skip(
            from as int,
        ));
    }
}

/// The state after the first `k` single-item moves of a block that travels
/// towards the back: the first `k` items of the block have arrived.
proof fn lemma_back_steps<T>(s: Seq<T>, from: nat, to: nat, count: nat, k: nat)
    requires
        from <= to,
        to + count <= s.len() <= usize::MAX,
        k <= count,
    ensures
        valid_chain(
            s.len(),
            repeated(
                VecDiff::<T>::Move {
                    old_index: from as usize,
                    new_index: (to + count - 1) as usize,
                },
                k,
            ),
        ),
        apply_all(
            s,
            repeated(
                VecDiff::<T>::Move {
                    old_index: from as usize,
                    new_index: (to + count - 1) as usize,
                },
                k,
            ),
        ) == {
            let block = s.subrange(from as int, (from + count) as int);
            let others = without_block(s, from, count);
            others.take(from as int) + block.skip(k as int) + others.subrange(
                from as int,
                to as int,
            ) + block.take(k as int) + others.skip(to as int)
        },
    decreases k,
{
    let d = VecDiff::<T>::Move { old_index: from as usize, new_index: (to + count - 1) as usize };
    let block = s.subrange(from as int, (from + count) as int);
    let others = without_block(s, from, count);
    if k == 0 {
        assert(others.take(from as int) + block.skip(0) + others.subrange(from as int, to as int)
            + block.take(0) + others.skip(to as int) =~= s);
    } else {
        let before = repeated(d, (k - 1) as nat);
        assert(repeated(d, k).drop_last() =~= before);
        lemma_back_steps(s, from, to, count, (k - 1) as nat);
        lemma_apply_all_len(s, before);
        let mid = apply_all(s, before);
        let b = to + count - 1;
        assert(mid.len() == s.len());
        assert(mid.remove(from as int).insert(b, mid[from as int]) =~= others.take(from as int)
            + block.skip(k as int) + others.subrange(from as int, to as int) + block.take(
            k as int,
        ) + others.skip(to as int));
    }
}

/// Moving a block towards the front item by item carries it, in order, to
/// its new place among the other items, and never names a missing position.
pub proof fn lemma_moves_towards_front<T>(s: Seq<T>, from: nat, to: nat, count: nat)
    requires
        to <= from,
        from + count <= s.len() <= usize::MAX,
    ensures
        valid_chain(s.len(), moves_towards_front::<T>(from, to, count)),
        apply_all(s, moves_towards_front::<T>(from, to, count)) == with_block_at(
            s,
            from,
            to,
            count,
        ),
{
    let block = s.subrange(from as int, (from + count) as int);
    let others = without_block(s, from, count);
    lemma_front_steps(s, from, to, count, count);
    assert(others.take(to as int) + block.skip(0) + others.subrange(to as int, from as int)
        + block.take(0) + others.skip(from as int) =~= with_block_at(s, from, to, count));
}

/// Moving a block towards the back item by item carries it, in order, to
/// its new place among the other items, and never names a missing position.
pub proof fn lemma_moves_towards_back<T>(s: Seq<T>, from: nat, to: nat, count: nat)
    requires
        from <= to,
        to + count <= s.len() <= usize::MAX,
    ensures
        valid_chain(s.len(), moves_towards_back::<T>(from, to, count)),
        apply_all(s, moves_towards_back::<T>(from, to, count)) == with_block_at(
            s,
            from,
            to,
            count,
        ),
{
    let block = s.subrange(from as int, (from + count) as int);
    let others = without_block(s, from, count);
    lemma_back_steps(s, from, to, count, count);
    assert(others.take(from as int) + block.skip(count as int) + others.subrange(
        from as int,
        to as int,
    ) + block.take(count as int) + others.skip(to as int) =~= with_block_at(
        s,
        from,
        to,
        count,
    ));
}

/// The notifications, in the coordinates of a whole sequence, that stand
/// for the change `d` of a block of `len` items that begins at `offset`.
pub open spec fn shifted<T>(d: VecDiff<T>, offset: nat, len: nat) -> Seq<VecDiff<T>> {
    match d {
        VecDiff::Replace { values } => removals(offset, len) + insertions(offset, values@),
        VecDiff::InsertAt { index, value } => seq![
            VecDiff::InsertAt { index: (offset + index) as usize, value },
        ],
        VecDiff::UpdateAt { index, value } => seq![
            VecDiff::UpdateAt { index: (offset + index) as usize, value },
        ],
        VecDiff::RemoveAt { index } => seq![
            VecDiff::RemoveAt { index: (offset + index) as usize },
        ],
        VecDiff::Move { old_index, new_index } => seq![
            VecDiff::Move {
                old_index: (offset + old_index) as usize,
                new_index: (offset + new_index) as usize,
            },
        ],
        VecDiff::Push { value } => seq![
            VecDiff::InsertAt { index: (offset + len) as usize, value },
        ],
        VecDiff::Pop { } => seq![VecDiff::RemoveAt { index: (offset + len - 1) as usize }],
        VecDiff::Clear { } => removals(offset, len),
    }
}

/// The notifications that stand for the changes `diffs`, made in order to a
/// block that begins at `offset` and has `len` items before the first.
pub open spec fn shifted_all<T>(diffs: Seq<VecDiff<T>>, offset: nat, len: nat) -> Seq<
    VecDiff<T>,
>
    decreases diffs.len(),
{
    if diffs.len() == 0 {
        Seq::empty()
    } else {
        shifted_all(diffs.drop_last(), offset, len) + shifted(
            diffs.last(),
            offset,
            len_after_all(len, diffs.drop_last()),
        )
    }
}

/// `s` with the block of `len` items at `offset` exchanged for `block`.
pub open spec fn with_block<T>(s: Seq<T>, offset: nat, len: nat, block: Seq<T>) -> Seq<T> {
    s.take(offset as int) + block + s.skip((offset + len) as int)
}

/// The notifications that stand for a valid change of a block change that
/// block as the change says, leave the rest alone, and never name a
/// missing position.
pub proof fn lemma_shifted<T>(s: Seq<T>, d: VecDiff<T>, offset: nat, len: nat)
    requires
        offset + len <= s.len() <= usize::MAX,
        d.valid_on(len),
        s.len() - len + d.len_after(len) <= usize::MAX,
    ensures
        valid_chain(s.len(), shifted(d, offset, len)),
        apply_all(s, shifted(d, offset, len)) == with_block(
            s,
            offset,
            len,
            d.apply(s.subrange(offset as int, (offset + len) as int)),
        ),
{
    let block = s.subrange(offset as int, (offset + len) as int);
    let goal = with_block(s, offset, len, d.apply(block));
    match d {
        VecDiff::Replace { values } => {
            let gone = s.take(offset as int) + s.skip((offset + len) as int);
            lemma_removals(s, offset, len);
            lemma_apply_all_len(s, removals::<T>(offset, len));
            lemma_insertions(gone, offset, values@);
            lemma_chain_concat(s, removals::<T>(offset, len), insertions(offset, values@));
            assert(gone.take(offset as int) + values@ + gone.skip(offset as int) =~= goal);
        },
        VecDiff::InsertAt { index, value } => {
            let t = VecDiff::InsertAt { index: (offset + index) as usize, value };
            lemma_chain_single(s, t);
            assert(t.apply(s) =~= goal);
        },
        VecDiff::UpdateAt { index, value } => {
            let t = VecDiff::UpdateAt { index: (offset + index) as usize, value };
            lemma_chain_single(s, t);
            assert(t.apply(s) =~= goal);
        },
        VecDiff::RemoveAt { index } => {
            let t = VecDiff::<T>::RemoveAt { index: (offset + index) as usize };
            lemma_chain_single(s, t);
            assert(t.apply(s) =~= goal);
        },
        VecDiff::Move { old_index, new_index } => {
            let t = VecDiff::<T>::Move {
                old_index: (offset + old_index) as usize,
                new_index: (offset + new_index) as usize,
            };
            lemma_chain_single(s, t);
            assert(t.apply(s) =~= goal);
        },
        VecDiff::Push { value } => {
            let t = VecDiff::InsertAt { index: (offset + len) as usize, value };
            lemma_chain_single(s, t);
            assert(t.apply(s) =~= goal);
        },
        VecDiff::Pop { } => {
            let t = VecDiff::<T>::RemoveAt { index: (offset + len - 1) as usize };
            lemma_chain_single(s, t);
            assert(t.apply(s) =~= goal);
        },
        VecDiff::Clear { } => {
            lemma_removals(s, offset, len);
            assert(s.take(offset as int) + s.skip((offset + len) as int) =~= goal);
        },
    }
}

/// Whether the changes `diffs`, made in order to a block of `len` items
/// that begins at `offset`, are each valid at their turn and never let the
/// end of the block pass the largest index.
pub open spec fn fits_chain<T>(offset: nat, len: nat, diffs: Seq<VecDiff<T>>) -> bool
    decreases diffs.len(),
{
    if diffs.len() == 0 {
        offset + len <= usize::MAX
    } else {
        &&& fits_chain(offset, len, diffs.drop_last())
        &&& diffs.last().valid_on(len_after_all(len, diffs.drop_last()))
        &&& offset + len_after_all(len, diffs) <= usize::MAX
    }
}

/// A chain that fits is a valid chain, and the block ends within bounds.
pub proof fn lemma_fits_chain<T>(offset: nat, len: nat, diffs: Seq<VecDiff<T>>)
    requires
        fits_chain(offset, len, diffs),
    ensures
        valid_chain(len, diffs),
        offset + len_after_all(len, diffs) <= usize::MAX,
        offset + len <= usize::MAX,
    decreases diffs.len(),
{
    if diffs.len() > 0 {
        lemma_fits_chain(offset, len, diffs.drop_last());
    }
}

/// A chain that fits beside a block fits beside the same block nearer to
/// the front.
pub proof fn lemma_fits_nearer<T>(offset: nat, nearer: nat, len: nat, diffs: Seq<VecDiff<T>>)
    requires
        fits_chain(offset, len, diffs),
        nearer <= offset,
    ensures
        fits_chain(nearer, len, diffs),
    decreases diffs.len(),
{
    if diffs.len() > 0 {
        lemma_fits_nearer(offset, nearer, len, diffs.drop_last());
    }
}

/// Every prefix of a chain that fits is a chain that fits.
pub proof fn lemma_fits_prefix<T>(offset: nat, len: nat, diffs: Seq<VecDiff<T>>, upto: int)
    requires
        fits_chain(offset, len, diffs),
        0 <= upto <= diffs.len(),
    ensures
        fits_chain(offset, len, diffs.take(upto)),
    decreases diffs.len(),
{
    if upto == diffs.len() {
        assert(diffs.take(upto) =~= diffs);
    } else {
        lemma_fits_prefix(offset, len, diffs.drop_last(), upto);
        assert(diffs.drop_last().take(upto) =~= diffs.take(upto));
    }
}

/// The notifications that stand for a chain of changes of one block
/// change that block as the chain says, leave the rest alone, and never
/// name a missing position.
pub proof fn lemma_shifted_all<T>(s: Seq<T>, diffs: Seq<VecDiff<T>>, offset: nat, len: nat)
    requires
        offset + len <= s.len() <= usize::MAX,
        fits_chain((s.len() - len) as nat, len, diffs),
    ensures
        valid_chain(s.len(), shifted_all(diffs, offset, len)),
        apply_all(s, shifted_all(diffs, offset, len)) == with_block(
            s,
            offset,
            len,
            apply_all(s.subrange(offset as int, (offset + len) as int), diffs),
        ),
    decreases diffs.len(),
{
    let block = s.subrange(offset as int, (offset + len) as int);
    if diffs.len() == 0 {
        assert(with_block(s, offset, len, block) =~= s);
    } else {
        let init = diffs.drop_last();
        let last = diffs.last();
        let others = (s.len() - len) as nat;
        lemma_shifted_all(s, init, offset, len);
        lemma_fits_chain(others, len, init);
        lemma_apply_all_len(block, init);
        let mid_block = apply_all(block, init);
        let mid = with_block(s, offset, len, mid_block);
        let mid_len = len_after_all(len, init);
        assert(block.len() == len);
        assert(mid_block.len() == mid_len);
        assert(mid.len() == others + mid_len);
        lemma_apply_all_len(s, shifted_all(init, offset, len));
        assert(mid.subrange(offset as int, (offset + mid_len) as int) =~= mid_block);
        lemma_shifted(mid, last, offset, mid_len);
        lemma_chain_concat(s, shifted_all(init, offset, len), shifted(last, offset, mid_len));
        assert(with_block(mid, offset, mid_len, last.apply(mid_block)) =~= with_block(
            s,
            offset,
            len,
            apply_all(block, diffs),
        ));
    }
}

} // verus!
