//! Changes of the inner sequences taken in one inner sequence after the
//! other, and the notifications in flattened coordinates that stand for
//! them.

use crate::block::{fits_chain, lemma_fits_chain, lemma_shifted_all, shifted_all};
use crate::diff::{apply_all, lemma_apply_all_len, lemma_extend_chain, valid_chain, VecDiff};
use crate::layout::{lemma_flat_split_at, lemma_flat_update, offset_of};
use crate::state::Batch;
use vstd::prelude::*;

verus! {

/// The changes that each of some batches holds.
pub open spec fn batch_diffs<T>(polled: Seq<Batch<T>>) -> Seq<Seq<VecDiff<T>>> {
    polled.map_values(|batch: Batch<T>| batch.diffs@)
}

/// What the inner sequences have contributed when the first `upto` of them
/// have taken in their changes.
pub open spec fn absorbed<T>(
    children: Seq<Seq<T>>,
    diffs: Seq<Seq<VecDiff<T>>>,
    upto: int,
) -> Seq<Seq<T>> {
    Seq::new(
        children.len(),
        |i: int|
            if i < upto {
                apply_all(children[i], diffs[i])
            } else {
                children[i]
            },
    )
}

/// Whether there are changes for each inner sequence, and whether, when
/// its turn comes, each inner sequence can take in its changes: each
/// change is valid at its turn and the flattened sequence never grows
/// beyond what can be indexed.
pub open spec fn inner_fits<T>(children: Seq<Seq<T>>, diffs: Seq<Seq<VecDiff<T>>>) -> bool {
    &&& diffs.len() == children.len()
    &&& forall|i: int|
        0 <= i < children.len() ==> fits_chain(
            (absorbed(children, diffs, i).flatten().len() - children[i].len()) as nat,
            children[i].len(),
            #[trigger] diffs[i],
        )
}

/// The notifications that are queued when the first `upto` inner sequences
/// take in their changes, one inner sequence after the other in outer
/// order: each change is shifted to the place at which its inner
/// sequence then begins.
pub open spec fn inner_emitted<T>(
    children: Seq<Seq<T>>,
    diffs: Seq<Seq<VecDiff<T>>>,
    upto: int,
) -> Seq<VecDiff<T>>
    decreases upto,
{
    if upto <= 0 {
        Seq::empty()
    } else {
        inner_emitted(children, diffs, upto - 1) + shifted_all(
            diffs[upto - 1],
            offset_of(absorbed(children, diffs, upto - 1), upto - 1),
            children[upto - 1].len(),
        )
    }
}

/// What the notifications queued for changes of the inner sequences do:
/// applied in order to the flattened sequence from before the changes,
/// they give the flattened sequence from after them, and none of them
/// names a position that is missing at its turn.
pub proof fn lemma_inner_effect<T>(
    children: Seq<Seq<T>>,
    diffs: Seq<Seq<VecDiff<T>>>,
    upto: int,
)
    requires
        inner_fits(children, diffs),
        children.flatten().len() <= usize::MAX,
        0 <= upto <= children.len(),
    ensures
        valid_chain(children.flatten().len(), inner_emitted(children, diffs, upto)),
        apply_all(children.flatten(), inner_emitted(children, diffs, upto)) == absorbed(
            children,
            diffs,
            upto,
        ).flatten(),
        absorbed(children, diffs, upto).flatten().len() <= usize::MAX,
    decreases upto,
{
    if upto == 0 {
        assert(absorbed(children, diffs, 0) =~= children);
    } else {
        let k = upto - 1;
        let before = absorbed(children, diffs, k);
        let after = absorbed(children, diffs, upto);
        let offset = offset_of(before, k);
        let len = children[k].len();
        lemma_inner_effect(children, diffs, k);
        lemma_flat_split_at(before, k);
        assert(before[k] == children[k]);
        assert(before.flatten().subrange(offset as int, (offset + len) as int) =~= children[k]);
        lemma_shifted_all(before.flatten(), diffs[k], offset, len);
        assert(after =~= before.update(k, apply_all(children[k], diffs[k])));
        lemma_flat_update(before, k, apply_all(children[k], diffs[k]));
        lemma_extend_chain(
            children.flatten(),
            inner_emitted(children, diffs, k),
            shifted_all(diffs[k], offset, len),
            before.flatten(),
            after.flatten(),
        );
        lemma_fits_chain((before.flatten().len() - len) as nat, len, diffs[k]);
        lemma_apply_all_len(children[k], diffs[k]);
    }
}

} // verus!
