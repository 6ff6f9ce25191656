//! The bookkeeping for one inner sequence: its source and the number of
//! items it has contributed to the flattened sequence.

use crate::block::{
    fits_chain, insertions, lemma_fits_chain, lemma_fits_prefix, removals, repeated, shifted,
    shifted_all,
};
use crate::diff::{apply_all, lemma_apply_all_len, len_after_all, VecDiff};
use crate::pending::PendingBuilder;
use vstd::prelude::*;

verus! {

/// What a source gave when it was polled until nothing more was ready.
#[derive(Debug, Clone, PartialEq, Eq)]
pub struct Batch<T> {
    /// The changes that were ready, oldest first.
    pub diffs: Vec<VecDiff<T>>,
    /// Whether the source then reported that it will change no more.
    pub exhausted: bool,
}

impl<T> Batch<T> {
    /// The number of items that a block of `len` items that begins at
    /// `offset` has after the changes, if they can be made in order: each
    /// must be valid at its turn, and the end of the block must never pass
    /// the largest index.
    pub fn checked_len(&self, offset: usize, len: usize) -> (after: Option<usize>)
        ensures
            after is Some <==> fits_chain(offset as nat, len as nat, self.diffs@),
            after matches Some(n) ==> n == len_after_all(len as nat, self.diffs@),
    {
        if len > usize::MAX - offset {
            proof {
                if fits_chain(offset as nat, len as nat, self.diffs@) {
                    lemma_fits_chain(offset as nat, len as nat, self.diffs@);
                }
            }
            return None;
        }
        let mut current = len;
        let mut i: usize = 0;
        assert(self.diffs@.take(0) =~= Seq::<VecDiff<T>>::empty());
        while i < self.diffs.len()
            invariant
                i <= self.diffs@.len(),
                offset + current <= usize::MAX,
                fits_chain(offset as nat, len as nat, self.diffs@.take(i as int)),
                current == len_after_all(len as nat, self.diffs@.take(i as int)),
            decreases self.diffs@.len() - i,
        {
            let diff = &self.diffs[i];
            proof {
                let upto = self.diffs@.take(i + 1);
                assert(upto.drop_last() =~= self.diffs@.take(i as int));
                assert(upto.last() == *diff);
            }
            let next = match diff {
                VecDiff::Replace { values } => Some(values.len()),
                VecDiff::InsertAt { .. } | VecDiff::Push { .. } => {
                    if current < usize::MAX {
                        Some(current + 1)
                    } else {
                        None
                    }
                },
                VecDiff::RemoveAt { .. } | VecDiff::Pop { } => {
                    if current > 0 {
                        Some(current - 1)
                    } else {
                        None
                    }
                },
                VecDiff::Clear { } => Some(0),
                VecDiff::UpdateAt { .. } | VecDiff::Move { .. } => Some(current),
            };
            let fits = match next {
                Some(n) => diff.is_valid_on(current) && n <= usize::MAX - offset,
                None => false,
            };
            if !fits {
                proof {
                    if fits_chain(offset as nat, len as nat, self.diffs@) {
                        lemma_fits_prefix(offset as nat, len as nat, self.diffs@, i + 1);
                    }
                }
                return None;
            }
            current = next.unwrap();
            i += 1;
        }
        assert(self.diffs@.take(i as int) =~= self.diffs@);
        Some(current)
    }

    /// Tells whether the changes can be made in order to a block of `len`
    /// items that begins at `offset`.
    pub fn fits(&self, offset: usize, len: usize) -> (ok: bool)
        ensures
            ok == fits_chain(offset as nat, len as nat, self.diffs@),
    {
        self.checked_len(offset, len).is_some()
    }
}

/// One inner sequence as the flattened sequence sees it.
pub struct FlattenState<S, T> {
    signal_vec: Option<S>,
    len: usize,
    items: Ghost<Seq<T>>,
}

impl<S, T> View for FlattenState<S, T> {
    type V = Seq<T>;

    /// The items that the inner sequence has contributed so far.
    closed spec fn view(&self) -> Seq<T> {
        self.items@
    }
}

impl<S, T> FlattenState<S, T> {
    /// The tracked count is the number of contributed items.
    pub closed spec fn wf(&self) -> bool {
        self.len == self.items@.len()
    }

    /// The source, as long as it has not reported its end.
    pub closed spec fn signal(&self) -> Option<S> {
        self.signal_vec
    }

    /// The state of an inner sequence that has contributed nothing yet.
    pub fn new(signal_vec: S) -> (state: Self)
        ensures
            state.wf(),
            state@ == Seq::<T>::empty(),
            state.signal() == Some(signal_vec),
    {
        Self { signal_vec: Some(signal_vec), len: 0, items: Ghost(Seq::empty()) }
    }

    /// The number of items contributed so far.
    pub fn len(&self) -> (n: usize)
        requires
            self.wf(),
        ensures
            n == self@.len(),
    {
        self.len
    }

    /// Tells whether the source has reported its end.
    pub fn is_exhausted(&self) -> (b: bool)
        ensures
            b == (self.signal() is None),
    {
        self.signal_vec.is_none()
    }

    /// The source, to poll it.
    pub fn signal_mut(&mut self) -> (source: Option<&mut S>)
        ensures
            final(self)@ == old(self)@,
            final(self).wf() == old(self).wf(),
            match old(self).signal() {
                None => final(self).signal() is None && source is None,
                Some(s) => source is Some && *source->0 == s && final(self).signal() == Some(
                    *final(source->0),
                ),
            },
    {
        self.signal_vec.as_mut()
    }

    /// Takes one change of the inner sequence into the count.
    pub fn update_len(&mut self, diff: &VecDiff<T>)
        requires
            old(self).wf(),
            diff.valid_on(old(self)@.len()),
            diff.len_after(old(self)@.len()) <= usize::MAX,
        ensures
            final(self).wf(),
            final(self)@ == diff.apply(old(self)@),
            final(self).signal() == old(self).signal(),
    {
        match diff {
            VecDiff::Replace { values } => {
                self.len = values.len();
            },
            VecDiff::InsertAt { .. } | VecDiff::Push { .. } => {
                self.len += 1;
            },
            VecDiff::RemoveAt { .. } | VecDiff::Pop { } => {
                self.len -= 1;
            },
            VecDiff::Clear { } => {
                self.len = 0;
            },
            VecDiff::UpdateAt { .. } | VecDiff::Move { .. } => {},
        }
        self.items = Ghost(diff.apply(self.items@));
    }

    /// Takes in what a fresh inner sequence gave when it was first polled,
    /// and returns the items it holds after that.
    ///
    /// The changes are applied in order to an empty list and to the count.
    /// The source is let go if it reported its end.
    pub fn poll_values(&mut self, polled: Batch<T>) -> (values: Vec<T>)
        requires
            old(self).wf(),
            old(self)@.len() == 0,
            fits_chain(0, 0, polled.diffs@),
        ensures
            final(self).wf(),
            values@ == apply_all(Seq::<T>::empty(), polled.diffs@),
            final(self)@ == values@,
            final(self).signal() == if polled.exhausted {
                None
            } else {
                old(self).signal()
            },
    {
        let mut output: Vec<T> = Vec::new();
        let ghost diffs = polled.diffs@;
        let ghost start = self.signal();
        assert(self@ =~= output@);
        for diff in it: polled.diffs
            invariant
                it.seq() == diffs,
                self.wf(),
                self@ == output@,
                self.signal() == start,
                fits_chain(0, 0, diffs),
                output@ == apply_all(Seq::<T>::empty(), diffs.take(it.index())),
        {
            proof {
                let done = diffs.take(it.index());
                let upto = diffs.take(it.index() + 1);
                assert(upto.drop_last() =~= done);
                assert(upto.last() == diff);
                lemma_fits_prefix(0, 0, diffs, it.index() + 1);
                lemma_fits_chain(0, 0, done);
                lemma_apply_all_len(Seq::<T>::empty(), done);
            }
            self.update_len(&diff);
            diff.apply_to_vec(&mut output);
        }
        assert(diffs.take(diffs.len() as int) =~= diffs);
        if polled.exhausted {
            self.signal_vec = None;
        }
        output
    }

    /// Queues the notifications that stand for one change of this inner
    /// sequence, whose block begins at `prev_len`, and takes the change into
    /// the count.
    fn shift(
        &mut self,
        diff: VecDiff<T>,
        prev_len: usize,
        pending: &mut PendingBuilder<VecDiff<T>>,
    )
        requires
            old(self).wf(),
            old(pending).wf(),
            diff.valid_on(old(self)@.len()),
            prev_len + old(self)@.len() <= usize::MAX,
            prev_len + diff.len_after(old(self)@.len()) <= usize::MAX,
        ensures
            final(self).wf(),
            final(self)@ == diff.apply(old(self)@),
            final(self).signal() == old(self).signal(),
            final(pending).wf(),
            final(pending)@ == old(pending)@ + shifted(
                diff,
                prev_len as nat,
                old(self)@.len(),
            ),
    {
        let old_len = self.len;
        self.update_len(&diff);
        match diff {
            VecDiff::Replace { values } => {
                push_removals(prev_len, old_len, pending);
                push_insertions(prev_len, values, pending);
                assert(pending@ =~= old(pending)@ + shifted(
                    diff,
                    prev_len as nat,
                    old(self)@.len(),
                ));
            },
            VecDiff::InsertAt { index, value } => {
                pending.push(VecDiff::InsertAt { index: prev_len + index, value });
            },
            VecDiff::UpdateAt { index, value } => {
                pending.push(VecDiff::UpdateAt { index: prev_len + index, value });
            },
            VecDiff::RemoveAt { index } => {
                pending.push(VecDiff::RemoveAt { index: prev_len + index });
            },
            VecDiff::Move { old_index, new_index } => {
                pending.push(
                    VecDiff::Move {
                        old_index: prev_len + old_index,
                        new_index: prev_len + new_index,
                    },
                );
            },
            VecDiff::Push { value } => {
                pending.push(VecDiff::InsertAt { index: prev_len + old_len, value });
            },
            VecDiff::Pop { } => {
                pending.push(VecDiff::RemoveAt { index: prev_len + (old_len - 1) });
            },
            VecDiff::Clear { } => {
                push_removals(prev_len, old_len, pending);
            },
        }
    }

    /// Takes in what the inner sequence gave when it was polled, queues the
    /// notifications that stand for its changes, and tells whether the
    /// inner sequence has come to its end.
    ///
    /// `prev_len` is the number of flattened items before this inner
    /// sequence. The source is let go if it reported its end.
    pub fn poll_pending(
        &mut self,
        polled: Batch<T>,
        prev_len: usize,
        pending: &mut PendingBuilder<VecDiff<T>>,
    ) -> (done: bool)
        requires
            old(self).wf(),
            old(pending).wf(),
            fits_chain(prev_len as nat, old(self)@.len(), polled.diffs@),
        ensures
            final(self).wf(),
            final(self)@ == apply_all(old(self)@, polled.diffs@),
            final(pending).wf(),
            final(pending)@ == old(pending)@ + shifted_all(
                polled.diffs@,
                prev_len as nat,
                old(self)@.len(),
            ),
            done == (polled.exhausted || old(self).signal() is None),
            final(self).signal() == if polled.exhausted {
                None
            } else {
                old(self).signal()
            },
    {
        let ghost diffs = polled.diffs@;
        let ghost start = self.signal();
        let ghost offset = prev_len as nat;
        let ghost len = self@.len();
        assert(pending@ =~= old(pending)@ + shifted_all(diffs.take(0), offset, len));
        for diff in it: polled.diffs
            invariant
                it.seq() == diffs,
                self.wf(),
                pending.wf(),
                self.signal() == start,
                offset == prev_len,
                fits_chain(offset, len, diffs),
                self@ == apply_all(old(self)@, diffs.take(it.index())),
                len == old(self)@.len(),
                pending@ == old(pending)@ + shifted_all(diffs.take(it.index()), offset, len),
        {
            proof {
                let done = diffs.take(it.index());
                let upto = diffs.take(it.index() + 1);
                assert(upto.drop_last() =~= done);
                assert(upto.last() == diff);
                lemma_fits_prefix(offset, len, diffs, it.index() + 1);
                lemma_fits_chain(offset, len, done);
                lemma_apply_all_len(old(self)@, done);
            }
            self.shift(diff, prev_len, pending);
            assert(pending@ =~= old(pending)@ + shifted_all(
                diffs.take(it.index() + 1),
                offset,
                len,
            ));
        }
        assert(diffs.take(diffs.len() as int) =~= diffs);
        let gone = self.signal_vec.is_none();
        if polled.exhausted {
            self.signal_vec = None;
        }
        polled.exhausted || gone
    }
}

/// Queues the removals of the `count` items from `offset` on, last first.
pub(crate) fn push_removals<T>(
    offset: usize,
    count: usize,
    pending: &mut PendingBuilder<VecDiff<T>>,
)
    requires
        old(pending).wf(),
        offset + count <= usize::MAX,
    ensures
        final(pending).wf(),
        final(pending)@ == old(pending)@ + removals::<T>(offset as nat, count as nat),
{
    let mut index = count;
    while index > 0
        invariant
            index <= count,
            offset + count <= usize::MAX,
            pending.wf(),
            pending@ == old(pending)@ + removals::<T>(offset as nat, count as nat).take(
                count - index,
            ),
        decreases index,
    {
        index -= 1;
        pending.push(VecDiff::RemoveAt { index: offset + index });
        assert(pending@ =~= old(pending)@ + removals::<T>(offset as nat, count as nat).take(
            count - index,
        ));
    }
    assert(removals::<T>(offset as nat, count as nat).take(count as int) =~= removals::<T>(
        offset as nat,
        count as nat,
    ));
}

/// Queues the insertions of `values` at `offset`, first first.
pub(crate) fn push_insertions<T>(
    offset: usize,
    values: Vec<T>,
    pending: &mut PendingBuilder<VecDiff<T>>,
)
    requires
        old(pending).wf(),
        offset + values@.len() <= usize::MAX,
    ensures
        final(pending).wf(),
        final(pending)@ == old(pending)@ + insertions(offset as nat, values@),
{
    let ghost all = values@;
    let mut index: usize = 0;
    for value in it: values
        invariant
            it.seq() == all,
            index == it.index(),
            offset + all.len() <= usize::MAX,
            pending.wf(),
            pending@ == old(pending)@ + insertions(offset as nat, all).take(it.index()),
    {
        pending.push(VecDiff::InsertAt { index: offset + index, value });
        index += 1;
        assert(pending@ =~= old(pending)@ + insertions(offset as nat, all).take(index as int));
    }
    assert(insertions(offset as nat, all).take(all.len() as int) =~= insertions(
        offset as nat,
        all,
    ));
}

/// Queues `count` times the move of one item from `old_index` to
/// `new_index`.
pub(crate) fn push_repeated_move<T>(
    old_index: usize,
    new_index: usize,
    count: usize,
    pending: &mut PendingBuilder<VecDiff<T>>,
)
    requires
        old(pending).wf(),
    ensures
        final(pending).wf(),
        final(pending)@ == old(pending)@ + repeated(
            VecDiff::<T>::Move { old_index, new_index },
            count as nat,
        ),
{
    let ghost all = repeated(VecDiff::<T>::Move { old_index, new_index }, count as nat);
    let mut done: usize = 0;
    while done < count
        invariant
            done <= count,
            all == repeated(VecDiff::<T>::Move { old_index, new_index }, count as nat),
            pending.wf(),
            pending@ == old(pending)@ + all.take(done as int),
        decreases count - done,
    {
        pending.push(VecDiff::Move { old_index, new_index });
        done += 1;
        assert(pending@ =~= old(pending)@ + all.take(done as int));
    }
    assert(all.take(count as int) =~= all);
}

/// Queues `count` times the removal of the last item.
pub(crate) fn push_pops<T>(count: usize, pending: &mut PendingBuilder<VecDiff<T>>)
    requires
        old(pending).wf(),
    ensures
        final(pending).wf(),
        final(pending)@ == old(pending)@ + repeated(VecDiff::<T>::Pop { }, count as nat),
{
    let ghost all = repeated(VecDiff::<T>::Pop { }, count as nat);
    let mut done: usize = 0;
    while done < count
        invariant
            done <= count,
            all == repeated(VecDiff::<T>::Pop { }, count as nat),
            pending.wf(),
            pending@ == old(pending)@ + all.take(done as int),
        decreases count - done,
    {
        pending.push(VecDiff::Pop { });
        done += 1;
        assert(pending@ =~= old(pending)@ + all.take(done as int));
    }
    assert(all.take(count as int) =~= all);
}

} // verus!
