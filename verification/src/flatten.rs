//! The flattened sequence of a changing sequence of changing inner
//! sequences: the list of inner sequences in outer order, the notifications
//! that wait to be handed out, and the steps of one round of polling.

use crate::block::{fits_chain, lemma_fits_chain, lemma_fits_nearer};
use crate::diff::{
    apply_all, lemma_apply_all_len, lemma_chain_concat, lemma_chain_front, lemma_extend_chain,
    valid_chain, VecDiff,
};
use crate::inner::{absorbed, batch_diffs, inner_emitted, inner_fits, lemma_inner_effect};
use crate::layout::{
    all_wf, contents, lemma_flat_split_at, lemma_flat_update, moved, offset_of, prefix_len,
    sources,
};
use crate::outer::{
    fill_moves, fill_removals, fresh_contents, fresh_sources, lemma_outer_effect, OuterDiff,
};
use crate::pending::PendingBuilder;
use crate::polled::Polled;
use crate::state::{push_pops, Batch, FlattenState};
use std::collections::VecDeque;
use vstd::prelude::*;

verus! {

/// In a valid chain that falls into what has been handed out and what
/// waits, the first notification that waits names only positions that
/// exist in what the consumer holds.
proof fn lemma_next_is_valid<T>(handed_out: Seq<VecDiff<T>>, queue: Seq<VecDiff<T>>)
    requires
        valid_chain(0, handed_out + queue),
        queue.len() > 0,
    ensures
        queue[0].valid_on(apply_all(Seq::<T>::empty(), handed_out).len()),
{
    let none = Seq::<T>::empty();
    lemma_chain_concat(none, handed_out, queue);
    lemma_apply_all_len(none, handed_out);
    lemma_chain_front(apply_all(none, handed_out), queue);
}

/// A notification that resets the consumer can be handed out at any time,
/// and leaves the consumer with what the notification alone says.
proof fn lemma_reset_applies<T>(handed_out: Seq<VecDiff<T>>, reset: VecDiff<T>)
    requires
        valid_chain(0, handed_out),
        reset is Replace || reset is Clear,
    ensures
        valid_chain(0, handed_out.push(reset)),
        reset.valid_on(apply_all(Seq::<T>::empty(), handed_out).len()),
        apply_all(Seq::<T>::empty(), handed_out.push(reset)) == reset.apply(Seq::<T>::empty()),
{
    assert(handed_out.push(reset).drop_last() =~= handed_out);
}

/// The flattened sequence of a changing sequence of changing inner
/// sequences, kept in step with the changes one notification at a time.
pub struct Flatten<S, T> {
    inner: Vec<FlattenState<S, T>>,
    pending: VecDeque<VecDiff<T>>,
    handed_out: Ghost<Seq<VecDiff<T>>>,
}

impl<S, T> Flatten<S, T> {
    /// The inner sequences, in outer order.
    pub closed spec fn inner(&self) -> Seq<FlattenState<S, T>> {
        self.inner@
    }

    /// The notifications that wait to be handed out, oldest first.
    pub closed spec fn queued(&self) -> Seq<VecDiff<T>> {
        self.pending@
    }

    /// Every notification handed out so far, oldest first.
    pub closed spec fn handed_out(&self) -> Seq<VecDiff<T>> {
        self.handed_out@
    }

    /// What a consumer holds that began with nothing and has applied every
    /// notification handed out so far.
    pub open spec fn shown(&self) -> Seq<T> {
        apply_all(Seq::empty(), self.handed_out())
    }

    /// Every notification that has been produced and not discarded: those
    /// handed out, and behind them those that wait.
    pub open spec fn produced(&self) -> Seq<VecDiff<T>> {
        self.handed_out() + self.queued()
    }

    /// What each inner sequence has contributed, in outer order.
    pub open spec fn children(&self) -> Seq<Seq<T>> {
        contents(self.inner())
    }

    /// The concatenation of what the inner sequences have contributed.
    pub open spec fn flat(&self) -> Seq<T> {
        self.children().flatten()
    }

    /// Every count is right, and the flattened sequence can be indexed.
    pub open spec fn wf(&self) -> bool {
        &&& all_wf(self.inner())
        &&& self.flat().len() <= usize::MAX
    }

    /// A consumer that begins with nothing and applies, in order, every
    /// notification handed out, then those that wait and then `more`,
    /// arrives at the flattened sequence, and none of the notifications
    /// names a position that is missing at its turn.
    pub open spec fn in_sync(&self, more: Seq<VecDiff<T>>) -> bool {
        &&& valid_chain(0, self.produced() + more)
        &&& apply_all(Seq::empty(), self.produced() + more) == self.flat()
    }

    /// The flattened sequence of no inner sequences.
    pub fn new() -> (flatten: Self)
        ensures
            flatten.wf(),
            flatten.in_sync(Seq::empty()),
            flatten.inner().len() == 0,
            flatten.queued().len() == 0,
            flatten.handed_out().len() == 0,
    {
        let flatten = Self {
            inner: Vec::new(),
            pending: VecDeque::new(),
            handed_out: Ghost(Seq::empty()),
        };
        assert(flatten.children() =~= Seq::<Seq<T>>::empty());
        assert(flatten.produced() + Seq::<VecDiff<T>>::empty() =~= Seq::<VecDiff<T>>::empty());
        assert(flatten.flat() =~= Seq::<T>::empty());
        flatten
    }

    /// The number of inner sequences.
    pub fn len(&self) -> (n: usize)
        ensures
            n == self.inner().len(),
    {
        self.inner.len()
    }

    /// The number of items in the flattened sequence.
    pub fn flat_len(&self) -> (n: usize)
        requires
            self.wf(),
        ensures
            n == self.flat().len(),
    {
        proof {
            assert(self.children().take(self.children().len() as int) =~= self.children());
        }
        prefix_len(&self.inner, self.inner.len())
    }

    /// The number of items that the inner sequence at `index` has
    /// contributed.
    pub fn child_len(&self, index: usize) -> (n: usize)
        requires
            self.wf(),
            index < self.inner().len(),
        ensures
            n == self.children()[index as int].len(),
    {
        self.inner[index].len()
    }

    /// The source of the inner sequence at `index`, to poll it.
    pub fn signal_mut(&mut self, index: usize) -> (source: Option<&mut S>)
        requires
            index < old(self).inner().len(),
        ensures
            final(self).inner().len() == old(self).inner().len(),
            final(self).children() == old(self).children(),
            forall|i: int|
                0 <= i < old(self).inner().len() ==> (#[trigger] final(self).inner()[i]).wf()
                    == old(self).inner()[i].wf(),
            final(self).queued() == old(self).queued(),
            final(self).handed_out() == old(self).handed_out(),
            forall|i: int|
                0 <= i < old(self).inner().len() && i != index ==> final(self).inner()[i]
                    == old(self).inner()[i],
            match old(self).inner()[index as int].signal() {
                None => source is None && final(self).inner()[index as int].signal() is None,
                Some(s) => {
                    &&& source is Some
                    &&& *source->0 == s
                    &&& final(self).inner()[index as int].signal() == Some(*final(source->0))
                },
            },
    {
        let state = &mut self.inner[index];
        state.signal_mut()
    }

    /// Tells whether the inner sequences can take in, one after the other
    /// in outer order, what each gave when it was polled.
    pub fn accepts_inner(&self, polled: &Vec<Batch<T>>) -> (ok: bool)
        requires
            self.wf(),
        ensures
            ok == inner_fits(self.children(), batch_diffs(polled@)),
    {
        let ghost children = self.children();
        let ghost diffs = batch_diffs(polled@);
        if polled.len() != self.inner.len() {
            return false;
        }
        let mut total = self.flat_len();
        let mut i: usize = 0;
        proof {
            assert(absorbed(children, diffs, 0) =~= children);
        }
        while i < polled.len()
            invariant
                i <= polled@.len(),
                polled@.len() == self.inner().len(),
                children == self.children(),
                diffs == batch_diffs(polled@),
                self.wf(),
                total == absorbed(children, diffs, i as int).flatten().len(),
                forall|k: int|
                    0 <= k < i ==> fits_chain(
                        (absorbed(children, diffs, k).flatten().len() - children[k].len()) as nat,
                        children[k].len(),
                        #[trigger] diffs[k],
                    ),
            decreases polled@.len() - i,
        {
            let ghost before = absorbed(children, diffs, i as int);
            let len = self.inner[i].len();
            proof {
                lemma_flat_split_at(before, i as int);
                assert(before[i as int] == children[i as int]);
                assert(diffs[i as int] == polled@[i as int].diffs@);
            }
            match polled[i].checked_len(total - len, len) {
                Some(after) => {
                    proof {
                        let next = absorbed(children, diffs, i + 1);
                        let block = apply_all(children[i as int], diffs[i as int]);
                        assert(next =~= before.update(i as int, block));
                        lemma_flat_update(before, i as int, block);
                        lemma_fits_chain((total - len) as nat, len as nat, diffs[i as int]);
                        lemma_apply_all_len(children[i as int], diffs[i as int]);
                    }
                    total = total - len + after;
                },
                None => {
                    return false;
                },
            }
            i += 1;
        }
        true
    }

    /// Tells whether notifications wait to be handed out.
    pub fn has_pending(&self) -> (b: bool)
        ensures
            b == (self.queued().len() > 0),
    {
        self.pending.len() > 0
    }

    /// Hands out the oldest notification that waits, if there is one.
    pub fn pop_pending(&mut self) -> (next: Option<VecDiff<T>>)
        requires
            old(self).wf(),
            old(self).in_sync(Seq::empty()),
        ensures
            final(self).wf(),
            final(self).in_sync(Seq::empty()),
            final(self).inner() == old(self).inner(),
            match next {
                Some(diff) => {
                    &&& old(self).queued().len() > 0
                    &&& diff == old(self).queued()[0]
                    &&& diff.valid_on(old(self).shown().len())
                    &&& final(self).handed_out() == old(self).handed_out().push(diff)
                    &&& final(self).queued() == old(self).queued().skip(1)
                },
                None => {
                    &&& old(self).queued().len() == 0
                    &&& final(self).handed_out() == old(self).handed_out()
                    &&& final(self).queued() == old(self).queued()
                },
            },
    {
        let next = self.pending.pop_front();
        if let Some(diff) = &next {
            proof {
                lemma_next_is_valid(old(self).handed_out(), old(self).queued());
            }
            self.handed_out = Ghost(self.handed_out@.push(*diff));
            assert(self.produced() =~= old(self).produced());
        }
        next
    }

    /// Puts new inner sequences in the place of all the present ones, takes
    /// in what each of them gave when it was first polled, and returns the
    /// items they hold after that, concatenated in outer order.
    fn replace(&mut self, children: Vec<(S, Batch<T>)>) -> (values: Vec<T>)
        requires
            forall|i: int|
                0 <= i < children@.len() ==> fits_chain(0, 0, (#[trigger] children@[i]).1.diffs@),
        ensures
            all_wf(final(self).inner()),
            final(self).children() == fresh_contents(children@),
            sources(final(self).inner()) == fresh_sources(children@),
            values@ == final(self).flat(),
            final(self).queued() == old(self).queued(),
            final(self).handed_out() == old(self).handed_out(),
    {
        let ghost all = children@;
        let mut inner: Vec<FlattenState<S, T>> = Vec::new();
        let mut values: Vec<T> = Vec::new();
        assert(contents(inner@) =~= fresh_contents(all.take(0)));
        assert(sources(inner@) =~= fresh_sources(all.take(0)));
        assert(contents(inner@).flatten() =~= values@);
        for child in it: children
            invariant
                it.seq() == all,
                forall|i: int|
                    0 <= i < all.len() ==> fits_chain(0, 0, (#[trigger] all[i]).1.diffs@),
                all_wf(inner@),
                contents(inner@) == fresh_contents(all.take(it.index())),
                sources(inner@) == fresh_sources(all.take(it.index())),
                values@ == contents(inner@).flatten(),
        {
            let ghost before = inner@;
            let (signal_vec, polled) = child;
            let mut state = FlattenState::new(signal_vec);
            let mut items = state.poll_values(polled);
            values.append(&mut items);
            inner.push(state);
            proof {
                let upto = all.take(it.index() + 1);
                assert(upto.drop_last() =~= all.take(it.index()));
                assert(upto.last() == child);
                assert(contents(inner@) =~= contents(before).push(state@));
                assert(contents(inner@) =~= fresh_contents(upto));
                assert(sources(inner@) =~= sources(before).push(state.signal()));
                assert(sources(inner@) =~= fresh_sources(upto));
                contents(before).lemma_flatten_push(state@);
            }
        }
        assert(all.take(all.len() as int) =~= all);
        self.inner = inner;
        values
    }

    /// Takes in one change of the outer sequence.
    ///
    /// A replacement or a clearing is answered at once by the one
    /// notification that is returned, which resets the consumer; `pending`
    /// is then of no more use. Every other change alters the list of inner
    /// sequences and queues in `pending` the notifications that take the
    /// items of a removed, replaced or moved inner sequence out of the
    /// flattened sequence or to their new place. A new inner sequence
    /// comes in having contributed nothing.
    pub fn poll_outer(
        &mut self,
        diff: OuterDiff<S, T>,
        pending: &mut PendingBuilder<VecDiff<T>>,
    ) -> (reset: Option<VecDiff<T>>)
        requires
            old(self).wf(),
            old(pending).wf(),
            old(self).queued().len() == 0,
            old(self).in_sync(old(pending)@),
            diff.valid_on(old(self).inner().len()),
        ensures
            final(self).wf(),
            final(pending).wf(),
            final(self).children() == diff.contents_after(old(self).children()),
            sources(final(self).inner()) == diff.sources_after(sources(old(self).inner())),
            final(self).queued().len() == 0,
            match diff {
                OuterDiff::Replace { .. } => reset matches Some(VecDiff::Replace { values })
                    && values@ == final(self).flat(),
                OuterDiff::Clear { } => reset == Some(VecDiff::<T>::Clear { }),
                _ => reset is None,
            },
            match reset {
                Some(notification) => {
                    &&& notification.valid_on(old(self).shown().len())
                    &&& final(self).handed_out() == old(self).handed_out().push(notification)
                    &&& final(self).shown() == final(self).flat()
                    &&& final(self).in_sync(Seq::empty())
                    &&& final(pending)@ == old(pending)@
                },
                None => {
                    &&& final(self).handed_out() == old(self).handed_out()
                    &&& final(pending)@ == old(pending)@ + diff.emitted(old(self).children())
                    &&& final(self).in_sync(final(pending)@)
                },
            },
    {
        let ghost children = self.children();
        let ghost before = sources(self.inner());
        let ghost so_far = self.produced() + pending@;
        proof {
            lemma_chain_concat(Seq::<T>::empty(), self.handed_out(), self.queued() + pending@);
            assert(self.handed_out() + (self.queued() + pending@) =~= so_far);
            if !diff.resets() {
                lemma_outer_effect(diff, children);
                lemma_extend_chain(
                    Seq::<T>::empty(),
                    so_far,
                    diff.emitted(children),
                    self.flat(),
                    diff.contents_after(children).flatten(),
                );
            }
        }
        match diff {
            OuterDiff::Replace { children: fresh } => {
                let values = self.replace(fresh);
                assert(values.len() <= usize::MAX);
                let reset = VecDiff::Replace { values };
                proof {
                    lemma_reset_applies(old(self).handed_out(), reset);
                }
                self.handed_out = Ghost(self.handed_out@.push(reset));
                assert(self.produced() + Seq::<VecDiff<T>>::empty() =~= self.handed_out());
                return Some(reset);
            },
            OuterDiff::InsertAt { index, child } => {
                self.inner.insert(index, FlattenState::new(child));
                assert(pending@ =~= old(pending)@ + diff.emitted(children));
            },
            OuterDiff::UpdateAt { index, child } => {
                fill_removals(&self.inner, index, pending);
                self.inner.set(index, FlattenState::new(child));
            },
            OuterDiff::RemoveAt { index } => {
                fill_removals(&self.inner, index, pending);
                self.inner.remove(index);
            },
            OuterDiff::Move { old_index, new_index } => {
                if old_index != new_index {
                    fill_moves(&self.inner, old_index, new_index, pending);
                    let value = self.inner.remove(old_index);
                    self.inner.insert(new_index, value);
                } else {
                    assert(moved(self.inner(), old_index as int, new_index as int)
                        =~= self.inner());
                    assert(pending@ =~= old(pending)@ + diff.emitted(children));
                }
            },
            OuterDiff::Push { child } => {
                self.inner.push(FlattenState::new(child));
                assert(pending@ =~= old(pending)@ + diff.emitted(children));
            },
            OuterDiff::Pop { } => {
                let last = self.inner.pop().unwrap();
                push_pops(last.len(), pending);
            },
            OuterDiff::Clear { } => {
                self.inner.clear();
                let reset = VecDiff::Clear { };
                proof {
                    lemma_reset_applies(old(self).handed_out(), reset);
                }
                self.handed_out = Ghost(self.handed_out@.push(reset));
                assert(self.children() =~= Seq::<Seq<T>>::empty());
                assert(self.flat() =~= Seq::<T>::empty());
                assert(sources(self.inner()) =~= Seq::<Option<S>>::empty());
                assert(self.produced() + Seq::<VecDiff<T>>::empty() =~= self.handed_out());
                return Some(reset);
            },
        }
        proof {
            assert(self.children() =~= diff.contents_after(children));
            assert(sources(self.inner()) =~= diff.sources_after(before));
            assert(self.produced() + pending@ =~= so_far + diff.emitted(children));
            lemma_apply_all_len(Seq::<T>::empty(), self.produced() + pending@);
        }
        None
    }

    /// Takes in what the inner sequences gave when each was polled, one
    /// inner sequence after the other in outer order, queues in `pending`
    /// the notifications that stand for their changes, and tells whether
    /// every inner sequence has come to its end.
    pub fn poll_inner(
        &mut self,
        polled: Vec<Batch<T>>,
        pending: &mut PendingBuilder<VecDiff<T>>,
    ) -> (inner_done: bool)
        requires
            old(self).wf(),
            old(pending).wf(),
            old(self).in_sync(old(pending)@),
            inner_fits(old(self).children(), batch_diffs(polled@)),
        ensures
            final(self).wf(),
            final(pending).wf(),
            final(self).inner().len() == old(self).inner().len(),
            final(self).children() == absorbed(
                old(self).children(),
                batch_diffs(polled@),
                polled@.len() as int,
            ),
            forall|i: int|
                0 <= i < polled@.len() ==> (#[trigger] final(self).inner()[i]).signal()
                    == if polled@[i].exhausted {
                    None
                } else {
                    old(self).inner()[i].signal()
                },
            final(pending)@ == old(pending)@ + inner_emitted(
                old(self).children(),
                batch_diffs(polled@),
                polled@.len() as int,
            ),
            final(self).in_sync(final(pending)@),
            final(self).handed_out() == old(self).handed_out(),
            final(self).queued() == old(self).queued(),
            inner_done == forall|i: int|
                0 <= i < polled@.len() ==> (#[trigger] polled@[i]).exhausted
                    || old(self).inner()[i].signal() is None,
    {
        let ghost all = polled@;
        let ghost diffs = batch_diffs(polled@);
        let ghost children = self.children();
        let ghost start = self.inner();
        let count = self.inner.len();
        let mut inner_done = true;
        let mut prev_len: usize = 0;
        let mut index: usize = 0;
        proof {
            assert(absorbed(children, diffs, 0) =~= children);
            assert(children.take(0) =~= Seq::<Seq<T>>::empty());
            assert(pending@ =~= old(pending)@ + inner_emitted(children, diffs, 0));
        }
        for batch in it: polled
            invariant
                it.seq() == all,
                diffs == batch_diffs(all),
                index == it.index(),
                count == start.len(),
                all.len() == count,
                inner_fits(children, diffs),
                children == contents(start),
                children.flatten().len() <= usize::MAX,
                self.inner().len() == count,
                all_wf(self.inner()),
                pending.wf(),
                self.children() == absorbed(children, diffs, index as int),
                prev_len == offset_of(self.children(), index as int),
                pending@ == old(pending)@ + inner_emitted(children, diffs, index as int),
                self.handed_out() == old(self).handed_out(),
                self.queued() == old(self).queued(),
                forall|i: int|
                    0 <= i < index ==> (#[trigger] self.inner()[i]).signal()
                        == if all[i].exhausted {
                        None
                    } else {
                        start[i].signal()
                    },
                forall|i: int| index <= i < count ==> self.inner()[i] == start[i],
                inner_done == forall|i: int|
                    0 <= i < index ==> (#[trigger] all[i]).exhausted || start[i].signal() is None,
        {
            let ghost before = self.children();
            let ghost states = self.inner();
            let ghost k = index as int;
            proof {
                lemma_inner_effect(children, diffs, k);
                lemma_inner_effect(children, diffs, k + 1);
                lemma_flat_split_at(before, k);
                assert(diffs[k] == batch.diffs@);
                assert(before[k] == children[k]);
                lemma_fits_nearer(
                    (before.flatten().len() - children[k].len()) as nat,
                    prev_len as nat,
                    children[k].len(),
                    diffs[k],
                );
            }
            let state = &mut self.inner[index];
            let done = state.poll_pending(batch, prev_len, pending);
            proof {
                let after = self.children();
                assert(self.inner().len() == states.len());
                assert(forall|i: int| 0 <= i < count && i != k ==> self.inner()[i] == states[i]);
                assert(self.inner()[k]@ == apply_all(children[k], diffs[k]));
                let target = absorbed(children, diffs, k + 1);
                assert(after.len() == target.len());
                assert forall|i: int| 0 <= i < after.len() implies after[i] == target[i] by {
                    if i != k {
                        assert(after[i] == self.inner()[i]@);
                        assert(before[i] == states[i]@);
                        assert(before[i] == absorbed(children, diffs, k)[i]);
                    }
                }
                assert(after =~= target);
                assert(after =~= before.update(k, after[k]));
                lemma_flat_update(before, k, after[k]);
                lemma_flat_split_at(after, k);
            }
            inner_done = inner_done && done;
            prev_len = prev_len + self.inner[index].len();
            index = index + 1;
        }
        proof {
            lemma_inner_effect(children, diffs, count as int);
            lemma_extend_chain(
                Seq::<T>::empty(),
                self.produced() + old(pending)@,
                inner_emitted(children, diffs, count as int),
                children.flatten(),
                self.flat(),
            );
            assert(self.produced() + pending@ =~= (self.produced() + old(pending)@)
                + inner_emitted(children, diffs, count as int));
        }
        inner_done
    }

    /// Ends one round of polling: hands out the first notification that the
    /// round has produced and keeps the others for later, or, if it has
    /// produced none, tells whether the flattened sequence has come to its
    /// end, which it has when the outer sequence and every inner sequence
    /// have.
    pub fn finish(
        &mut self,
        pending: PendingBuilder<VecDiff<T>>,
        inner_done: bool,
        top_done: bool,
    ) -> (answer: Polled<Option<VecDiff<T>>>)
        requires
            old(self).wf(),
            pending.wf(),
            old(self).queued().len() == 0,
            old(self).in_sync(pending@),
        ensures
            final(self).wf(),
            final(self).in_sync(Seq::empty()),
            final(self).inner() == old(self).inner(),
            pending@.len() > 0 ==> {
                &&& answer == Polled::Ready(Some(pending@[0]))
                &&& pending@[0].valid_on(old(self).shown().len())
                &&& final(self).handed_out() == old(self).handed_out().push(pending@[0])
                &&& final(self).queued() == pending@.skip(1)
            },
            pending@.len() == 0 ==> {
                &&& answer == if inner_done && top_done {
                    Polled::Ready(None::<VecDiff<T>>)
                } else {
                    Polled::Pending
                }
                &&& final(self).handed_out() == old(self).handed_out()
                &&& final(self).queued().len() == 0
            },
    {
        proof {
            assert(self.produced() + pending@ =~= self.handed_out() + pending@);
        }
        let (first, rest) = pending.into_parts();
        match first {
            Some(diff) => {
                proof {
                    lemma_next_is_valid(self.handed_out(), pending@);
                }
                assert(pending@.skip(1) =~= rest@);
                self.handed_out = Ghost(self.handed_out@.push(diff));
                self.pending = rest;
                assert(self.produced() + Seq::<VecDiff<T>>::empty() =~= old(self).handed_out()
                    + pending@);
                Polled::Ready(Some(diff))
            },
            None => {
                assert(self.produced() + Seq::<VecDiff<T>>::empty() =~= old(self).handed_out()
                    + pending@);
                if inner_done && top_done {
                    Polled::Ready(None)
                } else {
                    Polled::Pending
                }
            },
        }
    }
}

} // verus!
