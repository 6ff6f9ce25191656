//! Change notifications of a sequence, and what they mean.

use futures_signals::signal_vec::VecDiff as SignalDiff;
use vstd::prelude::*;

verus! {

/// One structural change of a sequence, in the coordinates of that sequence.
#[derive(Debug, Clone, PartialEq, Eq)]
pub enum VecDiff<T> {
    Replace { values: Vec<T> },
    InsertAt { index: usize, value: T },
    UpdateAt { index: usize, value: T },
    RemoveAt { index: usize },
    Move { old_index: usize, new_index: usize },
    Push { value: T },
    Pop {},
    Clear {},
}

impl<T> VecDiff<T> {
    /// Whether the change refers only to positions that exist in a sequence
    /// of `len` items.
    pub open spec fn valid_on(self, len: nat) -> bool {
        match self {
            VecDiff::Replace { .. } => true,
            VecDiff::InsertAt { index, .. } => index <= len,
            VecDiff::UpdateAt { index, .. } => index < len,
            VecDiff::RemoveAt { index } => index < len,
            VecDiff::Move { old_index, new_index } => old_index < len && new_index < len,
            VecDiff::Push { .. } => true,
            VecDiff::Pop { } => len > 0,
            VecDiff::Clear { } => true,
        }
    }

    /// The sequence that results from applying the change to `s`.
    pub open spec fn apply(self, s: Seq<T>) -> Seq<T> {
        match self {
            VecDiff::Replace { values } => values@,
            VecDiff::InsertAt { index, value } => s.insert(index as int, value),
            VecDiff::UpdateAt { index, value } => s.update(index as int, value),
            VecDiff::RemoveAt { index } => s.remove(index as int),
            VecDiff::Move { old_index, new_index } => s.remove(old_index as int).insert(
                new_index as int,
                s[old_index as int],
            ),
            VecDiff::Push { value } => s.push(value),
            VecDiff::Pop { } => s.drop_last(),
            VecDiff::Clear { } => Seq::empty(),
        }
    }

    /// The number of items after the change, given the number before it.
    pub open spec fn len_after(self, len: nat) -> nat {
        match self {
            VecDiff::Replace { values } => values@.len(),
            VecDiff::InsertAt { .. } => len + 1,
            VecDiff::UpdateAt { .. } => len,
            VecDiff::RemoveAt { .. } => (len - 1) as nat,
            VecDiff::Move { .. } => len,
            VecDiff::Push { .. } => len + 1,
            VecDiff::Pop { } => (len - 1) as nat,
            VecDiff::Clear { } => 0,
        }
    }

    /// Applies the change to `vec`.
    ///
    /// The work is done by `futures_signals::signal_vec::VecDiff::apply_to_vec`,
    /// which is not verified here. The contract claims of it what its source
    /// shows: a replacement assigns the new values, an insertion, update or
    /// removal acts at the given index, a move removes at the old index and
    /// inserts at the new one, a push appends, a pop drops the last item and
    /// a clear leaves nothing. It panics on a position that does not exist,
    /// so such a change is left out.
    #[verifier::external_body]
    pub(crate) fn apply_to_vec(self, vec: &mut Vec<T>)
        requires
            self.valid_on(old(vec)@.len()),
        ensures
            final(vec)@ == self.apply(old(vec)@),
    {
        let diff = match self {
            VecDiff::Replace { values } => SignalDiff::Replace { values },
            VecDiff::InsertAt { index, value } => SignalDiff::InsertAt { index, value },
            VecDiff::UpdateAt { index, value } => SignalDiff::UpdateAt { index, value },
            VecDiff::RemoveAt { index } => SignalDiff::RemoveAt { index },
            VecDiff::Move { old_index, new_index } => SignalDiff::Move { old_index, new_index },
            VecDiff::Push { value } => SignalDiff::Push { value },
            VecDiff::Pop { } => SignalDiff::Pop { },
            VecDiff::Clear { } => SignalDiff::Clear { },
        };
        diff.apply_to_vec(vec)
    }

    /// Tells whether the change can be applied to a sequence of `len` items.
    pub fn is_valid_on(&self, len: usize) -> (ok: bool)
        ensures
            ok == self.valid_on(len as nat),
    {
        match self {
            VecDiff::Replace { .. } => true,
            VecDiff::InsertAt { index, .. } => *index <= len,
            VecDiff::UpdateAt { index, .. } => *index < len,
            VecDiff::RemoveAt { index } => *index < len,
            VecDiff::Move { old_index, new_index } => *old_index < len && *new_index < len,
            VecDiff::Push { .. } => true,
            VecDiff::Pop { } => len > 0,
            VecDiff::Clear { } => true,
        }
    }
}

/// The result of applying `diffs` in order, starting from `s`.
pub open spec fn apply_all<T>(s: Seq<T>, diffs: Seq<VecDiff<T>>) -> Seq<T>
    decreases diffs.len(),
{
    if diffs.len() == 0 {
        s
    } else {
        diffs.last().apply(apply_all(s, diffs.drop_last()))
    }
}

/// The number of items after applying `diffs` in order to `len` items.
pub open spec fn len_after_all<T>(len: nat, diffs: Seq<VecDiff<T>>) -> nat
    decreases diffs.len(),
{
    if diffs.len() == 0 {
        len
    } else {
        diffs.last().len_after(len_after_all(len, diffs.drop_last()))
    }
}

/// Whether each of `diffs`, applied in order to a sequence that starts with
/// `len` items, refers only to positions that exist at its turn.
pub open spec fn valid_chain<T>(len: nat, diffs: Seq<VecDiff<T>>) -> bool
    decreases diffs.len(),
{
    diffs.len() == 0 || (valid_chain(len, diffs.drop_last()) && diffs.last().valid_on(
        len_after_all(len, diffs.drop_last()),
    ))
}

/// A valid change leaves as many items as `len_after` says.
pub proof fn lemma_apply_len<T>(d: VecDiff<T>, s: Seq<T>)
    requires
        d.valid_on(s.len()),
    ensures
        d.apply(s).len() == d.len_after(s.len()),
{
}

/// A valid chain leaves as many items as `len_after_all` says.
pub proof fn lemma_apply_all_len<T>(s: Seq<T>, diffs: Seq<VecDiff<T>>)
    requires
        valid_chain(s.len(), diffs),
    ensures
        apply_all(s, diffs).len() == len_after_all(s.len(), diffs),
    decreases diffs.len(),
{
    if diffs.len() > 0 {
        lemma_apply_all_len(s, diffs.drop_last());
        lemma_apply_len(diffs.last(), apply_all(s, diffs.drop_last()));
    }
}

/// Applying `a` and then `b` is applying `a + b`, and `a + b` is a valid
/// chain exactly when `a` is one and `b` is one on what `a` leaves.
pub proof fn lemma_chain_concat<T>(s: Seq<T>, a: Seq<VecDiff<T>>, b: Seq<VecDiff<T>>)
    ensures
        apply_all(s, a + b) == apply_all(apply_all(s, a), b),
        len_after_all(s.len(), a + b) == len_after_all(len_after_all(s.len(), a), b),
        valid_chain(s.len(), a + b) <==> valid_chain(s.len(), a) && valid_chain(
            len_after_all(s.len(), a),
            b,
        ),
    decreases b.len(),
{
    if b.len() == 0 {
        assert(a + b =~= a);
    } else {
        lemma_chain_concat(s, a, b.drop_last());
        assert((a + b).drop_last() =~= a + b.drop_last());
        assert((a + b).last() == b.last());
    }
}

/// A chain of one change is that change.
pub proof fn lemma_chain_single<T>(s: Seq<T>, d: VecDiff<T>)
    ensures
        apply_all(s, seq![d]) == d.apply(s),
        len_after_all(s.len(), seq![d]) == d.len_after(s.len()),
        valid_chain(s.len(), seq![d]) <==> d.valid_on(s.len()),
{
    let one = seq![d];
    let none = one.drop_last();
    assert(none.len() == 0);
    assert(apply_all(s, none) == s);
    assert(len_after_all(s.len(), none) == s.len());
    assert(valid_chain(s.len(), none));
    assert(one.last() == d);
}

/// The first change of a chain can be applied on its own, and the rest
/// continues from what it leaves.
pub proof fn lemma_chain_front<T>(s: Seq<T>, diffs: Seq<VecDiff<T>>)
    requires
        diffs.len() > 0,
    ensures
        apply_all(s, diffs) == apply_all(diffs[0].apply(s), diffs.skip(1)),
        len_after_all(s.len(), diffs) == len_after_all(
            diffs[0].len_after(s.len()),
            diffs.skip(1),
        ),
        valid_chain(s.len(), diffs) <==> diffs[0].valid_on(s.len()) && valid_chain(
            diffs[0].len_after(s.len()),
            diffs.skip(1),
        ),
{
    let head = seq![diffs[0]];
    assert(head + diffs.skip(1) =~= diffs);
    lemma_chain_concat(s, head, diffs.skip(1));
    lemma_chain_single(s, diffs[0]);
}

/// A chain that has brought a consumer to `before` and is followed by a
/// chain that takes `before` to `after` brings the consumer to `after`.
pub proof fn lemma_extend_chain<T>(
    shown: Seq<T>,
    queue: Seq<VecDiff<T>>,
    more: Seq<VecDiff<T>>,
    before: Seq<T>,
    after: Seq<T>,
)
    requires
        valid_chain(shown.len(), queue),
        apply_all(shown, queue) == before,
        valid_chain(before.len(), more),
        apply_all(before, more) == after,
    ensures
        valid_chain(shown.len(), queue + more),
        apply_all(shown, queue + more) == after,
{
    lemma_apply_all_len(shown, queue);
    lemma_chain_concat(shown, queue, more);
}

} // verus!
