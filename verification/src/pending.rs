//! A first-in, first-out queue of notifications that keeps its first
//! element apart, so that a queue of one allocates nothing.

use std::collections::VecDeque;
use vstd::prelude::*;

verus! {

/// A queue under construction: the first element, and those that follow it.
pub struct PendingBuilder<A> {
    first: Option<A>,
    rest: VecDeque<A>,
}

impl<A> View for PendingBuilder<A> {
    type V = Seq<A>;

    /// The queued elements, oldest first.
    closed spec fn view(&self) -> Seq<A> {
        match self.first {
            Some(a) => seq![a] + self.rest@,
            None => Seq::empty(),
        }
    }
}

impl<A> PendingBuilder<A> {
    /// Nothing follows a first element that is missing.
    pub closed spec fn wf(&self) -> bool {
        self.first is None ==> self.rest@.len() == 0
    }

    /// An empty queue.
    pub fn new() -> (r: Self)
        ensures
            r.wf(),
            r@ == Seq::<A>::empty(),
    {
        Self { first: None, rest: VecDeque::new() }
    }

    /// Appends `value` behind everything queued so far.
    pub fn push(&mut self, value: A)
        requires
            old(self).wf(),
        ensures
            final(self).wf(),
            final(self)@ == old(self)@.push(value),
    {
        if self.first.is_none() {
            self.first = Some(value);
            assert(self@ =~= old(self)@.push(value));
        } else {
            self.rest.push_back(value);
            assert(self@ =~= old(self)@.push(value));
        }
    }

    /// Tells whether nothing is queued.
    pub fn is_empty(&self) -> (b: bool)
        ensures
            b == (self@.len() == 0),
    {
        self.first.is_none()
    }

    /// Takes the queue apart into its first element and those behind it.
    pub fn into_parts(self) -> (parts: (Option<A>, VecDeque<A>))
        requires
            self.wf(),
        ensures
            match parts.0 {
                Some(a) => self@ == seq![a] + parts.1@,
                None => self@.len() == 0 && parts.1@.len() == 0,
            },
    {
        (self.first, self.rest)
    }
}

} // verus!
