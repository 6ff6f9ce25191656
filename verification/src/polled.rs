//! What a poll of a source of changes can answer.

use vstd::prelude::*;

verus! {

/// The answer of one poll: a value that is ready, or nothing yet.
///
/// A source of changes answers `Ready(Some(change))` when it has changed,
/// `Ready(None)` when it will change no more, and `Pending` when nothing is
/// available yet.
#[derive(Debug, PartialEq, Eq)]
pub enum Polled<T> {
    Ready(T),
    Pending,
}

} // verus!
