//! Incremental flattening of a changing sequence of changing sequences.
//!
//! [`Flatten`] keeps, change by change, the single sequence that results
//! from concatenating the inner sequences in outer order. Every change of
//! the outer sequence or of an inner one becomes notifications in the
//! coordinates of the flattened sequence, and the contracts state what a
//! consumer holds that applies them as they are handed out.
//!
//! Nothing here polls a source: the caller polls and hands over the answer.
//! One round of polling goes like this:
//!
//! 1. [`Flatten::pop_pending`] hands out a notification that waits, and the
//!    round ends with it.
//! 2. Otherwise each change that the outer sequence has ready goes to
//!    [`Flatten::poll_outer`]; a replacement or clearing ends the round with
//!    the notification that it returns.
//! 3. What each inner sequence has ready goes to [`Flatten::poll_inner`].
//! 4. [`Flatten::finish`] hands out the first notification of the round and
//!    keeps the others, or tells whether the flattened sequence has ended.
//!
//! Beside the flattened sequence stand signals that map the values of
//! another signal, and decisions on the entries of a list and on a value
//! that may be missing.

pub mod block;
pub mod combinators;
pub mod consumer;
pub mod diff;
pub mod entry;
pub mod flatten;
pub mod inner;
pub mod items;
pub mod keyed;
pub mod layout;
pub mod option;
pub mod outer;
pub mod pending;
pub mod polled;
pub mod state;

pub use combinators::{
    AndThenSome, MapBool, MapOption, MapSome, MapSomeDefault, Sequence, SignalExtMapBool,
    SignalExtMapOption, UnwrapOrDefault,
};
pub use diff::VecDiff;
pub use entry::{position, Entry, Value};
pub use flatten::Flatten;
pub use items::enumerate_map;
pub use keyed::{replace_or_extend_keyed, KeyedPlan};
pub use layout::prefix_len;
pub use option::{and_then_some_or, take_if_value};
pub use outer::{fill_moves, fill_removals, OuterDiff};
pub use pending::PendingBuilder;
pub use polled::Polled;
pub use state::{Batch, FlattenState};
