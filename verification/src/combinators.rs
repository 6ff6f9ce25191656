//! Signals that map the values of another signal.
//!
//! Each holds its source and what it maps with. Polling the source is left
//! to the caller, who hands the answer to `poll_change` and gets back what
//! the mapped signal answers.

use crate::polled::Polled;
use std::marker::PhantomData;
use vstd::prelude::*;

verus! {

/// A signal of truth values, mapped to one value for `true` and another
/// for `false`.
pub struct MapBool<S, TM, FM> {
    signal: S,
    true_mapper: TM,
    false_mapper: FM,
}

impl<S, TM, FM> MapBool<S, TM, FM> {
    /// The source.
    pub closed spec fn signal(&self) -> S {
        self.signal
    }

    /// What gives the value for `true`.
    pub closed spec fn true_mapper(&self) -> TM {
        self.true_mapper
    }

    /// What gives the value for `false`.
    pub closed spec fn false_mapper(&self) -> FM {
        self.false_mapper
    }

    /// The source, to poll it.
    pub fn signal_mut(&mut self) -> (source: &mut S)
        ensures
            *source == old(self).signal(),
            final(self).signal() == *final(source),
            final(self).true_mapper() == old(self).true_mapper(),
            final(self).false_mapper() == old(self).false_mapper(),
    {
        &mut self.signal
    }

    /// Maps what the source answered to a poll: a truth value to what the
    /// mapper for it gives, anything else to itself.
    pub fn poll_change<T>(&mut self, polled: Polled<Option<bool>>) -> (mapped: Polled<Option<T>>)
        where
            TM: FnMut() -> T,
            FM: FnMut() -> T,

        requires
            polled == Polled::Ready(Some(true)) ==> call_requires(old(self).true_mapper(), ()),
            polled == Polled::Ready(Some(false)) ==> call_requires(old(self).false_mapper(), ()),
        ensures
            final(self).signal() == old(self).signal(),
            match polled {
                Polled::Ready(Some(true)) => mapped matches Polled::Ready(Some(value))
                    && call_ensures(old(self).true_mapper(), (), value),
                Polled::Ready(Some(false)) => mapped matches Polled::Ready(Some(value))
                    && call_ensures(old(self).false_mapper(), (), value),
                Polled::Ready(None) => mapped == Polled::Ready(None::<T>),
                Polled::Pending => mapped == Polled::<Option<T>>::Pending,
            },
    {
        match polled {
            Polled::Ready(Some(value)) => {
                if value {
                    Polled::Ready(Some((self.true_mapper)()))
                } else {
                    Polled::Ready(Some((self.false_mapper)()))
                }
            },
            Polled::Ready(None) => Polled::Ready(None),
            Polled::Pending => Polled::Pending,
        }
    }
}

/// A signal of truth values, mapped to a value for `true` and to nothing
/// for `false`.
pub struct MapOption<S, TM> {
    signal: S,
    true_mapper: TM,
}

impl<S, TM> MapOption<S, TM> {
    /// The source.
    pub closed spec fn signal(&self) -> S {
        self.signal
    }

    /// What gives the value for `true`.
    pub closed spec fn true_mapper(&self) -> TM {
        self.true_mapper
    }

    /// The source, to poll it.
    pub fn signal_mut(&mut self) -> (source: &mut S)
        ensures
            *source == old(self).signal(),
            final(self).signal() == *final(source),
            final(self).true_mapper() == old(self).true_mapper(),
    {
        &mut self.signal
    }

    /// Maps what the source answered to a poll: `true` to what the mapper
    /// gives, `false` to nothing, anything else to itself.
    pub fn poll_change<T>(&mut self, polled: Polled<Option<bool>>) -> (mapped: Polled<
        Option<Option<T>>,
    >)
        where
            TM: FnMut() -> T,

        requires
            polled == Polled::Ready(Some(true)) ==> call_requires(old(self).true_mapper(), ()),
        ensures
            final(self).signal() == old(self).signal(),
            match polled {
                Polled::Ready(Some(true)) => mapped matches Polled::Ready(Some(Some(value)))
                    && call_ensures(old(self).true_mapper(), (), value),
                Polled::Ready(Some(false)) => mapped == Polled::Ready(Some(None::<T>)),
                Polled::Ready(None) => mapped == Polled::Ready(None::<Option<T>>),
                Polled::Pending => mapped == Polled::<Option<Option<T>>>::Pending,
            },
    {
        match polled {
            Polled::Ready(Some(value)) => {
                if value {
                    Polled::Ready(Some(Some((self.true_mapper)())))
                } else {
                    Polled::Ready(Some(None))
                }
            },
            Polled::Ready(None) => Polled::Ready(None),
            Polled::Pending => Polled::Pending,
        }
    }
}

/// Signals of truth values can be mapped.
pub trait SignalExtMapBool {
    /// The signal that gives what `t` gives when this one gives `true`,
    /// and what `f` gives when this one gives `false`.
    fn map_bool<T, TM: FnMut() -> T, FM: FnMut() -> T>(self, t: TM, f: FM) -> (mapped: MapBool<
        Self,
        TM,
        FM,
    >) where Self: Sized
        ensures
            mapped.signal() == self,
            mapped.true_mapper() == t,
            mapped.false_mapper() == f,
    ;

    /// The signal that gives what `t` gives when this one gives `true`,
    /// and nothing when this one gives `false`.
    fn map_option<T, TM: FnMut() -> T>(self, t: TM) -> (mapped: MapOption<Self, TM>) where
        Self: Sized,

        ensures
            mapped.signal() == self,
            mapped.true_mapper() == t,
    ;
}

impl<S> SignalExtMapBool for S {
    fn map_bool<T, TM: FnMut() -> T, FM: FnMut() -> T>(self, t: TM, f: FM) -> (mapped: MapBool<
        Self,
        TM,
        FM,
    >) where Self: Sized {
        MapBool { signal: self, true_mapper: t, false_mapper: f }
    }

    fn map_option<T, TM: FnMut() -> T>(self, t: TM) -> (mapped: MapOption<Self, TM>) where
        Self: Sized,
     {
        MapOption { signal: self, true_mapper: t }
    }
}

/// A signal of optional values, with each value that is there mapped.
pub struct MapSome<S, T, F, U> {
    signal: S,
    mapper: F,
    pt: PhantomData<T>,
    pu: PhantomData<U>,
}

impl<S, T, F, U> MapSome<S, T, F, U> {
    /// The source.
    pub closed spec fn signal(&self) -> S {
        self.signal
    }

    /// What maps a value that is there.
    pub closed spec fn mapper(&self) -> F {
        self.mapper
    }

    /// The source, to poll it.
    pub fn signal_mut(&mut self) -> (source: &mut S)
        ensures
            *source == old(self).signal(),
            final(self).signal() == *final(source),
            final(self).mapper() == old(self).mapper(),
    {
        &mut self.signal
    }

    /// Maps what the source answered to a poll: a value that is there to
    /// what the mapper gives for it, anything else to itself.
    pub fn poll_change(&mut self, polled: Polled<Option<Option<T>>>) -> (mapped: Polled<
        Option<Option<U>>,
    >)
        where
            F: FnMut(&T) -> U,

        requires
            polled matches Polled::Ready(Some(Some(value))) ==> call_requires(
                old(self).mapper(),
                (&value,),
            ),
        ensures
            final(self).signal() == old(self).signal(),
            match polled {
                Polled::Ready(Some(Some(value))) => mapped matches Polled::Ready(Some(Some(to)))
                    && call_ensures(old(self).mapper(), (&value,), to),
                Polled::Ready(Some(None)) => mapped == Polled::Ready(Some(None::<U>)),
                Polled::Ready(None) => mapped == Polled::Ready(None::<Option<U>>),
                Polled::Pending => mapped == Polled::<Option<Option<U>>>::Pending,
            },
    {
        match polled {
            Polled::Ready(Some(Some(value))) => Polled::Ready(Some(Some((self.mapper)(&value)))),
            Polled::Ready(Some(None)) => Polled::Ready(Some(None)),
            Polled::Ready(None) => Polled::Ready(None),
            Polled::Pending => Polled::Pending,
        }
    }
}

/// A signal of optional values, with each value that is there mapped and
/// the default in the place of each that is missing.
pub struct MapSomeDefault<S, T, F, U> {
    signal: S,
    mapper: F,
    pt: PhantomData<T>,
    pu: PhantomData<U>,
}

impl<S, T, F, U> MapSomeDefault<S, T, F, U> {
    /// The source.
    pub closed spec fn signal(&self) -> S {
        self.signal
    }

    /// What maps a value that is there.
    pub closed spec fn mapper(&self) -> F {
        self.mapper
    }

    /// The source, to poll it.
    pub fn signal_mut(&mut self) -> (source: &mut S)
        ensures
            *source == old(self).signal(),
            final(self).signal() == *final(source),
            final(self).mapper() == old(self).mapper(),
    {
        &mut self.signal
    }

    /// Maps what the source answered to a poll: a value that is there to
    /// what the mapper gives for it, a missing value to the default,
    /// anything else to itself.
    pub fn poll_change(&mut self, polled: Polled<Option<Option<T>>>) -> (mapped: Polled<Option<U>>)
        where
            F: FnMut(&T) -> U,
            U: Default,

        requires
            polled matches Polled::Ready(Some(Some(value))) ==> call_requires(
                old(self).mapper(),
                (&value,),
            ),
            polled == Polled::Ready(Some(None::<T>)) ==> call_requires(U::default, ()),
        ensures
            final(self).signal() == old(self).signal(),
            match polled {
                Polled::Ready(Some(Some(value))) => mapped matches Polled::Ready(Some(to))
                    && call_ensures(old(self).mapper(), (&value,), to),
                Polled::Ready(Some(None)) => mapped matches Polled::Ready(Some(to))
                    && call_ensures(U::default, (), to),
                Polled::Ready(None) => mapped == Polled::Ready(None::<U>),
                Polled::Pending => mapped == Polled::<Option<U>>::Pending,
            },
    {
        match polled {
            Polled::Ready(Some(Some(value))) => Polled::Ready(Some((self.mapper)(&value))),
            Polled::Ready(Some(None)) => Polled::Ready(Some(U::default())),
            Polled::Ready(None) => Polled::Ready(None),
            Polled::Pending => Polled::Pending,
        }
    }
}

/// A signal of optional values, with each value that is there mapped to an
/// optional value.
pub struct AndThenSome<S, T, F, U> {
    signal: S,
    mapper: F,
    pt: PhantomData<T>,
    pu: PhantomData<U>,
}

impl<S, T, F, U> AndThenSome<S, T, F, U> {
    /// The source.
    pub closed spec fn signal(&self) -> S {
        self.signal
    }

    /// What maps a value that is there.
    pub closed spec fn mapper(&self) -> F {
        self.mapper
    }

    /// The source, to poll it.
    pub fn signal_mut(&mut self) -> (source: &mut S)
        ensures
            *source == old(self).signal(),
            final(self).signal() == *final(source),
            final(self).mapper() == old(self).mapper(),
    {
        &mut self.signal
    }

    /// Maps what the source answered to a poll: a value that is there to
    /// what the mapper gives for it, anything else to itself.
    pub fn poll_change(&mut self, polled: Polled<Option<Option<T>>>) -> (mapped: Polled<
        Option<Option<U>>,
    >)
        where
            F: FnMut(&T) -> Option<U>,

        requires
            polled matches Polled::Ready(Some(Some(value))) ==> call_requires(
                old(self).mapper(),
                (&value,),
            ),
        ensures
            final(self).signal() == old(self).signal(),
            match polled {
                Polled::Ready(Some(Some(value))) => mapped matches Polled::Ready(Some(to))
                    && call_ensures(old(self).mapper(), (&value,), to),
                Polled::Ready(Some(None)) => mapped == Polled::Ready(Some(None::<U>)),
                Polled::Ready(None) => mapped == Polled::Ready(None::<Option<U>>),
                Polled::Pending => mapped == Polled::<Option<Option<U>>>::Pending,
            },
    {
        match polled {
            Polled::Ready(Some(Some(value))) => Polled::Ready(Some((self.mapper)(&value))),
            Polled::Ready(Some(None)) => Polled::Ready(Some(None)),
            Polled::Ready(None) => Polled::Ready(None),
            Polled::Pending => Polled::Pending,
        }
    }
}

/// A signal of optional values, with the default in the place of each that
/// is missing.
pub struct UnwrapOrDefault<S, T> {
    signal: S,
    pt: PhantomData<T>,
}

impl<S, T> UnwrapOrDefault<S, T> {
    /// The source.
    pub closed spec fn signal(&self) -> S {
        self.signal
    }

    /// The source, to poll it.
    pub fn signal_mut(&mut self) -> (source: &mut S)
        ensures
            *source == old(self).signal(),
            final(self).signal() == *final(source),
    {
        &mut self.signal
    }

    /// Maps what the source answered to a poll: a value that is there to
    /// itself, a missing value to the default.
    pub fn poll_change(&mut self, polled: Polled<Option<Option<T>>>) -> (mapped: Polled<Option<T>>)
        where
            T: Default,

        requires
            polled == Polled::Ready(Some(None::<T>)) ==> call_requires(T::default, ()),
        ensures
            final(self).signal() == old(self).signal(),
            match polled {
                Polled::Ready(Some(Some(value))) => mapped == Polled::Ready(Some(value)),
                Polled::Ready(Some(None)) => mapped matches Polled::Ready(Some(to))
                    && call_ensures(T::default, (), to),
                Polled::Ready(None) => mapped == Polled::Ready(None::<T>),
                Polled::Pending => mapped == Polled::<Option<T>>::Pending,
            },
    {
        match polled {
            Polled::Ready(Some(Some(value))) => Polled::Ready(Some(value)),
            Polled::Ready(Some(None)) => Polled::Ready(Some(T::default())),
            Polled::Ready(None) => Polled::Ready(None),
            Polled::Pending => Polled::Pending,
        }
    }
}

/// Signals of optional values can be mapped.
pub trait SignalExtMapOption<T> {
    /// The signal that gives, for each value that is there, what `f` gives
    /// for it.
    fn map_some<F, U>(self, f: F) -> (mapped: MapSome<Self, T, F, U>) where
        Self: Sized,
        F: FnMut(&T) -> U,

        ensures
            mapped.signal() == self,
            mapped.mapper() == f,
    ;

    /// The signal that gives, for each value that is there, what `f` gives
    /// for it, and the default for each that is missing.
    fn map_some_default<F, U>(self, f: F) -> (mapped: MapSomeDefault<Self, T, F, U>) where
        Self: Sized,
        F: FnMut(&T) -> U,
        U: Default,

        ensures
            mapped.signal() == self,
            mapped.mapper() == f,
    ;

    /// The signal that gives, for each value that is there, the optional
    /// value that `f` gives for it.
    fn and_then_some<F, U>(self, f: F) -> (mapped: AndThenSome<Self, T, F, U>) where
        Self: Sized,
        F: FnMut(&T) -> Option<U>,

        ensures
            mapped.signal() == self,
            mapped.mapper() == f,
    ;

    /// The signal that gives each value that is there, and the default for
    /// each that is missing.
    fn unwrap_or_default(self) -> (mapped: UnwrapOrDefault<Self, T>) where
        Self: Sized,
        T: Default,

        ensures
            mapped.signal() == self,
    ;
}

impl<T, S> SignalExtMapOption<T> for S {
    fn map_some<F, U>(self, f: F) -> (mapped: MapSome<Self, T, F, U>) where
        Self: Sized,
        F: FnMut(&T) -> U,
     {
        MapSome { signal: self, mapper: f, pt: PhantomData, pu: PhantomData }
    }

    fn map_some_default<F, U>(self, f: F) -> (mapped: MapSomeDefault<Self, T, F, U>) where
        Self: Sized,
        F: FnMut(&T) -> U,
        U: Default,
     {
        MapSomeDefault { signal: self, mapper: f, pt: PhantomData, pu: PhantomData }
    }

    fn and_then_some<F, U>(self, f: F) -> (mapped: AndThenSome<Self, T, F, U>) where
        Self: Sized,
        F: FnMut(&T) -> Option<U>,
     {
        AndThenSome { signal: self, mapper: f, pt: PhantomData, pu: PhantomData }
    }

    fn unwrap_or_default(self) -> (mapped: UnwrapOrDefault<Self, T>) where
        Self: Sized,
        T: Default,
     {
        UnwrapOrDefault { signal: self, pt: PhantomData }
    }
}

/// A signal that counts the changes of a changing sequence.
pub struct Sequence<A> {
    signal: A,
    sequence: u64,
}

impl<A> Sequence<A> {
    /// The source.
    pub closed spec fn signal(&self) -> A {
        self.signal
    }

    /// The number of changes counted so far.
    pub closed spec fn sequence(&self) -> u64 {
        self.sequence
    }

    /// The count of the changes of `signal`, which begins with none.
    pub fn new(signal: A) -> (counter: Self)
        ensures
            counter.signal() == signal,
            counter.sequence() == 0,
    {
        Sequence { signal, sequence: 0 }
    }

    /// The source, to poll it.
    pub fn signal_mut(&mut self) -> (source: &mut A)
        ensures
            *source == old(self).signal(),
            final(self).signal() == *final(source),
            final(self).sequence() == old(self).sequence(),
    {
        &mut self.signal
    }

    /// Counts the `changes` that the source gave when it was polled until
    /// nothing more was ready, and answers with the new count if there
    /// were any; if there were none, the answer tells whether the source
    /// then reported that it will change no more.
    pub fn poll_change(&mut self, changes: u64, exhausted: bool) -> (answer: Polled<Option<u64>>)
        requires
            old(self).sequence() + changes <= u64::MAX,
        ensures
            final(self).signal() == old(self).signal(),
            final(self).sequence() == old(self).sequence() + changes,
            answer == if changes > 0 {
                Polled::Ready(Some(final(self).sequence()))
            } else if exhausted {
                Polled::Ready(None)
            } else {
                Polled::Pending
            },
    {
        if changes > 0 {
            self.sequence = self.sequence + changes;
            Polled::Ready(Some(self.sequence))
        } else if exhausted {
            Polled::Ready(None)
        } else {
            Polled::Pending
        }
    }

    /// The number of changes counted so far.
    pub fn count(&self) -> (n: u64)
        ensures
            n == self.sequence(),
    {
        self.sequence
    }
}

} // verus!
