//! A place in a list that was looked for by a predicate, and the single
//! change of the list that a write through the place amounts to.
//!
//! Nothing here holds the list. Reading takes the items as a slice; writing
//! gives back the change to make.

use crate::diff::VecDiff;
use vstd::prelude::*;
use vstd::std_specs::cmp::PartialEqSpec;

verus! {

/// The position of the first item that `f` accepts, if it accepts one.
pub fn position<V, F>(items: &[V], f: F) -> (key: Option<usize>) where F: Fn(&V) -> bool
    requires
        forall|i: int| 0 <= i < items@.len() ==> call_requires(f, (&#[trigger] items@[i],)),
    ensures
        match key {
            Some(k) => {
                &&& k < items@.len()
                &&& call_ensures(f, (&items@[k as int],), true)
                &&& forall|i: int| 0 <= i < k ==> call_ensures(f, (&#[trigger] items@[i],), false)
            },
            None => forall|i: int|
                0 <= i < items@.len() ==> call_ensures(f, (&#[trigger] items@[i],), false),
        },
{
    let mut index: usize = 0;
    while index < items.len()
        invariant
            index <= items@.len(),
            forall|i: int| 0 <= i < items@.len() ==> call_requires(f, (&#[trigger] items@[i],)),
            forall|i: int| 0 <= i < index ==> call_ensures(f, (&#[trigger] items@[i],), false),
        decreases items@.len() - index,
    {
        if f(&items[index]) {
            return Some(index);
        }
        index += 1;
    }
    None
}

/// A place in a list of `len` items: the position of an item that is
/// there, or none, which stands for the place behind the last item.
#[derive(Debug, Clone, Copy, PartialEq, Eq)]
pub struct Entry {
    key: Option<usize>,
    len: usize,
}

impl Entry {
    /// The position, if the place holds an item.
    pub closed spec fn spec_key(&self) -> Option<usize> {
        self.key
    }

    /// The number of items in the list.
    pub closed spec fn spec_len(&self) -> usize {
        self.len
    }

    /// A position that is there lies within the list.
    pub open spec fn wf(&self) -> bool {
        self.spec_key() matches Some(k) ==> k < self.spec_len()
    }

    /// The place of the first item of `items` that `f` accepts, or the
    /// place behind the last item if it accepts none.
    pub fn find<V, F>(items: &[V], f: F) -> (entry: Self) where F: Fn(&V) -> bool
        requires
            forall|i: int| 0 <= i < items@.len() ==> call_requires(f, (&#[trigger] items@[i],)),
        ensures
            entry.wf(),
            entry.spec_len() == items@.len(),
            match entry.spec_key() {
                Some(k) => {
                    &&& call_ensures(f, (&items@[k as int],), true)
                    &&& forall|i: int|
                        0 <= i < k ==> call_ensures(f, (&#[trigger] items@[i],), false)
                },
                None => forall|i: int|
                    0 <= i < items@.len() ==> call_ensures(f, (&#[trigger] items@[i],), false),
            },
    {
        Entry { key: position(items, f), len: items.len() }
    }

    /// Tells whether the place holds no item.
    pub fn is_vacant(&self) -> (b: bool)
        ensures
            b == (self.spec_key() is None),
    {
        self.key.is_none()
    }

    /// Tells whether the place holds an item.
    pub fn is_occupied(&self) -> (b: bool)
        ensures
            b == (self.spec_key() is Some),
    {
        self.key.is_some()
    }

    /// The position, if the place holds an item.
    pub fn key(&self) -> (key: Option<usize>)
        ensures
            key == self.spec_key(),
    {
        self.key
    }

    /// The change that writes `value` to the place: an update of the item
    /// that is there, or else a push, after which the place is that of the
    /// new last item.
    pub fn set<V>(&mut self, value: V) -> (write: VecDiff<V>)
        requires
            old(self).wf(),
            old(self).spec_key() is None ==> old(self).spec_len() < usize::MAX,
        ensures
            final(self).wf(),
            write.valid_on(old(self).spec_len() as nat),
            final(self).spec_len() == write.len_after(old(self).spec_len() as nat),
            match old(self).spec_key() {
                Some(index) => write == (VecDiff::UpdateAt { index, value })
                    && final(self).spec_key() == Some(index),
                None => write == (VecDiff::Push { value }) && final(self).spec_key() == Some(
                    old(self).spec_len(),
                ),
            },
    {
        match self.key {
            Some(index) => VecDiff::UpdateAt { index, value },
            None => {
                let index = self.len;
                self.key = Some(index);
                self.len = index + 1;
                VecDiff::Push { value }
            },
        }
    }

    /// The change that writes `value` to the place if it holds an item.
    pub fn and_set<V>(&self, value: V) -> (write: Option<VecDiff<V>>)
        requires
            self.wf(),
        ensures
            match self.spec_key() {
                Some(index) => write == Some(VecDiff::UpdateAt { index, value }),
                None => write is None,
            },
            write matches Some(diff) ==> diff.valid_on(self.spec_len() as nat),
    {
        match self.key {
            Some(index) => Some(VecDiff::UpdateAt { index, value }),
            None => None,
        }
    }

    /// The change that takes out the item that the place holds, if it
    /// holds one.
    pub fn remove<V>(self) -> (write: Option<VecDiff<V>>)
        requires
            self.wf(),
        ensures
            match self.spec_key() {
                Some(index) => write == Some(VecDiff::<V>::RemoveAt { index }),
                None => write is None,
            },
            write matches Some(diff) ==> diff.valid_on(self.spec_len() as nat),
    {
        match self.key {
            Some(index) => Some(VecDiff::RemoveAt { index }),
            None => None,
        }
    }

    /// The place after `value` has been written to it, and the change that
    /// writes it: an update of the item that is there, or else a push.
    pub fn or_insert_entry<V>(self, value: V) -> (written: (Self, VecDiff<V>))
        requires
            self.wf(),
            self.spec_key() is None ==> self.spec_len() < usize::MAX,
        ensures
            written.0.wf(),
            written.1.valid_on(self.spec_len() as nat),
            written.0.spec_len() == written.1.len_after(self.spec_len() as nat),
            match self.spec_key() {
                Some(index) => written.1 == (VecDiff::UpdateAt { index, value })
                    && written.0.spec_key() == Some(index),
                None => written.1 == (VecDiff::Push { value }) && written.0.spec_key() == Some(
                    self.spec_len(),
                ),
            },
    {
        let mut entry = self;
        let write = entry.set(value);
        (entry, write)
    }

    /// The value of the item that the place holds, taken from `items`, for
    /// reading and changing.
    pub fn value<V: Copy>(self, items: &[V]) -> (held: Option<Value<V>>)
        requires
            self.wf(),
            self.spec_len() == items@.len(),
        ensures
            match self.spec_key() {
                Some(k) => held matches Some(v) && v.entry() == Some(self) && v.value()
                    == items@[k as int] && !v.modified(),
                None => held is None,
            },
    {
        match self.key {
            Some(key) => Some(Value::existing(self, items[key])),
            None => None,
        }
    }

    /// As `or_insert`, with the value that `value` gives; it is asked for
    /// it whether or not the place holds an item.
    pub fn or_insert_with<V: Copy, F: FnOnce() -> V>(self, items: &[V], value: F) -> (held: Value<
        V,
    >)
        requires
            self.wf(),
            self.spec_len() == items@.len(),
            call_requires(value, ()),
        ensures
            held.entry() == Some(self),
            match self.spec_key() {
                Some(k) => held.value() == items@[k as int] && !held.modified(),
                None => call_ensures(value, (), held.value()) && held.modified(),
            },
    {
        self.or_insert(items, value())
    }

    /// As `or_insert`, with the default value.
    pub fn or_default<V: Copy + Default>(self, items: &[V]) -> (held: Value<V>)
        requires
            self.wf(),
            self.spec_len() == items@.len(),
            call_requires(V::default, ()),
        ensures
            held.entry() == Some(self),
            match self.spec_key() {
                Some(k) => held.value() == items@[k as int] && !held.modified(),
                None => call_ensures(V::default, (), held.value()) && held.modified(),
            },
    {
        self.or_insert(items, V::default())
    }

    /// The value at the place for reading and changing: that of the item
    /// that is there, taken from `items`, or else `value`, which is then
    /// due to be written.
    pub fn or_insert<V: Copy>(self, items: &[V], value: V) -> (held: Value<V>)
        requires
            self.wf(),
            self.spec_len() == items@.len(),
        ensures
            held.entry() == Some(self),
            match self.spec_key() {
                Some(k) => held.value() == items@[k as int] && !held.modified(),
                None => held.value() == value && held.modified(),
            },
    {
        match self.key {
            Some(key) => Value::existing(self, items[key]),
            None => Value::new(self, value),
        }
    }
}

/// A value at a place in a list, held for reading and changing. A change
/// is written when the value is let go.
#[derive(Debug)]
pub struct Value<V> {
    entry: Option<Entry>,
    value: V,
    modified: bool,
}

impl<V> Value<V> {
    /// The place, as long as it has not been taken away.
    pub closed spec fn entry(&self) -> Option<Entry> {
        self.entry
    }

    /// The value as it is held.
    pub closed spec fn value(&self) -> V {
        self.value
    }

    /// Whether the value is due to be written.
    pub closed spec fn modified(&self) -> bool {
        self.modified
    }

    /// A value that the list does not hold yet and that is due to be
    /// written.
    pub fn new(entry: Entry, value: V) -> (held: Self)
        ensures
            held.entry() == Some(entry),
            held.value() == value,
            held.modified(),
    {
        Value { entry: Some(entry), value, modified: true }
    }

    /// A value as the list holds it.
    pub fn existing(entry: Entry, value: V) -> (held: Self)
        ensures
            held.entry() == Some(entry),
            held.value() == value,
            !held.modified(),
    {
        Value { entry: Some(entry), value, modified: false }
    }

    /// The value as it is held.
    pub fn get(&self) -> (value: &V)
        ensures
            *value == self.value(),
    {
        &self.value
    }

    /// Puts `value` in the place of the held one, which is then due to be
    /// written.
    pub fn set(&mut self, value: V) -> (modified: bool)
        ensures
            modified,
            final(self).modified(),
            final(self).value() == value,
            final(self).entry() == old(self).entry(),
    {
        self.value = value;
        self.modified = true;
        self.modified
    }

    /// Hands the held value to `f` for changing; what `f` returns tells
    /// whether the value is then due to be written.
    pub fn inspect_mut<F>(&mut self, f: F) -> (modified: bool) where F: FnOnce(&mut V) -> bool
        requires
            forall|held: &mut V| *held == old(self).value() ==> call_requires(f, (held,)),
        ensures
            final(self).modified() == modified,
            final(self).entry() == old(self).entry(),
            exists|held: &mut V|
                {
                    &&& *held == old(self).value()
                    &&& *final(held) == final(self).value()
                    &&& call_ensures(f, (held,), modified)
                },
    {
        let changed = f(&mut self.value);
        self.modified = changed;
        self.modified
    }

    /// Puts `value` in the place of the held one if the two differ, and
    /// tells whether the value is due to be written.
    pub fn set_neq(&mut self, value: V) -> (modified: bool) where V: PartialEq
        ensures
            final(self).modified() == modified,
            final(self).entry() == old(self).entry(),
            final(self).value() == value && modified || final(self).value() == old(self).value()
                && modified == old(self).modified(),
            V::obeys_eq_spec() ==> if old(self).value().eq_spec(&value) {
                final(self).value() == old(self).value() && modified == old(self).modified()
            } else {
                final(self).value() == value && modified
            },
    {
        if self.value != value {
            self.value = value;
            self.modified = true;
        }
        self.modified
    }

    /// Takes the place away, so that nothing is written when the value is
    /// let go.
    pub fn take_entry(&mut self) -> (entry: Option<Entry>)
        ensures
            entry == old(self).entry(),
            final(self).entry() is None,
            final(self).value() == old(self).value(),
            final(self).modified() == old(self).modified(),
    {
        self.entry.take()
    }

    /// Lets the value go: the change that writes it to its place, if it is
    /// due to be written and the place has not been taken away.
    pub fn finish(self) -> (write: Option<VecDiff<V>>)
        requires
            self.entry() matches Some(entry) ==> entry.wf() && (entry.spec_key() is None
                ==> entry.spec_len() < usize::MAX),
        ensures
            match self.entry() {
                Some(entry) if self.modified() => match entry.spec_key() {
                    Some(index) => write == Some(
                        VecDiff::UpdateAt { index, value: self.value() },
                    ),
                    None => write == Some(VecDiff::Push { value: self.value() }),
                },
                _ => write is None,
            },
            write matches Some(diff) ==> diff.valid_on(self.entry()->0.spec_len() as nat),
    {
        if self.modified {
            match self.entry {
                Some(mut entry) => Some(entry.set(self.value)),
                None => None,
            }
        } else {
            None
        }
    }
}

} // verus!
