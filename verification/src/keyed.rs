//! Replacing the items of a list by new items with the same key, and
//! appending the new items whose key the list does not hold.
//!
//! The decision is made on the keys alone. Of several new items with equal
//! keys only the last counts, and it takes the place of the first item of
//! the list with that key.

use vstd::prelude::*;
use vstd::std_specs::cmp::PartialEqSpec;

verus! {

/// Whether a later new item has the same key as the new item at `at`.
pub open spec fn shadowed<K: PartialEq>(source: Seq<K>, at: int) -> bool {
    exists|later: int| at < later < source.len() && #[trigger] source[later].eq_spec(&source[at])
}

/// Whether the item at `at` is the first of the list with the key `key`.
pub open spec fn first_with_key<K: PartialEq>(existing: Seq<K>, at: int, key: K) -> bool {
    &&& 0 <= at < existing.len()
    &&& existing[at].eq_spec(&key)
    &&& forall|before: int| 0 <= before < at ==> !(#[trigger] existing[before]).eq_spec(&key)
}

/// Whether no item of the list has the key `key`.
pub open spec fn without_key<K: PartialEq>(existing: Seq<K>, key: K) -> bool {
    forall|at: int| 0 <= at < existing.len() ==> !(#[trigger] existing[at]).eq_spec(&key)
}

/// Whether the new item at `from` takes the place of the item at `at`: it
/// is not shadowed, and the item at `at` is the first with its key.
pub open spec fn takes_place<K: PartialEq>(
    existing: Seq<K>,
    source: Seq<K>,
    at: int,
    from: int,
) -> bool {
    &&& 0 <= from < source.len()
    &&& !shadowed(source, from)
    &&& first_with_key(existing, at, source[from])
}

/// Whether the new item at `from` is appended: it is not shadowed, and no
/// item of the list has its key.
pub open spec fn is_appended<K: PartialEq>(existing: Seq<K>, source: Seq<K>, from: int) -> bool {
    &&& 0 <= from < source.len()
    &&& !shadowed(source, from)
    &&& without_key(existing, source[from])
}

/// Whether `from` is among the positions `appended`.
pub open spec fn listed(appended: Seq<usize>, from: int) -> bool {
    exists|k: int| 0 <= k < appended.len() && #[trigger] appended[k] == from
}

/// Where new items go: which of them take the place of items of the list,
/// and which are appended.
#[derive(Debug, Clone, PartialEq, Eq)]
pub struct KeyedPlan {
    /// For each item of the list, the position among the new items of the
    /// one that takes its place, if one does.
    pub replaced: Vec<Option<usize>>,
    /// The positions among the new items of those that are appended, in
    /// rising order.
    pub appended: Vec<usize>,
}

impl KeyedPlan {
    /// Tells whether any new item is appended.
    pub fn extends(&self) -> (b: bool)
        ensures
            b == (self.appended@.len() > 0),
    {
        self.appended.len() > 0
    }
}

/// Tells whether a later new item has the same key as the one at `at`.
fn is_shadowed<K: PartialEq>(source: &[K], at: usize) -> (b: bool)
    requires
        K::obeys_eq_spec(),
        at < source@.len(),
    ensures
        b == shadowed(source@, at as int),
{
    assert(at < source.len());
    let mut later = at + 1;
    while later < source.len()
        invariant
            K::obeys_eq_spec(),
            at < later <= source@.len(),
            forall|l: int| at < l < later ==> !(#[trigger] source@[l]).eq_spec(&source@[at as int]),
        decreases source@.len() - later,
    {
        if source[later] == source[at] {
            return true;
        }
        later += 1;
    }
    false
}

/// The position of the first item of the list with the key `key`.
fn find_key<K: PartialEq>(existing: &[K], key: &K) -> (found: Option<usize>)
    requires
        K::obeys_eq_spec(),
    ensures
        match found {
            Some(at) => first_with_key(existing@, at as int, *key),
            None => without_key(existing@, *key),
        },
{
    let mut at: usize = 0;
    while at < existing.len()
        invariant
            K::obeys_eq_spec(),
            at <= existing@.len(),
            forall|before: int| 0 <= before < at ==> !(#[trigger] existing@[before]).eq_spec(key),
        decreases existing@.len() - at,
    {
        if existing[at] == *key {
            return Some(at);
        }
        at += 1;
    }
    None
}

/// Decides where new items with the keys `source` go in a list whose items
/// have the keys `existing`.
///
/// A new item that is not shadowed takes the place of the first item of
/// the list with its key; where the list has no such item, the new item is
/// appended. A shadowed new item goes nowhere.
pub fn replace_or_extend_keyed<K: PartialEq>(existing: &[K], source: &[K]) -> (plan: KeyedPlan)
    requires
        K::obeys_eq_spec(),
    ensures
        plan.replaced@.len() == existing@.len(),
        forall|at: int|
            0 <= at < existing@.len() ==> match #[trigger] plan.replaced@[at] {
                Some(from) => {
                    &&& takes_place(existing@, source@, at, from as int)
                    &&& forall|other: int|
                        from < other < source@.len() ==> !takes_place(
                            existing@,
                            source@,
                            at,
                            other,
                        )
                },
                None => forall|from: int|
                    0 <= from < source@.len() ==> !takes_place(existing@, source@, at, from),
            },
        forall|k: int|
            0 <= k < plan.appended@.len() ==> is_appended(
                existing@,
                source@,
                #[trigger] plan.appended@[k] as int,
            ),
        forall|from: int|
            #[trigger] is_appended(existing@, source@, from) ==> listed(plan.appended@, from),
        forall|k: int, l: int|
            0 <= k < l < plan.appended@.len() ==> plan.appended@[k] < plan.appended@[l],
{
    let mut replaced: Vec<Option<usize>> = Vec::new();
    let mut at: usize = 0;
    while at < existing.len()
        invariant
            at <= existing@.len(),
            replaced@.len() == at,
            forall|i: int| 0 <= i < at ==> (#[trigger] replaced@[i]) is None,
        decreases existing@.len() - at,
    {
        replaced.push(None);
        at += 1;
    }
    let mut appended: Vec<usize> = Vec::new();
    let mut from: usize = 0;
    while from < source.len()
        invariant
            K::obeys_eq_spec(),
            from <= source@.len(),
            replaced@.len() == existing@.len(),
            forall|at: int|
                0 <= at < existing@.len() ==> match #[trigger] replaced@[at] {
                    Some(j) => {
                        &&& j < from
                        &&& takes_place(existing@, source@, at, j as int)
                        &&& forall|other: int|
                            j < other < from ==> !takes_place(existing@, source@, at, other)
                    },
                    None => forall|j: int|
                        0 <= j < from ==> !takes_place(existing@, source@, at, j),
                },
            forall|k: int|
                0 <= k < appended@.len() ==> (#[trigger] appended@[k]) < from && is_appended(
                    existing@,
                    source@,
                    appended@[k] as int,
                ),
            forall|j: int|
                0 <= j < from && #[trigger] is_appended(existing@, source@, j) ==> listed(
                    appended@,
                    j,
                ),
            forall|k: int, l: int| 0 <= k < l < appended@.len() ==> appended@[k] < appended@[l],
        decreases source@.len() - from,
    {
        let ghost before = replaced@;
        let ghost so_far = appended@;
        if !is_shadowed(source, from) {
            match find_key(existing, &source[from]) {
                Some(at) => {
                    replaced.set(at, Some(from));
                    assert forall|i: int| 0 <= i < existing@.len() implies match #[trigger] replaced@[i] {
                        Some(j) => {
                            &&& j < from + 1
                            &&& takes_place(existing@, source@, i, j as int)
                            &&& forall|other: int|
                                j < other < from + 1 ==> !takes_place(
                                    existing@,
                                    source@,
                                    i,
                                    other,
                                )
                        },
                        None => forall|j: int|
                            0 <= j < from + 1 ==> !takes_place(existing@, source@, i, j),
                    } by {
                        if i != at {
                            assert(replaced@[i] == before[i]);
                            assert(!first_with_key(existing@, i, source@[from as int]));
                        }
                    }
                },
                None => {
                    appended.push(from);
                    assert forall|j: int|
                        0 <= j < from + 1 && #[trigger] is_appended(
                            existing@,
                            source@,
                            j,
                        ) implies listed(appended@, j) by {
                        if j < from {
                            assert(listed(so_far, j));
                            let k = choose|k: int| 0 <= k < so_far.len() && #[trigger] so_far[k] == j;
                            assert(appended@[k] == j);
                        } else {
                            assert(appended@[so_far.len() as int] == j);
                        }
                    }
                    assert forall|i: int| 0 <= i < existing@.len() implies match #[trigger] replaced@[i] {
                        Some(j) => {
                            &&& j < from + 1
                            &&& takes_place(existing@, source@, i, j as int)
                            &&& forall|other: int|
                                j < other < from + 1 ==> !takes_place(
                                    existing@,
                                    source@,
                                    i,
                                    other,
                                )
                        },
                        None => forall|j: int|
                            0 <= j < from + 1 ==> !takes_place(existing@, source@, i, j),
                    } by {
                        assert(!existing@[i].eq_spec(&source@[from as int]));
                    }
                },
            }
        }
        from += 1;
    }
    KeyedPlan { replaced, appended }
}

} // verus!
