//! Decisions on a value that may be missing.

use vstd::prelude::*;
use vstd::std_specs::cmp::PartialEqSpec;

verus! {

/// Takes the held value out if it equals `value`, and leaves it where it
/// is otherwise.
pub fn take_if_value<T: PartialEq>(current: &mut Option<T>, value: &T) -> (taken: Option<T>)
    ensures
        match taken {
            Some(held) => *old(current) == Some(held) && *final(current) is None,
            None => *final(current) == *old(current),
        },
        T::obeys_eq_spec() ==> match *old(current) {
            Some(held) if held.eq_spec(value) => taken == Some(held) && *final(current) is None,
            _ => taken is None && *final(current) == *old(current),
        },
{
    let equal = match &*current {
        Some(held) => *held == *value,
        None => false,
    };
    if equal {
        current.take()
    } else {
        None
    }
}

/// What `f` makes of the value that is there, or else a copy of `default`:
/// the default stands in both for a missing value and for one of which `f`
/// makes nothing.
pub fn and_then_some_or<T, U, F>(value: &Option<T>, f: &mut F, default: &U) -> (mapped: U) where
    F: FnMut(&T) -> Option<U>,
    U: Clone,

    requires
        *value matches Some(held) ==> call_requires(*old(f), (&held,)),
    ensures
        match *value {
            Some(held) => exists|made: Option<U>|
                {
                    &&& call_ensures(*old(f), (&held,), made)
                    &&& match made {
                        Some(to) => mapped == to,
                        None => cloned(*default, mapped),
                    }
                },
            None => cloned(*default, mapped),
        },
{
    let made = match value {
        Some(held) => f(held),
        None => None,
    };
    match made {
        Some(to) => to,
        None => default.clone(),
    }
}

} // verus!
