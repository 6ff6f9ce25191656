//! Functions over the items of a list as they stand.

use vstd::prelude::*;

verus! {

/// What `f` makes of each item together with its position, in order.
pub fn enumerate_map<A, U, F>(items: &[A], f: F) -> (mapped: Vec<U>) where F: Fn(usize, &A) -> U
    requires
        forall|i: int|
            0 <= i < items@.len() ==> call_requires(f, (i as usize, &#[trigger] items@[i])),
    ensures
        mapped@.len() == items@.len(),
        forall|i: int|
            0 <= i < items@.len() ==> call_ensures(
                f,
                (i as usize, &items@[i]),
                #[trigger] mapped@[i],
            ),
{
    let mut mapped: Vec<U> = Vec::new();
    let mut index: usize = 0;
    while index < items.len()
        invariant
            index <= items@.len(),
            mapped@.len() == index,
            forall|i: int|
                0 <= i < items@.len() ==> call_requires(f, (i as usize, &#[trigger] items@[i])),
            forall|i: int|
                0 <= i < index ==> call_ensures(
                    f,
                    (i as usize, &items@[i]),
                    #[trigger] mapped@[i],
                ),
        decreases items@.len() - index,
    {
        mapped.push(f(index, &items[index]));
        index += 1;
    }
    mapped
}

} // verus!
