//! Small helpers shared across the library.
use vstd::prelude::*;

verus! {

/// Take the value out of a mutable place, leaving the default there.
pub fn swap_and_move<T: Default>(val: &mut T) -> (r: T)
    ensures
        r == *old(val),
{
    let mut slot: T = Default::default();
    core::mem::swap(val, &mut slot);
    slot
}

/// One value or a list of them.
pub enum SingleOrList<T> {
    Data(T),
    List(Vec<T>),
}

} // verus!
