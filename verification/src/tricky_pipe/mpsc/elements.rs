//! The elements of a channel, on the heap or in place.
use vstd::prelude::*;

verus! {

/// Storage for the messages of a channel: a fixed number of elements, each of which
/// may hold a message.
pub trait Elements<T>: Sized {
    /// The elements.
    spec fn contents(&self) -> Seq<Option<T>>;

    /// Puts what is in `slot` into an element, and what was in the element into
    /// `slot`.
    fn exchange(&mut self, i: usize, slot: &mut Option<T>)
        requires
            i < old(self).contents().len(),
        ensures
            final(self).contents() == old(self).contents().update(i as int, *old(slot)),
            *final(slot) == old(self).contents()[i as int],
    ;
}

impl<T> Elements<T> for Vec<Option<T>> {
    open spec fn contents(&self) -> Seq<Option<T>> {
        self@
    }

    fn exchange(&mut self, i: usize, slot: &mut Option<T>) {
        self.set_and_swap(i, slot);
    }
}

impl<T, const N: usize> Elements<T> for [Option<T>; N] {
    open spec fn contents(&self) -> Seq<Option<T>> {
        self@
    }

    fn exchange(&mut self, i: usize, slot: &mut Option<T>) {
        core::mem::swap(&mut self[i], slot);
    }
}

} // verus!
