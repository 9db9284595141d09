//! An owned box around a single heap value.
//!
//! A hand-rolled box would rest on a raw pointer and a written-out
//! destructor, which a verified crate cannot hold; here the allocation
//! is the specified standard `Box`, and the interesting part — that the
//! stored value comes back out exactly as it went in — is in the
//! contracts.

use vstd::prelude::*;

verus! {

/// An owning handle to one heap-allocated value.
pub struct Boks<T> {
    contents: Box<T>,
}

impl<T> Boks<T> {
    /// The value held.
    pub closed spec fn inner(&self) -> T {
        *self.contents
    }

    /// Moves a value to the heap.
    pub fn ny(value: T) -> (r: Self)
        ensures
            r.inner() == value,
    {
        Boks { contents: Box::new(value) }
    }

    /// A reference to the held value.
    pub fn get(&self) -> (r: &T)
        ensures
            *r == self.inner(),
    {
        &self.contents
    }

    /// Exclusive access to the held value: what the caller leaves in the
    /// returned reference is what the box holds afterwards.
    pub fn get_mut(&mut self) -> (r: &mut T)
        ensures
            *r == old(self).inner(),
            final(self).inner() == *final(r),
    {
        &mut self.contents
    }

    /// Takes the held value back out.
    pub fn into_inner(self) -> (r: T)
        ensures
            r == self.inner(),
    {
        *self.contents
    }
}

} // verus!
