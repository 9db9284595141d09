//! A single-value container with plain get and set.
//!
//! Interior mutability — setting through a shared reference — needs
//! unsafe code that a verified crate cannot hold, so writing goes
//! through `&mut self` here; reading through `&self` stays.

use vstd::prelude::*;

verus! {

/// A container holding exactly one value.
pub struct Cell<T> {
    value: T,
}

impl<T> Cell<T> {
    /// The value currently held.
    pub closed spec fn inner(&self) -> T {
        self.value
    }

    /// Wraps a value.
    pub fn new(value: T) -> (r: Self)
        ensures
            r.inner() == value,
    {
        Cell { value }
    }

    /// Replaces the held value.
    pub fn set(&mut self, value: T)
        ensures
            final(self).inner() == value,
    {
        self.value = value;
    }

    /// A copy of the held value.
    pub fn get(&self) -> (r: T) where T: Copy
        ensures
            r == self.inner(),
    {
        self.value
    }
}

} // verus!
