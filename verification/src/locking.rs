//! A single-owner stand-in for a spinlock-guarded value.
//!
//! A spinlock would guard the value with an atomic flag, unsafe interior
//! mutability and a spin loop; none of that can stand in a verified
//! crate, and with a single owner none of it is needed: exclusive access
//! is what `&mut` already grants.  What remains is the shape of the
//! interface — construct with a value, then reach it for reading and
//! writing — with the access fully specified.

use vstd::prelude::*;

verus! {

/// A value reached only through explicit lock-shaped access.
pub struct Mutex<T> {
    value: T,
}

impl<T> Mutex<T> {
    /// The guarded value.
    pub closed spec fn inner(&self) -> T {
        self.value
    }

    /// Wraps a value.
    pub fn new(value: T) -> (r: Self)
        ensures
            r.inner() == value,
    {
        Mutex { value }
    }

    /// Exclusive access to the guarded value: what the caller leaves in
    /// the returned reference is what the lock guards afterwards.
    pub fn lock(&mut self) -> (r: &mut T)
        ensures
            *r == old(self).inner(),
            final(self).inner() == *final(r),
    {
        &mut self.value
    }

    /// Takes the guarded value back out.
    pub fn into_inner(self) -> (r: T)
        ensures
            r == self.inner(),
    {
        self.value
    }
}

} // verus!
