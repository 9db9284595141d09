//! A shared-ownership pointer for a single thread.
//!
//! Counting references by hand takes a raw pointer and unsafe code;
//! here the allocation and the count are the standard library's `Rc`,
//! behind one trusted call for cloning, and the contracts state what
//! matters: every handle reads the same value.

use vstd::prelude::*;

verus! {

/// A cloneable handle to one shared, immutable value.
pub struct Rc<T> {
    inner: std::rc::Rc<T>,
}

/// Relies on std::rc::Rc::clone: the new handle refers to the very same
/// value as the argument.
#[verifier::external_body]
fn share_rc<T>(a: &std::rc::Rc<T>) -> (r: std::rc::Rc<T>)
    ensures
        r == *a,
{
    std::rc::Rc::clone(a)
}

impl<T> Rc<T> {
    /// The shared value.
    pub closed spec fn inner(&self) -> T {
        *self.inner
    }

    /// Moves a value into fresh shared storage.
    pub fn new(value: T) -> (r: Self)
        ensures
            r.inner() == value,
    {
        Rc { inner: std::rc::Rc::new(value) }
    }

    /// A reference to the shared value.
    pub fn get(&self) -> (r: &T)
        ensures
            *r == self.inner(),
    {
        &self.inner
    }
}

impl<T> Clone for Rc<T> {
    /// Another handle to the same value.
    fn clone(&self) -> (r: Self)
        ensures
            r.inner() == self.inner(),
    {
        Rc { inner: share_rc(&self.inner) }
    }
}

} // verus!
