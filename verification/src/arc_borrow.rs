//! A borrow of shared data that does not own it.

use crate::handle::Handle;
use std::sync::Arc;
use vstd::prelude::*;

verus! {

/// A borrow of a value that a shared-owning handle keeps alive.
///
/// It takes no part in the reference count: making one counts nothing up
/// and dropping one counts nothing down. The lifetime ties it to the
/// handle it was taken from, which it cannot outlive. It cannot be turned
/// into a shared-owning handle: for one more owner, clone the handle it
/// was taken from.
pub struct ArcBorrow<'a, T> {
    value: &'a T,
}

impl<'a, T> Clone for ArcBorrow<'a, T> {
    fn clone(&self) -> (r: Self)
        ensures
            r == *self,
    {
        ArcBorrow { value: self.value }
    }
}

impl<'a, T> Copy for ArcBorrow<'a, T> {

}

impl<'a, T> ArcBorrow<'a, T> {
    /// The value that the borrow reads.
    pub closed spec fn value(self) -> T {
        *self.value
    }

    /// Borrows the value behind `owner` for as long as `owner` is
    /// borrowed.
    pub fn new(owner: &'a Arc<T>) -> (r: ArcBorrow<'a, T>)
        ensures
            r.value() == **owner,
    {
        ArcBorrow { value: &**owner }
    }

    /// The borrow as a plain reference.
    pub fn downgrade(this: ArcBorrow<'a, T>) -> (r: &'a T)
        ensures
            *r == this.value(),
    {
        this.value
    }
}

impl<'a, T> Handle for ArcBorrow<'a, T> {
    type Target = T;

    open spec fn target(&self) -> T {
        self.value()
    }

    fn get(&self) -> (r: &T) {
        self.value
    }
}

} // verus!
