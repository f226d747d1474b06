//! Reading the value behind a handle.

use std::sync::Arc;
use vstd::prelude::*;

verus! {

/// A way to read a value that lives behind a handle: a shared-owning
/// handle, a plain reference or a non-owning borrow.
pub trait Handle {
    /// The type of the value behind the handle.
    type Target;

    /// The value behind the handle.
    spec fn target(&self) -> Self::Target;

    /// A reference to the value behind the handle.
    fn get(&self) -> (r: &Self::Target)
        ensures
            *r == self.target(),
    ;
}

impl<T> Handle for Arc<T> {
    type Target = T;

    open spec fn target(&self) -> T {
        **self
    }

    fn get(&self) -> (r: &T) {
        &**self
    }
}

impl<'a, T> Handle for &'a T {
    type Target = T;

    open spec fn target(&self) -> T {
        **self
    }

    fn get(&self) -> (r: &T) {
        &**self
    }
}

} // verus!
