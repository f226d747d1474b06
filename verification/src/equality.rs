//! `==` on green elements and on cursors.

use crate::green::{GreenNode, GreenToken};
use crate::red::RedCursor;
use vstd::prelude::*;
use vstd::std_specs::cmp::PartialEqSpecImpl;

verus! {

/// Two tokens are equal when they are structurally equal: same kind, same
/// text.
impl PartialEq for GreenToken {
    fn eq(&self, other: &GreenToken) -> (r: bool) {
        self.same_tree(other)
    }
}

impl PartialEqSpecImpl for GreenToken {
    open spec fn obeys_eq_spec() -> bool {
        true
    }

    open spec fn eq_spec(&self, other: &GreenToken) -> bool {
        self@ == other@
    }
}

impl Eq for GreenToken {

}

/// Two nodes are equal when they are structurally equal: same kind, and
/// equal children in the same order.
impl PartialEq for GreenNode {
    fn eq(&self, other: &GreenNode) -> (r: bool) {
        self.same_tree(other)
    }
}

impl PartialEqSpecImpl for GreenNode {
    open spec fn obeys_eq_spec() -> bool {
        true
    }

    open spec fn eq_spec(&self, other: &GreenNode) -> bool {
        self@ == other@
    }
}

impl Eq for GreenNode {

}

/// Two cursors are equal when they are at the same place.
impl PartialEq for RedCursor {
    fn eq(&self, other: &RedCursor) -> (r: bool) {
        self.same_place_as(other)
    }
}

impl PartialEqSpecImpl for RedCursor {
    open spec fn obeys_eq_spec() -> bool {
        true
    }

    open spec fn eq_spec(&self, other: &RedCursor) -> bool {
        self.same_place(other)
    }
}

impl Eq for RedCursor {

}

} // verus!
