//! The kind tag of a tree element.

use vstd::prelude::*;

verus! {

/// Raw kind tag of an element of the tree.
///
/// The tag is opaque here: the grammar that builds a tree gives each value
/// its meaning. Two kinds are equal, and ordered, as their numbers are.
#[derive(Copy, Clone, Debug, Ord, PartialOrd, Eq, PartialEq, Hash, Structural)]
pub struct Kind(pub u16);

} // verus!
