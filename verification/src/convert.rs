//! Conversions into `NodeOrToken` from the forms in which a green node or
//! token is held: shared, borrowed, or borrowed without owning.

use crate::arc_borrow::ArcBorrow;
use crate::green::{GreenNode, GreenToken};
use crate::node_or_token::NodeOrToken;
use std::sync::Arc;
use vstd::prelude::*;
use vstd::std_specs::convert::FromSpecImpl;

verus! {

/// A shared node as an element: the node variant over the same handle.
impl From<Arc<GreenNode>> for NodeOrToken<Arc<GreenNode>, Arc<GreenToken>> {
    fn from(this: Arc<GreenNode>) -> (r: Self) {
        NodeOrToken::Node(this)
    }
}

impl FromSpecImpl<Arc<GreenNode>> for NodeOrToken<Arc<GreenNode>, Arc<GreenToken>> {
    open spec fn obeys_from_spec() -> bool {
        true
    }

    open spec fn from_spec(this: Arc<GreenNode>) -> Self {
        NodeOrToken::Node(this)
    }
}

/// A shared token as an element: the token variant over the same handle.
impl From<Arc<GreenToken>> for NodeOrToken<Arc<GreenNode>, Arc<GreenToken>> {
    fn from(this: Arc<GreenToken>) -> (r: Self) {
        NodeOrToken::Token(this)
    }
}

impl FromSpecImpl<Arc<GreenToken>> for NodeOrToken<Arc<GreenNode>, Arc<GreenToken>> {
    open spec fn obeys_from_spec() -> bool {
        true
    }

    open spec fn from_spec(this: Arc<GreenToken>) -> Self {
        NodeOrToken::Token(this)
    }
}

/// A borrowed node as a borrowed element.
impl<'a> From<&'a GreenNode> for NodeOrToken<&'a GreenNode, &'a GreenToken> {
    fn from(this: &'a GreenNode) -> (r: Self) {
        NodeOrToken::Node(this)
    }
}

impl<'a> FromSpecImpl<&'a GreenNode> for NodeOrToken<&'a GreenNode, &'a GreenToken> {
    open spec fn obeys_from_spec() -> bool {
        true
    }

    open spec fn from_spec(this: &'a GreenNode) -> Self {
        NodeOrToken::Node(this)
    }
}

/// A borrowed token as a borrowed element.
impl<'a> From<&'a GreenToken> for NodeOrToken<&'a GreenNode, &'a GreenToken> {
    fn from(this: &'a GreenToken) -> (r: Self) {
        NodeOrToken::Token(this)
    }
}

impl<'a> FromSpecImpl<&'a GreenToken> for NodeOrToken<&'a GreenNode, &'a GreenToken> {
    open spec fn obeys_from_spec() -> bool {
        true
    }

    open spec fn from_spec(this: &'a GreenToken) -> Self {
        NodeOrToken::Token(this)
    }
}

/// A borrowed element, read through its shared handle: the same variant
/// over a reference to the value behind the handle.
impl<'a> From<&'a NodeOrToken<Arc<GreenNode>, Arc<GreenToken>>> for NodeOrToken<
    &'a GreenNode,
    &'a GreenToken,
> {
    fn from(this: &'a NodeOrToken<Arc<GreenNode>, Arc<GreenToken>>) -> (r: Self) {
        this.as_deref()
    }
}

impl<'a> FromSpecImpl<&'a NodeOrToken<Arc<GreenNode>, Arc<GreenToken>>> for NodeOrToken<
    &'a GreenNode,
    &'a GreenToken,
> {
    open spec fn obeys_from_spec() -> bool {
        true
    }

    open spec fn from_spec(this: &'a NodeOrToken<Arc<GreenNode>, Arc<GreenToken>>) -> Self {
        this.as_deref_spec()
    }
}

/// A borrowed handle to a node, read through to the node.
impl<'a> From<&'a Arc<GreenNode>> for NodeOrToken<&'a GreenNode, &'a GreenToken> {
    fn from(this: &'a Arc<GreenNode>) -> (r: Self) {
        NodeOrToken::Node(&**this)
    }
}

impl<'a> FromSpecImpl<&'a Arc<GreenNode>> for NodeOrToken<&'a GreenNode, &'a GreenToken> {
    open spec fn obeys_from_spec() -> bool {
        true
    }

    open spec fn from_spec(this: &'a Arc<GreenNode>) -> Self {
        NodeOrToken::Node(&**this)
    }
}

/// A borrowed handle to a token, read through to the token.
impl<'a> From<&'a Arc<GreenToken>> for NodeOrToken<&'a GreenNode, &'a GreenToken> {
    fn from(this: &'a Arc<GreenToken>) -> (r: Self) {
        NodeOrToken::Token(&**this)
    }
}

impl<'a> FromSpecImpl<&'a Arc<GreenToken>> for NodeOrToken<&'a GreenNode, &'a GreenToken> {
    open spec fn obeys_from_spec() -> bool {
        true
    }

    open spec fn from_spec(this: &'a Arc<GreenToken>) -> Self {
        NodeOrToken::Token(&**this)
    }
}

/// A non-owning borrow of a node, downgraded to a plain reference.
impl<'a> From<ArcBorrow<'a, GreenNode>> for NodeOrToken<&'a GreenNode, &'a GreenToken> {
    fn from(this: ArcBorrow<'a, GreenNode>) -> (r: Self) {
        NodeOrToken::Node(ArcBorrow::downgrade(this))
    }
}

impl<'a> FromSpecImpl<ArcBorrow<'a, GreenNode>> for NodeOrToken<&'a GreenNode, &'a GreenToken> {
    open spec fn obeys_from_spec() -> bool {
        true
    }

    open spec fn from_spec(this: ArcBorrow<'a, GreenNode>) -> Self {
        NodeOrToken::Node(&this.value())
    }
}

/// A non-owning borrow of a token, downgraded to a plain reference.
impl<'a> From<ArcBorrow<'a, GreenToken>> for NodeOrToken<&'a GreenNode, &'a GreenToken> {
    fn from(this: ArcBorrow<'a, GreenToken>) -> (r: Self) {
        NodeOrToken::Token(ArcBorrow::downgrade(this))
    }
}

impl<'a> FromSpecImpl<ArcBorrow<'a, GreenToken>> for NodeOrToken<&'a GreenNode, &'a GreenToken> {
    open spec fn obeys_from_spec() -> bool {
        true
    }

    open spec fn from_spec(this: ArcBorrow<'a, GreenToken>) -> Self {
        NodeOrToken::Token(&this.value())
    }
}

/// An element over non-owning borrows, each side downgraded to a plain
/// reference.
impl<'a> From<NodeOrToken<ArcBorrow<'a, GreenNode>, ArcBorrow<'a, GreenToken>>> for NodeOrToken<
    &'a GreenNode,
    &'a GreenToken,
> {
    fn from(this: NodeOrToken<ArcBorrow<'a, GreenNode>, ArcBorrow<'a, GreenToken>>) -> (r: Self) {
        this.map(ArcBorrow::downgrade, ArcBorrow::downgrade)
    }
}

impl<'a> FromSpecImpl<NodeOrToken<ArcBorrow<'a, GreenNode>, ArcBorrow<'a, GreenToken>>> for NodeOrToken<
    &'a GreenNode,
    &'a GreenToken,
> {
    open spec fn obeys_from_spec() -> bool {
        true
    }

    open spec fn from_spec(
        this: NodeOrToken<ArcBorrow<'a, GreenNode>, ArcBorrow<'a, GreenToken>>,
    ) -> Self {
        match this {
            NodeOrToken::Node(node) => NodeOrToken::Node(&node.value()),
            NodeOrToken::Token(token) => NodeOrToken::Token(&token.value()),
        }
    }
}

} // verus!
