//! The union of node and token that every layer of the tree uses.

use crate::green::{GreenNode, GreenToken, TextSize};
use crate::handle::Handle;
use crate::kind::Kind;
use vstd::prelude::*;

verus! {

/// Either an interior node or a leaf token.
///
/// The two payload types are free, so the same shape serves for owned
/// handles, for plain references and for non-owning borrows.
#[allow(missing_docs)]
#[derive(Debug, Copy, Clone, Eq, PartialEq, Hash)]
pub enum NodeOrToken<Node, Token> {
    Node(Node),
    Token(Token),
}

impl<Node, Token> NodeOrToken<Node, Token> {
    /// The node payload, if this is a node.
    pub open spec fn node(self) -> Option<Node> {
        match self {
            NodeOrToken::Node(node) => Some(node),
            NodeOrToken::Token(_) => None,
        }
    }

    /// The token payload, if this is a token.
    pub open spec fn token(self) -> Option<Token> {
        match self {
            NodeOrToken::Node(_) => None,
            NodeOrToken::Token(token) => Some(token),
        }
    }

    /// What `map` may return for `self` under the transforms `n` and `t`:
    /// the same variant, holding an outcome of the transform for that side.
    pub open spec fn maps_to<N, T, F: FnOnce(Node) -> N, G: FnOnce(Token) -> T>(
        self,
        n: F,
        t: G,
        out: NodeOrToken<N, T>,
    ) -> bool {
        match self {
            NodeOrToken::Node(node) => out matches NodeOrToken::Node(o) && n.ensures((node,), o),
            NodeOrToken::Token(token) => out matches NodeOrToken::Token(o) && t.ensures(
                (token,),
                o,
            ),
        }
    }

    /// The node payload, or none where this is a token.
    pub fn into_node(self) -> (r: Option<Node>)
        ensures
            r == self.node(),
    {
        let keep = |node: Node| -> (o: Option<Node>)
            ensures
                o == Some(node),
            {
                Some(node)
            };
        let skip = |_token: Token| -> (o: Option<Node>)
            ensures
                o is None,
            {
                None
            };
        self.map(keep, skip).flatten()
    }

    /// A reference to the node payload, or none where this is a token.
    pub fn as_node(&self) -> (r: Option<&Node>)
        ensures
            r == self.as_ref_spec().node(),
    {
        self.as_ref().into_node()
    }

    /// Whether this is a node.
    pub fn is_node(&self) -> (r: bool)
        ensures
            r == (self is Node),
    {
        self.as_node().is_some()
    }

    /// The node payload. Calling this on a token is a wrong-variant
    /// contract violation: the precondition rules it out.
    pub fn unwrap_node(self) -> (r: Node)
        requires
            self is Node,
        ensures
            self == NodeOrToken::<Node, Token>::Node(r),
    {
        self.into_node().expect("called `unwrap_node` on token")
    }

    /// The token payload, or none where this is a node.
    pub fn into_token(self) -> (r: Option<Token>)
        ensures
            r == self.token(),
    {
        let skip = |_node: Node| -> (o: Option<Token>)
            ensures
                o is None,
            {
                None
            };
        let keep = |token: Token| -> (o: Option<Token>)
            ensures
                o == Some(token),
            {
                Some(token)
            };
        self.map(skip, keep).flatten()
    }

    /// A reference to the token payload, or none where this is a node.
    pub fn as_token(&self) -> (r: Option<&Token>)
        ensures
            r == self.as_ref_spec().token(),
    {
        self.as_ref().into_token()
    }

    /// Whether this is a token.
    pub fn is_token(&self) -> (r: bool)
        ensures
            r == (self is Token),
    {
        self.as_token().is_some()
    }

    /// The token payload. Calling this on a node is a wrong-variant
    /// contract violation: the precondition rules it out.
    pub fn unwrap_token(self) -> (r: Token)
        requires
            self is Token,
        ensures
            self == NodeOrToken::<Node, Token>::Token(r),
    {
        self.into_token().expect("called `unwrap_token` on node")
    }
}

impl<Node, Token> NodeOrToken<Node, Token> {
    /// The same variant over borrowed payloads.
    pub open spec fn as_ref_spec(&self) -> NodeOrToken<&Node, &Token> {
        match *self {
            NodeOrToken::Node(node) => NodeOrToken::Node(&node),
            NodeOrToken::Token(token) => NodeOrToken::Token(&token),
        }
    }

    /// The same variant over references to the payloads. Nothing is
    /// consumed or cloned.
    pub fn as_ref(&self) -> (r: NodeOrToken<&Node, &Token>)
        ensures
            r == self.as_ref_spec(),
    {
        match *self {
            NodeOrToken::Node(ref node) => NodeOrToken::Node(node),
            NodeOrToken::Token(ref token) => NodeOrToken::Token(token),
        }
    }

    /// Applies `n` to a node payload or `t` to a token payload and keeps
    /// the variant.
    pub fn map<N, T, F: FnOnce(Node) -> N, G: FnOnce(Token) -> T>(self, n: F, t: G) -> (r:
        NodeOrToken<N, T>)
        requires
            self matches NodeOrToken::Node(node) ==> n.requires((node,)),
            self matches NodeOrToken::Token(token) ==> t.requires((token,)),
        ensures
            self.maps_to(n, t, r),
    {
        match self {
            NodeOrToken::Node(node) => NodeOrToken::Node(n(node)),
            NodeOrToken::Token(token) => NodeOrToken::Token(t(token)),
        }
    }
}

impl<Node: Handle, Token: Handle> NodeOrToken<Node, Token> {
    /// The same variant over references to the values behind the
    /// payloads.
    pub open spec fn as_deref_spec(&self) -> NodeOrToken<&Node::Target, &Token::Target> {
        match *self {
            NodeOrToken::Node(node) => NodeOrToken::Node(&node.target()),
            NodeOrToken::Token(token) => NodeOrToken::Token(&token.target()),
        }
    }

    /// Reads through the payload, whichever it is, to the value behind
    /// it.
    pub fn as_deref(&self) -> (r: NodeOrToken<&Node::Target, &Token::Target>)
        ensures
            r == self.as_deref_spec(),
    {
        self.as_ref().map(Node::get, Token::get)
    }
}

impl<Node: Handle<Target = GreenNode>, Token: Handle<Target = GreenToken>> NodeOrToken<
    Node,
    Token,
> {
    /// The kind of the green element behind the payload.
    pub open spec fn spec_kind(&self) -> Kind {
        match *self {
            NodeOrToken::Node(node) => node.target().spec_kind(),
            NodeOrToken::Token(token) => token.target().spec_kind(),
        }
    }

    /// The text length of the green element behind the payload.
    pub open spec fn spec_len(&self) -> nat {
        match *self {
            NodeOrToken::Node(node) => node.target().spec_len(),
            NodeOrToken::Token(token) => token.target().spec_len(),
        }
    }

    /// The kind of the element, node or token.
    pub fn kind(&self) -> (r: Kind)
        ensures
            r == self.spec_kind(),
    {
        self.as_deref().map(GreenNode::kind, GreenToken::kind).flatten()
    }

    /// The text length of the element, node or token.
    pub fn len(&self) -> (r: TextSize)
        ensures
            r == self.spec_len(),
    {
        self.as_deref().map(GreenNode::len, GreenToken::len).flatten()
    }
}

impl<T> NodeOrToken<T, T> {
    /// The payload, whichever side holds it.
    pub open spec fn flattened(self) -> T {
        match self {
            NodeOrToken::Node(node) => node,
            NodeOrToken::Token(token) => token,
        }
    }

    /// Collapses the two sides, which hold the same type, into the
    /// payload.
    pub fn flatten(self) -> (r: T)
        ensures
            r == self.flattened(),
    {
        match self {
            NodeOrToken::Node(node) => node,
            NodeOrToken::Token(token) => token,
        }
    }
}

impl<'a, Node, Token> NodeOrToken<&'a Node, &'a Token> {
    /// The same variant over the values that the references read: the
    /// way back from `as_ref`.
    pub open spec fn deref_spec(self) -> NodeOrToken<Node, Token> {
        match self {
            NodeOrToken::Node(node) => NodeOrToken::Node(*node),
            NodeOrToken::Token(token) => NodeOrToken::Token(*token),
        }
    }
}

/// Borrowing keeps the variant and the payload: from the borrowed form
/// the way back gives the value that was borrowed.
pub proof fn lemma_as_ref_round_trip<Node, Token>(x: NodeOrToken<Node, Token>)
    ensures
        x.as_ref_spec().deref_spec() == x,
        x.as_ref_spec() is Node <==> x is Node,
        x.as_ref_spec() is Token <==> x is Token,
{
}

/// Reading through the handles keeps the variant, and reads the value
/// behind the payload that is there.
pub proof fn lemma_as_deref_round_trip<Node: Handle, Token: Handle>(x: NodeOrToken<Node, Token>)
    ensures
        x.as_deref_spec() is Node <==> x is Node,
        x.as_deref_spec() is Token <==> x is Token,
        x matches NodeOrToken::Node(node) ==> x.as_deref_spec().deref_spec()
            == NodeOrToken::<Node::Target, Token::Target>::Node(node.target()),
        x matches NodeOrToken::Token(token) ==> x.as_deref_spec().deref_spec()
            == NodeOrToken::<Node::Target, Token::Target>::Token(token.target()),
{
}

/// `map` keeps the variant, whatever the transforms are.
pub proof fn lemma_map_keeps_variant<Node, Token, N, T, F: FnOnce(Node) -> N, G: FnOnce(Token) -> T>(
    x: NodeOrToken<Node, Token>,
    n: F,
    t: G,
    out: NodeOrToken<N, T>,
)
    requires
        x.maps_to(n, t, out),
    ensures
        out is Node <==> x is Node,
        out is Token <==> x is Token,
{
}

/// `map` with transforms that hand their argument back changes nothing.
pub proof fn lemma_map_identity<Node, Token, F: FnOnce(Node) -> Node, G: FnOnce(Token) -> Token>(
    x: NodeOrToken<Node, Token>,
    n: F,
    t: G,
    out: NodeOrToken<Node, Token>,
)
    requires
        x.maps_to(n, t, out),
        forall|a: Node, b: Node| n.ensures((a,), b) ==> a == b,
        forall|a: Token, b: Token| t.ensures((a,), b) ==> a == b,
    ensures
        out == x,
{
}

} // verus!
