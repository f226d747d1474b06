//! The green tree: immutable tokens and nodes, their mathematical value,
//! their lengths and their structural fingerprints.

use crate::kind::Kind;
use crate::node_or_token::NodeOrToken;
use std::sync::Arc;
use vstd::prelude::*;
use vstd::utf8::{encode_utf8, encode_utf8_decode_utf8};

verus! {

/// A length or an absolute position in the text, in bytes.
pub type TextSize = u32;

/// A child of a green node: a shared handle to a node or to a token.
pub type GreenElement = NodeOrToken<Arc<GreenNode>, Arc<GreenToken>>;

/// The mathematical value of a green element: kinds, text and shape,
/// with no allocation, cached length or cached fingerprint in it.
///
/// Two green elements are structurally equal when their trees are equal.
pub enum Tree {
    Token { kind: Kind, text: Seq<char> },
    Node { kind: Kind, children: Seq<Tree> },
}

/// Seed of every fingerprint.
pub const FINGERPRINT_SEED: u64 = 0xcbf2_9ce4_8422_2325;

/// Multiplier of the mixing step.
pub const FINGERPRINT_PRIME: u64 = 0x0000_0100_0000_01b3;

/// Mixed in first for a token.
pub const TOKEN_TAG: u64 = 1;

/// Mixed in first for a node.
pub const NODE_TAG: u64 = 2;

/// One mixing step: fold `x` into the running fingerprint `h`.
pub open spec fn mixed(h: u64, x: u64) -> u64 {
    (h ^ x).wrapping_mul(FINGERPRINT_PRIME)
}

/// The first `n` bytes of `bytes` mixed into `h`, in order.
pub open spec fn mixed_bytes(h: u64, bytes: Seq<u8>, n: int) -> u64
    decreases n,
{
    if 0 < n <= bytes.len() {
        mixed(mixed_bytes(h, bytes, n - 1), bytes[n - 1] as u64)
    } else {
        h
    }
}

/// The fingerprints of the first `n` trees of `trees` mixed into `h`, in
/// order.
pub open spec fn mixed_trees(h: u64, trees: Seq<Tree>, n: int) -> u64
    decreases trees, n,
{
    if 0 < n <= trees.len() {
        mixed(mixed_trees(h, trees, n - 1), trees[n - 1].fingerprint())
    } else {
        h
    }
}

/// The text lengths of the first `n` trees of `trees`, added up.
pub open spec fn trees_len(trees: Seq<Tree>, n: int) -> nat
    decreases trees, n,
{
    if 0 < n <= trees.len() {
        trees_len(trees, n - 1) + trees[n - 1].text_len()
    } else {
        0
    }
}

impl Tree {
    /// The kind at the root of the tree.
    pub open spec fn kind(self) -> Kind {
        match self {
            Tree::Token { kind, .. } => kind,
            Tree::Node { kind, .. } => kind,
        }
    }

    /// The number of bytes of text under the tree: the byte length of a
    /// token's text, the sum over the children for a node.
    pub open spec fn text_len(self) -> nat
        decreases self,
    {
        match self {
            Tree::Token { text, .. } => encode_utf8(text).len(),
            Tree::Node { children, .. } => trees_len(children, children.len() as int),
        }
    }

    /// The structural fingerprint: for a token a function of its kind and
    /// the bytes of its text, for a node a function of its kind and the
    /// fingerprints of its children in order.
    #[verifier::opaque]
    pub open spec fn fingerprint(self) -> u64
        decreases self,
    {
        match self {
            Tree::Token { kind, text } => mixed_bytes(
                mixed(mixed(FINGERPRINT_SEED, TOKEN_TAG), kind.0 as u64),
                encode_utf8(text),
                encode_utf8(text).len() as int,
            ),
            Tree::Node { kind, children } => mixed_trees(
                mixed(mixed(FINGERPRINT_SEED, NODE_TAG), kind.0 as u64),
                children,
                children.len() as int,
            ),
        }
    }
}

/// An immutable leaf: a kind and the text it covers.
#[derive(Debug)]
pub struct GreenToken {
    kind: Kind,
    hash: u64,
    text: String,
}

/// An immutable interior node: a kind, its children in order, and the
/// total text length under it, computed once when the node is made.
#[derive(Debug)]
pub struct GreenNode {
    kind: Kind,
    len: TextSize,
    hash: u64,
    children: Vec<GreenElement>,
}

/// The tree of a child.
pub open spec fn element_tree(e: GreenElement) -> Tree
    decreases e,
{
    match e {
        NodeOrToken::Node(node) => node.tree(),
        NodeOrToken::Token(token) => token.tree(),
    }
}

/// The trees of a sequence of children, in order.
pub open spec fn element_trees(s: Seq<GreenElement>) -> Seq<Tree>
    decreases s,
{
    Seq::new(
        s.len(),
        |i: int|
            if 0 <= i < s.len() {
                element_tree(s[i])
            } else {
                arbitrary()
            },
    )
}

/// The text length that a child reports.
pub open spec fn element_len(e: GreenElement) -> nat {
    match e {
        NodeOrToken::Node(node) => node.spec_len(),
        NodeOrToken::Token(token) => token.spec_len(),
    }
}

/// The kind of a child.
pub open spec fn element_kind(e: GreenElement) -> Kind {
    match e {
        NodeOrToken::Node(node) => node.spec_kind(),
        NodeOrToken::Token(token) => token.spec_kind(),
    }
}

/// The fingerprint that a child holds.
pub open spec fn element_fingerprint(e: GreenElement) -> u64 {
    match e {
        NodeOrToken::Node(node) => node.spec_fingerprint(),
        NodeOrToken::Token(token) => token.spec_fingerprint(),
    }
}

/// Whether a child is well formed, all the way down.
pub open spec fn element_wf(e: GreenElement) -> bool
    decreases e,
{
    match e {
        NodeOrToken::Node(node) => node.wf(),
        NodeOrToken::Token(token) => token.wf(),
    }
}

/// The lengths of the first `n` children of `s`, added up: where child
/// `n` starts, counted from the start of its parent.
pub open spec fn prefix_len(s: Seq<GreenElement>, n: int) -> nat
    decreases n,
{
    if 0 < n <= s.len() {
        prefix_len(s, n - 1) + element_len(s[n - 1])
    } else {
        0
    }
}

impl View for GreenToken {
    type V = Tree;

    open spec fn view(&self) -> Tree {
        self.tree()
    }
}

impl GreenToken {
    /// The token as a tree: its kind and its text.
    pub open spec fn tree(&self) -> Tree {
        Tree::Token { kind: self.spec_kind(), text: self.spec_text() }
    }

    /// The kind of the token.
    pub closed spec fn spec_kind(&self) -> Kind {
        self.kind
    }

    /// The text of the token.
    pub closed spec fn spec_text(&self) -> Seq<char> {
        self.text@
    }

    /// The fingerprint held in the token.
    pub closed spec fn spec_fingerprint(&self) -> u64 {
        self.hash
    }

    /// The byte length of the text.
    pub open spec fn spec_len(&self) -> nat {
        encode_utf8(self.spec_text()).len()
    }

    /// The length fits a `TextSize` and the held fingerprint is that of
    /// the token's tree.
    #[verifier::type_invariant]
    pub open spec fn wf(&self) -> bool {
        &&& self.spec_len() <= TextSize::MAX
        &&& self.spec_fingerprint() == self.tree().fingerprint()
    }
}

impl View for GreenNode {
    type V = Tree;

    open spec fn view(&self) -> Tree {
        self.tree()
    }
}

impl GreenNode {
    /// The node as a tree: its kind and the trees of its children.
    pub open spec fn tree(&self) -> Tree
        decreases self,
    {
        Tree::Node { kind: self.spec_kind(), children: element_trees(self.spec_children()) }
    }

    /// The kind of the node.
    pub closed spec fn spec_kind(&self) -> Kind {
        self.kind
    }

    /// The children, in order.
    pub closed spec fn spec_children(&self) -> Seq<GreenElement> {
        self.children@
    }

    /// The length held in the node.
    pub closed spec fn spec_len(&self) -> nat {
        self.len as nat
    }

    /// The fingerprint held in the node.
    pub closed spec fn spec_fingerprint(&self) -> u64 {
        self.hash
    }

    /// The held length is the sum of the children's lengths, the held
    /// fingerprint is that of the node's tree, and every child is well
    /// formed in turn.
    #[verifier::type_invariant]
    pub open spec fn wf(&self) -> bool
        decreases self,
    {
        &&& self.spec_len() == prefix_len(self.spec_children(), self.spec_children().len() as int)
        &&& self.spec_len() <= TextSize::MAX
        &&& self.spec_fingerprint() == self.tree().fingerprint()
        &&& forall|i: int|
            0 <= i < self.spec_children().len() ==> element_wf(#[trigger] self.spec_children()[i])
    }
}

/// `Arc::clone`: one more handle to the allocation that `a` points to. The
/// new handle reads the same value, which is all that the contract says.
#[verifier::external_body]
pub(crate) fn share<T>(a: &Arc<T>) -> (r: Arc<T>)
    ensures
        r == *a,
{
    Arc::clone(a)
}

/// `Arc::ptr_eq`: whether two handles point to one allocation. Two handles
/// to one allocation read the same value; of two allocations nothing is
/// claimed.
#[verifier::external_body]
pub(crate) fn same_allocation<T>(a: &Arc<T>, b: &Arc<T>) -> (r: bool)
    ensures
        r ==> *a == *b,
{
    Arc::ptr_eq(a, b)
}

/// One mixing step of the fingerprint.
pub(crate) fn mix(h: u64, x: u64) -> (r: u64)
    ensures
        r == mixed(h, x),
{
    (h ^ x).wrapping_mul(FINGERPRINT_PRIME)
}

/// The fingerprint of the token of kind `kind` with text `text`.
pub fn token_fingerprint(kind: Kind, text: &str) -> (r: u64)
    ensures
        r == (Tree::Token { kind, text: text@ }).fingerprint(),
{
    reveal(Tree::fingerprint);
    let bytes = text.as_bytes();
    let mut h = mix(mix(FINGERPRINT_SEED, TOKEN_TAG), kind.0 as u64);
    let mut i: usize = 0;
    while i < bytes.len()
        invariant
            i <= bytes.len(),
            bytes@ == encode_utf8(text@),
            h == mixed_bytes(
                mixed(mixed(FINGERPRINT_SEED, TOKEN_TAG), kind.0 as u64),
                bytes@,
                i as int,
            ),
        decreases bytes.len() - i,
    {
        h = mix(h, bytes[i] as u64);
        i += 1;
    }
    h
}

/// Whether two texts are equal, byte for byte.
pub fn same_text(a: &str, b: &str) -> (r: bool)
    ensures
        r == (a@ == b@),
{
    let x = a.as_bytes();
    let y = b.as_bytes();
    proof {
        encode_utf8_decode_utf8(a@);
        encode_utf8_decode_utf8(b@);
    }
    if x.len() != y.len() {
        return false;
    }
    let mut i: usize = 0;
    while i < x.len()
        invariant
            i <= x.len(),
            x.len() == y.len(),
            x@ == encode_utf8(a@),
            y@ == encode_utf8(b@),
            forall|j: int| 0 <= j < i ==> x@[j] == y@[j],
        decreases x.len() - i,
    {
        if x[i] != y[i] {
            return false;
        }
        i += 1;
    }
    assert(x@ =~= y@);
    true
}

impl GreenToken {
    /// Allocates nothing shared yet: makes the token value that an
    /// interner then puts behind a handle.
    pub(crate) fn new(kind: Kind, text: String) -> (r: GreenToken)
        requires
            encode_utf8(text@).len() <= TextSize::MAX,
        ensures
            r@ == (Tree::Token { kind, text: text@ }),
            r.wf(),
    {
        let hash = token_fingerprint(kind, text.as_str());
        GreenToken { kind, hash, text }
    }

    /// The kind of the token.
    pub fn kind(&self) -> (r: Kind)
        ensures
            r == self.spec_kind(),
    {
        self.kind
    }

    /// The text of the token.
    pub fn text(&self) -> (r: &str)
        ensures
            r@ == self.spec_text(),
    {
        self.text.as_str()
    }

    /// The length of the token: the byte length of its text.
    pub fn len(&self) -> (r: TextSize)
        ensures
            r == self.spec_len(),
            r == self@.text_len(),
    {
        proof {
            use_type_invariant(self);
        }
        self.text.as_str().len() as TextSize
    }

    /// The structural fingerprint of the token.
    pub fn fingerprint(&self) -> (r: u64)
        ensures
            r == self.spec_fingerprint(),
            r == self@.fingerprint(),
    {
        proof {
            use_type_invariant(self);
        }
        self.hash
    }

    /// Whether the token has kind `kind` and text `text`.
    pub fn matches(&self, kind: Kind, text: &str) -> (r: bool)
        ensures
            r == (self@ == Tree::Token { kind, text: text@ }),
    {
        self.kind == kind && same_text(self.text.as_str(), text)
    }
}

/// The text length of a child.
pub fn len_of(e: &GreenElement) -> (r: TextSize)
    ensures
        r == element_len(*e),
        element_wf(*e),
{
    match e {
        NodeOrToken::Node(node) => {
            proof {
                use_type_invariant(&**node);
            }
            node.len()
        },
        NodeOrToken::Token(token) => {
            proof {
                use_type_invariant(&**token);
            }
            token.len()
        },
    }
}

/// The structural fingerprint of a child.
pub fn fingerprint_of(e: &GreenElement) -> (r: u64)
    ensures
        r == element_fingerprint(*e),
        r == element_tree(*e).fingerprint(),
{
    match e {
        NodeOrToken::Node(node) => node.fingerprint(),
        NodeOrToken::Token(token) => token.fingerprint(),
    }
}

/// One more handle to the allocation of a child.
pub fn share_element(e: &GreenElement) -> (r: GreenElement)
    ensures
        r == *e,
{
    match e {
        NodeOrToken::Node(node) => NodeOrToken::Node(share(node)),
        NodeOrToken::Token(token) => NodeOrToken::Token(share(token)),
    }
}

/// The fingerprint of the node of kind `kind` over `children`.
pub fn node_fingerprint(kind: Kind, children: &Vec<GreenElement>) -> (r: u64)
    ensures
        r == (Tree::Node { kind, children: element_trees(children@) }).fingerprint(),
{
    reveal(Tree::fingerprint);
    let ghost seed = mixed(mixed(FINGERPRINT_SEED, NODE_TAG), kind.0 as u64);
    let mut h = mix(mix(FINGERPRINT_SEED, NODE_TAG), kind.0 as u64);
    let mut i: usize = 0;
    while i < children.len()
        invariant
            i <= children.len(),
            seed == mixed(mixed(FINGERPRINT_SEED, NODE_TAG), kind.0 as u64),
            h == mixed_trees(seed, element_trees(children@), i as int),
        decreases children.len() - i,
    {
        proof {
            reveal(Tree::fingerprint);
            let trees = element_trees(children@);
            assert(mixed_trees(seed, trees, i as int + 1) == mixed(
                mixed_trees(seed, trees, i as int),
                trees[i as int].fingerprint(),
            ));
        }
        h = mix(h, fingerprint_of(&children[i]));
        i += 1;
    }
    h
}

/// The text lengths of `children` added up, or `None` where the sum does
/// not fit a `TextSize`.
pub fn total_len(children: &Vec<GreenElement>) -> (r: Option<TextSize>)
    ensures
        match r {
            Some(len) => len == prefix_len(children@, children@.len() as int),
            None => prefix_len(children@, children@.len() as int) > TextSize::MAX,
        },
        forall|i: int| 0 <= i < children@.len() ==> element_wf(#[trigger] children@[i]),
{
    let mut len: TextSize = 0;
    let mut overflow = false;
    let mut i: usize = 0;
    while i < children.len()
        invariant
            i <= children.len(),
            !overflow ==> len == prefix_len(children@, i as int),
            overflow ==> prefix_len(children@, i as int) > TextSize::MAX,
            forall|j: int| 0 <= j < i ==> element_wf(#[trigger] children@[j]),
        decreases children.len() - i,
    {
        let child_len = len_of(&children[i]);
        if overflow || child_len > TextSize::MAX - len {
            overflow = true;
        } else {
            len = len + child_len;
        }
        i += 1;
    }
    if overflow {
        None
    } else {
        Some(len)
    }
}

/// A longer prefix is at least as long.
pub proof fn lemma_prefix_len_grows(s: Seq<GreenElement>, m: int, n: int)
    requires
        0 <= m <= n <= s.len(),
    ensures
        prefix_len(s, m) <= prefix_len(s, n),
    decreases n - m,
{
    if m < n {
        lemma_prefix_len_grows(s, m, n - 1);
    }
}

impl GreenNode {
    /// Makes the node value that an interner then puts behind a handle.
    pub(crate) fn new(kind: Kind, children: Vec<GreenElement>, len: TextSize) -> (r: GreenNode)
        requires
            len == prefix_len(children@, children@.len() as int),
            forall|i: int| 0 <= i < children@.len() ==> element_wf(#[trigger] children@[i]),
        ensures
            r@ == (Tree::Node { kind, children: element_trees(children@) }),
            r.spec_children() == children@,
            r.spec_kind() == kind,
            r.spec_len() == len,
            r.wf(),
    {
        let hash = node_fingerprint(kind, &children);
        GreenNode { kind, len, hash, children }
    }

    /// The kind of the node.
    pub fn kind(&self) -> (r: Kind)
        ensures
            r == self.spec_kind(),
    {
        self.kind
    }

    /// The text length under the node, as held since it was made.
    pub fn len(&self) -> (r: TextSize)
        ensures
            r == self.spec_len(),
            r == prefix_len(self.spec_children(), self.spec_children().len() as int),
    {
        proof {
            use_type_invariant(self);
        }
        self.len
    }

    /// The structural fingerprint of the node.
    pub fn fingerprint(&self) -> (r: u64)
        ensures
            r == self.spec_fingerprint(),
            r == self@.fingerprint(),
    {
        proof {
            use_type_invariant(self);
        }
        self.hash
    }

    /// The children of the node, in order.
    pub fn children(&self) -> (r: &[GreenElement])
        ensures
            r@ == self.spec_children(),
    {
        self.children.as_slice()
    }
}

/// Whether two children are structurally equal. Two handles to one
/// allocation are equal without a look inside.
pub fn same_element(a: &GreenElement, b: &GreenElement) -> (r: bool)
    ensures
        r == (element_tree(*a) == element_tree(*b)),
    decreases *a, 0int,
{
    match a {
        NodeOrToken::Node(x) => match b {
            NodeOrToken::Node(y) => same_allocation(x, y) || x.same_tree(y),
            NodeOrToken::Token(_) => false,
        },
        NodeOrToken::Token(x) => match b {
            NodeOrToken::Node(_) => false,
            NodeOrToken::Token(y) => same_allocation(x, y) || x.same_tree(y),
        },
    }
}

impl GreenToken {
    /// Whether two tokens are structurally equal: same kind, same text.
    pub fn same_tree(&self, other: &GreenToken) -> (r: bool)
        ensures
            r == (self@ == other@),
    {
        self.kind == other.kind && self.text == other.text
    }
}

impl GreenNode {
    /// Whether the node has kind `kind` and children structurally equal
    /// to `children`, one by one.
    pub fn matches(&self, kind: Kind, children: &Vec<GreenElement>) -> (r: bool)
        ensures
            r == (self@ == Tree::Node { kind, children: element_trees(children@) }),
        decreases self, 0int,
    {
        if self.kind != kind || self.children.len() != children.len() {
            assert(self.kind == kind ==> element_trees(self.children@).len() != element_trees(
                children@,
            ).len());
            return false;
        }
        let mut i: usize = 0;
        while i < self.children.len()
            invariant
                i <= self.children.len(),
                self.children.len() == children.len(),
                self.kind == kind,
                forall|j: int|
                    0 <= j < i ==> element_tree(#[trigger] self.children@[j]) == element_tree(
                        children@[j],
                    ),
            decreases self.children.len() - i,
        {
            if !same_element(&self.children[i], &children[i]) {
                assert(element_trees(self.children@)[i as int] != element_trees(
                    children@,
                )[i as int]);
                return false;
            }
            i += 1;
        }
        assert(element_trees(self.children@) =~= element_trees(children@));
        true
    }

    /// Whether two nodes are structurally equal: same kind, and the same
    /// number of children, structurally equal one by one.
    pub fn same_tree(&self, other: &GreenNode) -> (r: bool)
        ensures
            r == (self@ == other@),
        decreases self, 1int,
    {
        proof {
            use_type_invariant(self);
            use_type_invariant(other);
        }
        self.hash == other.hash && self.matches(other.kind, &other.children)
    }
}

/// A well-formed child reports the text length of its tree.
pub proof fn lemma_element_len_is_text_len(e: GreenElement)
    requires
        element_wf(e),
    ensures
        element_len(e) == element_tree(e).text_len(),
    decreases e,
{
    match e {
        NodeOrToken::Node(node) => {
            lemma_node_len_is_text_len(&*node);
        },
        NodeOrToken::Token(_) => {},
    }
}

/// The lengths that well-formed children report add up to the text
/// lengths of their trees.
pub proof fn lemma_prefix_len_is_trees_len(s: Seq<GreenElement>, n: int)
    requires
        0 <= n <= s.len(),
        forall|i: int| 0 <= i < s.len() ==> element_wf(#[trigger] s[i]),
    ensures
        prefix_len(s, n) == trees_len(element_trees(s), n),
    decreases s, n,
{
    if 0 < n {
        lemma_prefix_len_is_trees_len(s, n - 1);
        lemma_element_len_is_text_len(s[n - 1]);
    }
}

/// The length that a well-formed node holds is the text length of its
/// tree: the bytes of all the tokens under it.
pub proof fn lemma_node_len_is_text_len(node: &GreenNode)
    requires
        node.wf(),
    ensures
        node.spec_len() == node@.text_len(),
    decreases node,
{
    lemma_prefix_len_is_trees_len(node.spec_children(), node.spec_children().len() as int);
}

/// A child is structurally smaller than its node, so a descent through
/// children ends.
pub proof fn lemma_child_is_smaller(node: &GreenNode, i: int)
    requires
        0 <= i < node.spec_children().len(),
    ensures
        decreases_to!(*node => node.spec_children()[i]),
{
    broadcast use vstd::std_specs::vec::axiom_vec_index_decreases;

    assert(decreases_to!(node.children => node.children[i]));
}

} // verus!
