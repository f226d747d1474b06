//! The red cursor: absolute offsets and parent links over a green tree.

use crate::green::{
    element_kind, element_len, element_tree, element_trees, element_wf,
    lemma_prefix_len_is_trees_len, same_element, lemma_child_is_smaller, lemma_prefix_len_grows,
    len_of, prefix_len,
    share, share_element, GreenElement, GreenNode, TextSize,
};
use crate::kind::Kind;
use crate::node_or_token::NodeOrToken;
use std::sync::Arc;
use vstd::prelude::*;

verus! {

/// A place in a green tree: an element, the cursor of its parent, its
/// position among the parent's children, and the absolute offset at which
/// its text starts.
///
/// A cursor is made on the way down from a root and thrown away freely.
/// It shares the green tree and never changes it.
#[derive(Debug)]
pub struct RedCursor {
    green: GreenElement,
    parent: Option<Arc<RedCursor>>,
    index: usize,
    offset: TextSize,
}

impl RedCursor {
    /// The green element under the cursor.
    pub closed spec fn spec_green(&self) -> GreenElement {
        self.green
    }

    /// The cursor of the parent; none at the root.
    pub closed spec fn spec_parent(&self) -> Option<RedCursor> {
        match self.parent {
            Some(parent) => Some(*parent),
            None => None,
        }
    }

    /// The position of the element among its parent's children; 0 at the
    /// root.
    pub closed spec fn spec_index(&self) -> nat {
        self.index as nat
    }

    /// The absolute offset at which the element's text starts.
    pub closed spec fn spec_offset(&self) -> nat {
        self.offset as nat
    }

    /// The text length of the element.
    pub open spec fn spec_len(&self) -> nat {
        element_len(self.spec_green())
    }

    /// The absolute offset just after the element's text.
    pub open spec fn spec_end(&self) -> nat {
        self.spec_offset() + self.spec_len()
    }

    /// The green children of the element; a token has none.
    pub open spec fn spec_children(&self) -> Seq<GreenElement> {
        match self.spec_green() {
            NodeOrToken::Node(node) => node.spec_children(),
            NodeOrToken::Token(_) => Seq::empty(),
        }
    }

    /// The cursor is child `i` of `parent`: it holds the parent's cursor
    /// and the parent's green child `i`, and starts where the parent
    /// starts plus the lengths of the children before it.
    pub open spec fn is_child_of(&self, parent: &RedCursor, i: int) -> bool {
        &&& self.spec_parent() == Some(*parent)
        &&& 0 <= i < parent.spec_children().len()
        &&& self.spec_index() == i
        &&& self.spec_green() == parent.spec_children()[i]
        &&& self.spec_offset() == parent.spec_offset() + prefix_len(parent.spec_children(), i)
    }

    /// The cursor is `ancestor` or lies below it.
    pub open spec fn descends_from(&self, ancestor: &RedCursor) -> bool
        decreases self,
    {
        *self == *ancestor || match self.spec_parent() {
            Some(parent) => parent.descends_from(ancestor),
            None => false,
        }
    }

    /// The root starts at 0; any other cursor is a child of its parent's
    /// cursor, which is well formed in turn. The element is well formed
    /// and ends within the range of a `TextSize`.
    #[verifier::type_invariant]
    pub open spec fn wf(&self) -> bool
        decreases self,
    {
        &&& element_wf(self.spec_green())
        &&& self.spec_end() <= TextSize::MAX
        &&& match self.spec_parent() {
            None => self.spec_index() == 0 && self.spec_offset() == 0,
            Some(parent) => parent.wf() && self.is_child_of(&parent, self.spec_index() as int),
        }
    }

    /// The cursor over a root node: no parent, offset 0.
    pub fn new(root: Arc<GreenNode>) -> (r: RedCursor)
        ensures
            r.spec_green() == GreenElement::Node(root),
            r.spec_parent() is None,
            r.spec_index() == 0,
            r.spec_offset() == 0,
    {
        proof {
            use_type_invariant(&*root);
        }
        RedCursor { green: NodeOrToken::Node(root), parent: None, index: 0, offset: 0 }
    }

    /// The green element under the cursor.
    pub fn green(&self) -> (r: &GreenElement)
        ensures
            *r == self.spec_green(),
    {
        &self.green
    }

    /// The kind of the element under the cursor.
    pub fn kind(&self) -> (r: Kind)
        ensures
            r == element_kind(self.spec_green()),
    {
        self.green.kind()
    }

    /// The text length of the element under the cursor.
    pub fn text_length(&self) -> (r: TextSize)
        ensures
            r == self.spec_len(),
    {
        len_of(&self.green)
    }

    /// The absolute offset at which the element's text starts.
    pub fn offset(&self) -> (r: TextSize)
        ensures
            r == self.spec_offset(),
    {
        self.offset
    }

    /// The position of the element among its parent's children.
    pub fn index(&self) -> (r: usize)
        ensures
            r == self.spec_index(),
    {
        self.index
    }

    /// The cursor of the parent; none at the root.
    pub fn parent(&self) -> (r: Option<&RedCursor>)
        ensures
            match r {
                Some(parent) => self.spec_parent() == Some(*parent),
                None => self.spec_parent() is None,
            },
    {
        match &self.parent {
            Some(parent) => Some(&**parent),
            None => None,
        }
    }

    /// The number of children of the element; 0 for a token.
    pub fn child_count(&self) -> (r: usize)
        ensures
            r == self.spec_children().len(),
    {
        match &self.green {
            NodeOrToken::Node(node) => node.children().len(),
            NodeOrToken::Token(_) => 0,
        }
    }
}

impl RedCursor {
    /// The cursor of child `i` of `parent`, which starts at `offset`.
    fn child_at(parent: &Arc<RedCursor>, i: usize, offset: TextSize) -> (r: RedCursor)
        requires
            i < parent.spec_children().len(),
            offset == parent.spec_offset() + prefix_len(parent.spec_children(), i as int),
        ensures
            r.is_child_of(&**parent, i as int),
    {
        proof {
            use_type_invariant(&**parent);
            lemma_prefix_len_grows(
                parent.spec_children(),
                i as int + 1,
                parent.spec_children().len() as int,
            );
        }
        match &parent.green {
            NodeOrToken::Node(node) => RedCursor {
                green: share_element(&node.children()[i]),
                parent: Some(share(parent)),
                index: i,
                offset,
            },
            NodeOrToken::Token(_) => vstd::pervasive::unreached(),
        }
    }

    /// The cursor of child `i`, or none where the element has no child
    /// `i`. Only this one child's cursor is made.
    pub fn child(&self, i: usize) -> (r: Option<RedCursor>)
        ensures
            match r {
                Some(child) => child.is_child_of(self, i as int),
                None => i >= self.spec_children().len(),
            },
    {
        proof {
            use_type_invariant(self);
        }
        match &self.green {
            NodeOrToken::Token(_) => None,
            NodeOrToken::Node(node) => {
                let children = node.children();
                if i >= children.len() {
                    return None;
                }
                let mut offset = self.offset;
                let mut k: usize = 0;
                while k < i
                    invariant
                        k <= i < children@.len(),
                        children@ == self.spec_children(),
                        offset == self.spec_offset() + prefix_len(children@, k as int),
                        self.spec_offset() + prefix_len(children@, children@.len() as int)
                            <= TextSize::MAX,
                    decreases i - k,
                {
                    proof {
                        lemma_prefix_len_grows(children@, k as int + 1, children@.len() as int);
                    }
                    offset = offset + len_of(&children[k]);
                    k += 1;
                }
                Some(RedCursor::child_at(&Arc::new(self.clone()), i, offset))
            },
        }
    }

    /// The cursors of all the children, in order: each starts where the
    /// one before it ends, the first where this element starts.
    pub fn children(&self) -> (r: Vec<RedCursor>)
        ensures
            r@.len() == self.spec_children().len(),
            forall|i: int| 0 <= i < r@.len() ==> (#[trigger] r@[i]).is_child_of(self, i),
    {
        proof {
            use_type_invariant(self);
        }
        let mut out: Vec<RedCursor> = Vec::new();
        match &self.green {
            NodeOrToken::Token(_) => {},
            NodeOrToken::Node(node) => {
                let children = node.children();
                let parent = Arc::new(self.clone());
                let mut offset = self.offset;
                let mut k: usize = 0;
                while k < children.len()
                    invariant
                        k <= children@.len(),
                        children@ == self.spec_children(),
                        *parent == *self,
                        offset == self.spec_offset() + prefix_len(children@, k as int),
                        self.spec_offset() + prefix_len(children@, children@.len() as int)
                            <= TextSize::MAX,
                        out@.len() == k,
                        forall|i: int| 0 <= i < k ==> (#[trigger] out@[i]).is_child_of(self, i),
                    decreases children.len() - k,
                {
                    proof {
                        lemma_prefix_len_grows(children@, k as int + 1, children@.len() as int);
                    }
                    out.push(RedCursor::child_at(&parent, k, offset));
                    offset = offset + len_of(&children[k]);
                    k += 1;
                }
            },
        }
        out
    }

    /// The cursor of the sibling that follows, or none at a root and at
    /// a last child.
    pub fn next_sibling(&self) -> (r: Option<RedCursor>)
        ensures
            match self.spec_parent() {
                None => r is None,
                Some(parent) => if self.spec_index() + 1 < parent.spec_children().len() {
                    r matches Some(next) && next.is_child_of(&parent, self.spec_index() as int + 1)
                } else {
                    r is None
                },
            },
    {
        proof {
            use_type_invariant(self);
        }
        match &self.parent {
            None => None,
            Some(parent) => {
                let count = parent.child_count();
                if self.index + 1 < count {
                    let offset = self.offset + len_of(&self.green);
                    Some(RedCursor::child_at(parent, self.index + 1, offset))
                } else {
                    None
                }
            },
        }
    }

    /// The cursor of the sibling that comes before, or none at a root and
    /// at a first child.
    pub fn prev_sibling(&self) -> (r: Option<RedCursor>)
        ensures
            match self.spec_parent() {
                None => r is None,
                Some(parent) => if self.spec_index() > 0 {
                    r matches Some(prev) && prev.is_child_of(&parent, self.spec_index() as int - 1)
                } else {
                    r is None
                },
            },
    {
        proof {
            use_type_invariant(self);
        }
        match &self.parent {
            None => None,
            Some(parent) => {
                if self.index == 0 {
                    return None;
                }
                match &parent.green {
                    NodeOrToken::Node(node) => {
                        let before = len_of(&node.children()[self.index - 1]);
                        Some(RedCursor::child_at(parent, self.index - 1, self.offset - before))
                    },
                    NodeOrToken::Token(_) => None,
                }
            },
        }
    }
}

impl RedCursor {
    /// The text of the element covers the absolute position `pos`: the
    /// start is covered, the end is not.
    pub open spec fn covers(&self, pos: int) -> bool {
        self.spec_offset() <= pos < self.spec_end()
    }

    /// Descent is transitive.
    pub proof fn lemma_descends_from_transitive(&self, middle: &RedCursor, top: &RedCursor)
        requires
            self.descends_from(middle),
            middle.descends_from(top),
        ensures
            self.descends_from(top),
        decreases self,
    {
        if *self != *middle {
            match self.spec_parent() {
                Some(parent) => {
                    parent.lemma_descends_from_transitive(middle, top);
                },
                None => {},
            }
        }
    }

    /// The token cursor below `cursor` whose text covers `pos`.
    fn descend(cursor: RedCursor, pos: TextSize) -> (r: RedCursor)
        requires
            cursor.covers(pos as int),
        ensures
            r.spec_green() is Token,
            r.covers(pos as int),
            r.descends_from(&cursor),
        decreases cursor.spec_green(),
    {
        proof {
            use_type_invariant(&cursor);
        }
        if cursor.green.is_token() {
            return cursor;
        }
        let parent = Arc::new(cursor);
        match &parent.green {
            NodeOrToken::Node(node) => {
                let children = node.children();
                let count = children.len();
                let ghost base = parent.spec_offset();
                let mut k: usize = 0;
                let mut offset = parent.offset;
                let mut len = len_of(&children[0]);
                while pos - offset >= len
                    invariant
                        k < children@.len(),
                        count == children@.len(),
                        offset == base + prefix_len(children@, k as int),
                        len == element_len(children@[k as int]),
                        offset <= pos < base + prefix_len(children@, children@.len() as int),
                        base + prefix_len(children@, children@.len() as int) <= TextSize::MAX,
                    decreases children@.len() - k,
                {
                    proof {
                        lemma_prefix_len_grows(children@, k as int + 1, children@.len() as int);
                    }
                    offset = offset + len;
                    k += 1;
                    len = len_of(&children[k]);
                }
                let child = RedCursor::child_at(&parent, k, offset);
                proof {
                    lemma_child_is_smaller(&**node, k as int);
                }
                let r = RedCursor::descend(child, pos);
                proof {
                    assert(cursor.descends_from(&cursor));
                    assert(child.descends_from(&cursor));
                    r.lemma_descends_from_transitive(&child, &cursor);
                }
                r
            },
            NodeOrToken::Token(_) => vstd::pervasive::unreached(),
        }
    }

    /// The cursor of the token whose text covers the absolute position
    /// `pos`, found by going down from this cursor; none where this
    /// element does not cover `pos`.
    ///
    /// An element covers its start and not its end. So at the boundary
    /// between two tokens the later one is found, an empty element is
    /// never found, and the end of the whole text is covered by nothing.
    pub fn token_at_offset(&self, pos: TextSize) -> (r: Option<RedCursor>)
        ensures
            r is Some <==> self.covers(pos as int),
            r matches Some(token) ==> token.spec_green() is Token && token.covers(pos as int)
                && token.descends_from(self),
    {
        if pos < self.offset || pos - self.offset >= len_of(&self.green) {
            return None;
        }
        Some(RedCursor::descend(self.clone(), pos))
    }
}

impl RedCursor {
    /// Two cursors are at the same place: they hold structurally equal
    /// elements at the same index and offset, and so do their parents, up
    /// to two roots.
    pub open spec fn same_place(&self, other: &RedCursor) -> bool
        decreases self,
    {
        &&& element_tree(self.spec_green()) == element_tree(other.spec_green())
        &&& self.spec_index() == other.spec_index()
        &&& self.spec_offset() == other.spec_offset()
        &&& match self.spec_parent() {
            Some(parent) => match other.spec_parent() {
                Some(other_parent) => parent.same_place(&other_parent),
                None => false,
            },
            None => other.spec_parent() is None,
        }
    }

    /// Whether two cursors are at the same place.
    pub fn same_place_as(&self, other: &RedCursor) -> (r: bool)
        ensures
            r == self.same_place(other),
        decreases self,
    {
        if self.index != other.index || self.offset != other.offset || !same_element(
            &self.green,
            &other.green,
        ) {
            return false;
        }
        match &self.parent {
            Some(parent) => match &other.parent {
                Some(other_parent) => parent.same_place_as(other_parent),
                None => false,
            },
            None => other.parent.is_none(),
        }
    }

    /// A cursor is at the same place as itself.
    pub proof fn lemma_same_place_reflexive(&self)
        ensures
            self.same_place(self),
        decreases self,
    {
        match self.spec_parent() {
            Some(parent) => {
                parent.lemma_same_place_reflexive();
            },
            None => {},
        }
    }

    /// Cursors made independently, by the same step from cursors at the
    /// same place, are at the same place: child `i` of the one and child
    /// `i` of the other.
    pub proof fn lemma_children_same_place(
        &self,
        other: &RedCursor,
        child: &RedCursor,
        other_child: &RedCursor,
        i: int,
    )
        requires
            self.wf(),
            other.wf(),
            self.same_place(other),
            child.is_child_of(self, i),
            other_child.is_child_of(other, i),
        ensures
            child.same_place(other_child),
    {
        let a = self.spec_children();
        let b = other.spec_children();
        assert(element_trees(a) == element_trees(b));
        assert(element_trees(a)[i] == element_trees(b)[i]);
        assert(a.len() == element_trees(a).len());
        assert(b.len() == element_trees(b).len());
        lemma_prefix_len_is_trees_len(a, i);
        lemma_prefix_len_is_trees_len(b, i);
    }
}

impl RedCursor {
    /// The number of steps up to the root.
    pub open spec fn depth(&self) -> nat
        decreases self,
    {
        match self.spec_parent() {
            Some(parent) => parent.depth() + 1,
            None => 0,
        }
    }

    /// A cursor lies no higher than what it descends from, and at the
    /// same height only where it is that cursor.
    pub proof fn lemma_descends_from_depth(&self, ancestor: &RedCursor)
        requires
            self.descends_from(ancestor),
        ensures
            self.depth() >= ancestor.depth(),
            self.depth() == ancestor.depth() ==> *self == *ancestor,
        decreases self,
    {
        if *self != *ancestor {
            match self.spec_parent() {
                Some(parent) => {
                    parent.lemma_descends_from_depth(ancestor);
                },
                None => {},
            }
        }
    }

    /// What a child covers, its parent covers.
    pub proof fn lemma_parent_covers(&self, pos: int)
        requires
            self.wf(),
            self.covers(pos),
            self.spec_parent() is Some,
        ensures
            self.spec_parent().unwrap().covers(pos),
    {
        let parent = self.spec_parent().unwrap();
        let children = parent.spec_children();
        assert(parent.wf());
        assert(element_wf(parent.spec_green()));
        match parent.spec_green() {
            NodeOrToken::Node(node) => {
                assert(node.wf());
            },
            NodeOrToken::Token(_) => {},
        }
        lemma_prefix_len_grows(children, self.spec_index() as int + 1, children.len() as int);
    }

    /// No position is covered by two children of one parent.
    pub proof fn lemma_siblings_disjoint(
        &self,
        other: &RedCursor,
        parent: &RedCursor,
        i: int,
        j: int,
        pos: int,
    )
        requires
            self.is_child_of(parent, i),
            other.is_child_of(parent, j),
            self.covers(pos),
            other.covers(pos),
        ensures
            i == j,
            *self == *other,
    {
        let children = parent.spec_children();
        if i < j {
            lemma_prefix_len_grows(children, i + 1, j);
        } else if j < i {
            lemma_prefix_len_grows(children, j + 1, i);
        }
    }

    /// A cursor that lies properly below another lies below a node.
    pub proof fn lemma_proper_ancestor_has_children(&self, ancestor: &RedCursor)
        requires
            self.wf(),
            self.descends_from(ancestor),
            *self != *ancestor,
        ensures
            ancestor.spec_children().len() > 0,
        decreases self,
    {
        let parent = self.spec_parent().unwrap();
        if parent != *ancestor {
            parent.lemma_proper_ancestor_has_children(ancestor);
        }
    }

    /// Of two cursors below `top` that cover one position, one lies below
    /// the other.
    pub proof fn lemma_covering_cursors_nest(&self, other: &RedCursor, top: &RedCursor, pos: int)
        requires
            self.wf(),
            other.wf(),
            self.covers(pos),
            other.covers(pos),
            self.descends_from(top),
            other.descends_from(top),
        ensures
            self.descends_from(other) || other.descends_from(self),
        decreases self.depth() + other.depth(),
    {
        if *self == *top || *other == *top || *self == *other {
            return ;
        }
        let up = self.spec_parent().unwrap();
        let other_up = other.spec_parent().unwrap();
        self.lemma_parent_covers(pos);
        other.lemma_parent_covers(pos);
        up.lemma_covering_cursors_nest(other, top, pos);
        if up.descends_from(other) {
            return ;
        }
        assert(other_up.descends_from(&up));
        self.lemma_covering_cursors_nest(&other_up, top, pos);
        if other_up.descends_from(self) {
            return ;
        }
        assert(up.descends_from(&other_up));
        up.lemma_descends_from_depth(&other_up);
        other_up.lemma_descends_from_depth(&up);
        self.lemma_siblings_disjoint(
            other,
            &up,
            self.spec_index() as int,
            other.spec_index() as int,
            pos,
        );
    }

    /// One position, one token: below `top`, the token cursor that covers
    /// `pos` is the only one. So `token_at_offset` can return no other
    /// cursor than the one it returns.
    pub proof fn lemma_covering_token_unique(&self, other: &RedCursor, top: &RedCursor, pos: int)
        requires
            self.wf(),
            other.wf(),
            self.spec_green() is Token,
            other.spec_green() is Token,
            self.covers(pos),
            other.covers(pos),
            self.descends_from(top),
            other.descends_from(top),
        ensures
            *self == *other,
    {
        self.lemma_covering_cursors_nest(other, top, pos);
        if *self != *other {
            if self.descends_from(other) {
                self.lemma_proper_ancestor_has_children(other);
            } else {
                other.lemma_proper_ancestor_has_children(self);
            }
        }
    }
}

impl Clone for RedCursor {
    /// A second cursor at the same place. It shares the parent's cursor
    /// and the green element.
    fn clone(&self) -> (r: RedCursor)
        ensures
            r == *self,
    {
        proof {
            use_type_invariant(self);
        }
        RedCursor {
            green: share_element(&self.green),
            parent: match &self.parent {
                Some(parent) => Some(share(parent)),
                None => None,
            },
            index: self.index,
            offset: self.offset,
        }
    }
}

} // verus!
