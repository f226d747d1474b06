//! The interning cache through which green trees are built.

use crate::green::{
    element_trees, node_fingerprint, prefix_len, share, token_fingerprint, total_len,
    GreenElement, GreenNode, GreenToken, TextSize, Tree,
};
use crate::kind::Kind;
use std::collections::HashMap;
use std::sync::Arc;
use vstd::prelude::*;
use vstd::utf8::encode_utf8;

verus! {

/// For each fingerprint, the slots of the table that hold an element with
/// that fingerprint.
struct SlotIndex {
    map: HashMap<u64, Vec<usize>>,
}

impl SlotIndex {
    /// The slots filed under `fingerprint`, oldest first.
    closed spec fn bucket(&self, fingerprint: u64) -> Seq<usize> {
        if self.map@.contains_key(fingerprint) {
            self.map@[fingerprint]@
        } else {
            Seq::empty()
        }
    }

    fn new() -> (r: SlotIndex)
        ensures
            forall|fingerprint: u64| #[trigger] r.bucket(fingerprint) == Seq::<usize>::empty(),
    {
        broadcast use vstd::std_specs::hash::group_hash_axioms;

        SlotIndex { map: HashMap::new() }
    }

    /// The slots filed under `fingerprint`, if there are any.
    fn get(&self, fingerprint: u64) -> (r: Option<&Vec<usize>>)
        ensures
            match r {
                Some(slots) => slots@ == self.bucket(fingerprint),
                None => self.bucket(fingerprint).len() == 0,
            },
    {
        broadcast use vstd::std_specs::hash::group_hash_axioms;

        self.map.get(&fingerprint)
    }

    /// Files `slot` under `fingerprint`, after the slots already there.
    fn add(&mut self, fingerprint: u64, slot: usize)
        ensures
            final(self).bucket(fingerprint) == old(self).bucket(fingerprint).push(slot),
            forall|other: u64|
                other != fingerprint ==> #[trigger] final(self).bucket(other) == old(self).bucket(
                    other,
                ),
    {
        broadcast use vstd::std_specs::hash::group_hash_axioms;

        let mut slots = match self.map.remove(&fingerprint) {
            Some(slots) => slots,
            None => Vec::new(),
        };
        slots.push(slot);
        self.map.insert(fingerprint, slots);
    }
}

/// The interning cache of one build session.
///
/// It holds two allocation tables, one of tokens and one of nodes. A slot
/// of a table is one shared allocation; slots are only ever added, at the
/// end, and no two slots of a table hold structurally equal elements. The
/// handles that `intern_token` and `intern_node` return are handles to the
/// allocation of a slot.
pub struct Interner {
    tokens: Vec<Arc<GreenToken>>,
    nodes: Vec<Arc<GreenNode>>,
    token_index: SlotIndex,
    node_index: SlotIndex,
}

impl Interner {
    /// The table of tokens, in the order in which they were allocated.
    pub closed spec fn token_slots(&self) -> Seq<Arc<GreenToken>> {
        self.tokens@
    }

    /// The table of nodes, in the order in which they were allocated.
    pub closed spec fn node_slots(&self) -> Seq<Arc<GreenNode>> {
        self.nodes@
    }

    /// Slot `i` of the token table holds the token `tree`.
    pub open spec fn token_at(&self, i: int, tree: Tree) -> bool {
        0 <= i < self.token_slots().len() && self.token_slots()[i]@ == tree
    }

    /// Slot `i` of the node table holds the node `tree`.
    pub open spec fn node_at(&self, i: int, tree: Tree) -> bool {
        0 <= i < self.node_slots().len() && self.node_slots()[i]@ == tree
    }

    /// The slot of the token table that holds `tree`, if one does.
    pub open spec fn token_slot(&self, tree: Tree) -> Option<int> {
        if exists|i: int| self.token_at(i, tree) {
            Some(choose|i: int| self.token_at(i, tree))
        } else {
            None
        }
    }

    /// The slot of the node table that holds `tree`, if one does.
    pub open spec fn node_slot(&self, tree: Tree) -> Option<int> {
        if exists|i: int| self.node_at(i, tree) {
            Some(choose|i: int| self.node_at(i, tree))
        } else {
            None
        }
    }

    /// `later` is this cache after more interning: every slot of this
    /// cache is still there, in its place, with the same allocation.
    pub open spec fn grows_to(&self, later: &Interner) -> bool {
        &&& self.token_slots().len() <= later.token_slots().len()
        &&& self.node_slots().len() <= later.node_slots().len()
        &&& forall|i: int|
            0 <= i < self.token_slots().len() ==> #[trigger] later.token_slots()[i]
                == self.token_slots()[i]
        &&& forall|i: int|
            0 <= i < self.node_slots().len() ==> #[trigger] later.node_slots()[i]
                == self.node_slots()[i]
    }

    /// The token table holds well-formed tokens, none of them twice, and
    /// the fingerprint index finds every slot.
    closed spec fn tokens_wf(&self) -> bool {
        &&& forall|i: int| 0 <= i < self.tokens@.len() ==> (#[trigger] self.tokens@[i]).wf()
        &&& forall|i: int, j: int|
            0 <= i < j < self.tokens@.len() ==> (#[trigger] self.tokens@[i])@
                != (#[trigger] self.tokens@[j])@
        &&& forall|fingerprint: u64, k: int|
            0 <= k < self.token_index.bucket(fingerprint).len()
                ==> #[trigger] self.token_index.bucket(fingerprint)[k] < self.tokens@.len()
        &&& forall|i: int|
            0 <= i < self.tokens@.len() ==> self.token_index.bucket(
                (#[trigger] self.tokens@[i])@.fingerprint(),
            ).contains(i as usize)
    }

    /// The same of the node table.
    closed spec fn nodes_wf(&self) -> bool {
        &&& forall|i: int| 0 <= i < self.nodes@.len() ==> (#[trigger] self.nodes@[i]).wf()
        &&& forall|i: int, j: int|
            0 <= i < j < self.nodes@.len() ==> (#[trigger] self.nodes@[i])@
                != (#[trigger] self.nodes@[j])@
        &&& forall|fingerprint: u64, k: int|
            0 <= k < self.node_index.bucket(fingerprint).len()
                ==> #[trigger] self.node_index.bucket(fingerprint)[k] < self.nodes@.len()
        &&& forall|i: int|
            0 <= i < self.nodes@.len() ==> self.node_index.bucket(
                (#[trigger] self.nodes@[i])@.fingerprint(),
            ).contains(i as usize)
    }

    /// The tables hold well-formed elements, none of them twice, and the
    /// fingerprint index finds every slot.
    pub closed spec fn wf(&self) -> bool {
        self.tokens_wf() && self.nodes_wf()
    }

    /// A fresh cache: both tables are empty.
    pub fn new() -> (r: Interner)
        ensures
            r.wf(),
            r.token_slots().len() == 0,
            r.node_slots().len() == 0,
    {
        Interner {
            tokens: Vec::new(),
            nodes: Vec::new(),
            token_index: SlotIndex::new(),
            node_index: SlotIndex::new(),
        }
    }

    /// The number of token allocations made so far.
    pub fn token_count(&self) -> (r: usize)
        ensures
            r == self.token_slots().len(),
    {
        self.tokens.len()
    }

    /// The number of node allocations made so far.
    pub fn node_count(&self) -> (r: usize)
        ensures
            r == self.node_slots().len(),
    {
        self.nodes.len()
    }

    /// The slot that holds the token of kind `kind` with text `text`.
    fn find_token(&self, fingerprint: u64, kind: Kind, text: &str) -> (r: Option<usize>)
        requires
            self.wf(),
            fingerprint == (Tree::Token { kind, text: text@ }).fingerprint(),
        ensures
            match r {
                Some(slot) => self.token_at(slot as int, Tree::Token { kind, text: text@ }),
                None => forall|i: int| !self.token_at(i, Tree::Token { kind, text: text@ }),
            },
    {
        let ghost tree = Tree::Token { kind, text: text@ };
        let count = self.tokens.len();
        match self.token_index.get(fingerprint) {
            None => {
                assert forall|i: int| !self.token_at(i, tree) by {
                    if self.token_at(i, tree) {
                        assert(self.token_index.bucket(self.tokens@[i]@.fingerprint()).contains(
                            i as usize,
                        ));
                    }
                }
                None
            },
            Some(slots) => {
                let mut k: usize = 0;
                while k < slots.len()
                    invariant
                        k <= slots.len(),
                        self.wf(),
                        count == self.tokens@.len(),
                        slots@ == self.token_index.bucket(fingerprint),
                        tree == (Tree::Token { kind, text: text@ }),
                        fingerprint == tree.fingerprint(),
                        forall|j: int| 0 <= j < k ==> !self.token_at(slots@[j] as int, tree),
                    decreases slots.len() - k,
                {
                    let slot = slots[k];
                    assert(self.token_index.bucket(fingerprint)[k as int] < self.tokens@.len());
                    if self.tokens[slot].matches(kind, text) {
                        return Some(slot);
                    }
                    k += 1;
                }
                assert forall|i: int| !self.token_at(i, tree) by {
                    if self.token_at(i, tree) {
                        assert(self.token_index.bucket(self.tokens@[i]@.fingerprint()).contains(
                            i as usize,
                        ));
                        let j = choose|j: int| 0 <= j < slots@.len() && slots@[j] == i as usize;
                        assert(!self.token_at(slots@[j] as int, tree));
                    }
                }
                None
            },
        }
    }

    /// The shared token of kind `kind` with text `text`.
    ///
    /// Where the table already holds such a token, the result is a handle
    /// to that allocation and nothing is added. Otherwise one token is
    /// allocated, in a new slot at the end of the table.
    pub fn intern_token(&mut self, kind: Kind, text: &str) -> (r: Arc<GreenToken>)
        requires
            old(self).wf(),
            encode_utf8(text@).len() <= TextSize::MAX,
        ensures
            final(self).wf(),
            old(self).grows_to(final(self)),
            r@ == (Tree::Token { kind, text: text@ }),
            r.wf(),
            final(self).node_slots() == old(self).node_slots(),
            match old(self).token_slot(r@) {
                Some(slot) => final(self).token_slots() == old(self).token_slots() && r == old(
                    self,
                ).token_slots()[slot],
                None => final(self).token_slots() == old(self).token_slots().push(r),
            },
    {
        let fingerprint = token_fingerprint(kind, text);
        let ghost tree = Tree::Token { kind, text: text@ };
        match self.find_token(fingerprint, kind, text) {
            Some(slot) => {
                proof {
                    let chosen = choose|i: int| self.token_at(i, tree);
                    assert(self.token_at(slot as int, tree));
                    assert(self.token_at(chosen, tree));
                    assert(self.tokens@[chosen]@ == self.tokens@[slot as int]@);
                }
                share(&self.tokens[slot])
            },
            None => {
                let token = Arc::new(GreenToken::new(kind, text.to_owned()));
                let r = share(&token);
                let slot = self.tokens.len();
                self.tokens.push(token);
                self.token_index.add(fingerprint, slot);
                proof {
                    let before = old(self).tokens@;
                    let after = self.tokens@;
                    assert(after == before.push(r));
                    assert forall|i: int| 0 <= i < after.len() implies (#[trigger] after[i]).wf() by {
                        if i < slot {
                            assert(after[i] == before[i]);
                        }
                    }
                    assert forall|i: int, j: int| 0 <= i < j < after.len() implies (
                    #[trigger] after[i])@ != (#[trigger] after[j])@ by {
                        assert(after[i] == before[i]);
                        if j < slot {
                            assert(after[j] == before[j]);
                        } else {
                            assert(!old(self).token_at(i, tree));
                        }
                    }
                    assert forall|f: u64, k: int|
                        0 <= k < self.token_index.bucket(f).len() implies #[trigger] self.token_index.bucket(
                        f,
                    )[k] < after.len() by {
                        let b = old(self).token_index.bucket(f);
                        if f == fingerprint {
                            if k < b.len() {
                                assert(b.push(slot)[k] == b[k]);
                            }
                        } else {
                            assert(self.token_index.bucket(f) == b);
                        }
                    }
                    assert forall|i: int| 0 <= i < after.len() implies self.token_index.bucket(
                        (#[trigger] after[i])@.fingerprint(),
                    ).contains(i as usize) by {
                        let f = after[i]@.fingerprint();
                        let b = old(self).token_index.bucket(f);
                        if i < slot {
                            assert(after[i] == before[i]);
                            assert(b.contains(i as usize));
                            let k = choose|k: int| 0 <= k < b.len() && b[k] == i as usize;
                            if f == fingerprint {
                                assert(b.push(slot)[k] == i as usize);
                            } else {
                                assert(self.token_index.bucket(f) == b);
                            }
                        } else {
                            assert(f == fingerprint);
                            assert(b.push(slot)[b.len() as int] == slot);
                        }
                    }
                    assert(self.tokens_wf());
                    assert(self.nodes_wf());
                }
                r
            },
        }
    }

    /// The slot that holds the node of kind `kind` over `children`.
    fn find_node(&self, fingerprint: u64, kind: Kind, children: &Vec<GreenElement>) -> (r: Option<
        usize,
    >)
        requires
            self.wf(),
            fingerprint == (Tree::Node {
                kind,
                children: element_trees(children@),
            }).fingerprint(),
        ensures
            match r {
                Some(slot) => self.node_at(
                    slot as int,
                    Tree::Node { kind, children: element_trees(children@) },
                ),
                None => forall|i: int|
                    !self.node_at(i, Tree::Node { kind, children: element_trees(children@) }),
            },
    {
        let ghost tree = Tree::Node { kind, children: element_trees(children@) };
        let count = self.nodes.len();
        match self.node_index.get(fingerprint) {
            None => {
                assert forall|i: int| !self.node_at(i, tree) by {
                    if self.node_at(i, tree) {
                        assert(self.node_index.bucket(self.nodes@[i]@.fingerprint()).contains(
                            i as usize,
                        ));
                    }
                }
                None
            },
            Some(slots) => {
                let mut k: usize = 0;
                while k < slots.len()
                    invariant
                        k <= slots.len(),
                        self.wf(),
                        count == self.nodes@.len(),
                        slots@ == self.node_index.bucket(fingerprint),
                        tree == (Tree::Node { kind, children: element_trees(children@) }),
                        fingerprint == tree.fingerprint(),
                        forall|j: int| 0 <= j < k ==> !self.node_at(slots@[j] as int, tree),
                    decreases slots.len() - k,
                {
                    let slot = slots[k];
                    assert(self.node_index.bucket(fingerprint)[k as int] < self.nodes@.len());
                    if self.nodes[slot].matches(kind, children) {
                        return Some(slot);
                    }
                    k += 1;
                }
                assert forall|i: int| !self.node_at(i, tree) by {
                    if self.node_at(i, tree) {
                        assert(self.node_index.bucket(self.nodes@[i]@.fingerprint()).contains(
                            i as usize,
                        ));
                        let j = choose|j: int| 0 <= j < slots@.len() && slots@[j] == i as usize;
                        assert(!self.node_at(slots@[j] as int, tree));
                    }
                }
                None
            },
        }
    }

    /// The shared node of kind `kind` over `children`.
    ///
    /// Where the table already holds a structurally equal node, the result
    /// is a handle to that allocation and nothing is added. Otherwise one
    /// node is allocated over the handles in `children`, in a new slot at
    /// the end of the table. The sum of the children's lengths has to fit
    /// a `TextSize`; `total_len` tells whether it does.
    pub fn intern_node(&mut self, kind: Kind, children: Vec<GreenElement>) -> (r: Arc<GreenNode>)
        requires
            old(self).wf(),
            prefix_len(children@, children@.len() as int) <= TextSize::MAX,
        ensures
            final(self).wf(),
            old(self).grows_to(final(self)),
            r@ == (Tree::Node { kind, children: element_trees(children@) }),
            r.wf(),
            final(self).token_slots() == old(self).token_slots(),
            match old(self).node_slot(r@) {
                Some(slot) => final(self).node_slots() == old(self).node_slots() && r == old(
                    self,
                ).node_slots()[slot],
                None => final(self).node_slots() == old(self).node_slots().push(r)
                    && r.spec_children() == children@,
            },
    {
        let len = total_len(&children).unwrap();
        let fingerprint = node_fingerprint(kind, &children);
        let ghost tree = Tree::Node { kind, children: element_trees(children@) };
        match self.find_node(fingerprint, kind, &children) {
            Some(slot) => {
                proof {
                    let chosen = choose|i: int| self.node_at(i, tree);
                    assert(self.node_at(slot as int, tree));
                    assert(self.node_at(chosen, tree));
                    assert(self.nodes@[chosen]@ == self.nodes@[slot as int]@);
                }
                share(&self.nodes[slot])
            },
            None => {
                let node = Arc::new(GreenNode::new(kind, children, len));
                let r = share(&node);
                let slot = self.nodes.len();
                self.nodes.push(node);
                self.node_index.add(fingerprint, slot);
                proof {
                    let before = old(self).nodes@;
                    let after = self.nodes@;
                    assert(after == before.push(r));
                    assert forall|i: int| 0 <= i < after.len() implies (#[trigger] after[i]).wf() by {
                        if i < slot {
                            assert(after[i] == before[i]);
                        }
                    }
                    assert forall|i: int, j: int| 0 <= i < j < after.len() implies (
                    #[trigger] after[i])@ != (#[trigger] after[j])@ by {
                        assert(after[i] == before[i]);
                        if j < slot {
                            assert(after[j] == before[j]);
                        } else {
                            assert(!old(self).node_at(i, tree));
                        }
                    }
                    assert forall|f: u64, k: int|
                        0 <= k < self.node_index.bucket(f).len() implies #[trigger] self.node_index.bucket(
                        f,
                    )[k] < after.len() by {
                        let b = old(self).node_index.bucket(f);
                        if f == fingerprint {
                            if k < b.len() {
                                assert(b.push(slot)[k] == b[k]);
                            }
                        } else {
                            assert(self.node_index.bucket(f) == b);
                        }
                    }
                    assert forall|i: int| 0 <= i < after.len() implies self.node_index.bucket(
                        (#[trigger] after[i])@.fingerprint(),
                    ).contains(i as usize) by {
                        let f = after[i]@.fingerprint();
                        let b = old(self).node_index.bucket(f);
                        if i < slot {
                            assert(after[i] == before[i]);
                            assert(b.contains(i as usize));
                            let k = choose|k: int| 0 <= k < b.len() && b[k] == i as usize;
                            if f == fingerprint {
                                assert(b.push(slot)[k] == i as usize);
                            } else {
                                assert(self.node_index.bucket(f) == b);
                            }
                        } else {
                            assert(f == fingerprint);
                            assert(b.push(slot)[b.len() as int] == slot);
                        }
                    }
                    assert(self.nodes_wf());
                    assert(self.tokens_wf());
                }
                r
            },
        }
    }

    /// One allocation for each token: in a well-formed cache, and in
    /// whatever it grows to, a token structurally equal to the one in
    /// slot `i` sits in slot `i`.
    pub proof fn lemma_token_interned_once(&self, later: &Interner, i: int, j: int)
        requires
            self.wf(),
            later.wf(),
            self.grows_to(later),
            0 <= i < self.token_slots().len(),
            0 <= j < later.token_slots().len(),
            self.token_slots()[i]@ == later.token_slots()[j]@,
        ensures
            i == j,
            later.token_slots()[j] == self.token_slots()[i],
    {
        assert(later.tokens@[i] == self.tokens@[i]);
        if i < j {
            assert(later.tokens@[i]@ != later.tokens@[j]@);
        } else if j < i {
            assert(later.tokens@[j]@ != later.tokens@[i]@);
        }
    }

    /// One allocation for each node: in a well-formed cache, and in
    /// whatever it grows to, a node structurally equal to the one in slot
    /// `i` sits in slot `i`.
    pub proof fn lemma_node_interned_once(&self, later: &Interner, i: int, j: int)
        requires
            self.wf(),
            later.wf(),
            self.grows_to(later),
            0 <= i < self.node_slots().len(),
            0 <= j < later.node_slots().len(),
            self.node_slots()[i]@ == later.node_slots()[j]@,
        ensures
            i == j,
            later.node_slots()[j] == self.node_slots()[i],
    {
        assert(later.nodes@[i] == self.nodes@[i]);
        if i < j {
            assert(later.nodes@[i]@ != later.nodes@[j]@);
        } else if j < i {
            assert(later.nodes@[j]@ != later.nodes@[i]@);
        }
    }

    /// Growth goes on: what a cache grows to, and that grows to in turn.
    pub proof fn lemma_grows_to_transitive(&self, middle: &Interner, later: &Interner)
        requires
            self.grows_to(middle),
            middle.grows_to(later),
        ensures
            self.grows_to(later),
    {
        assert forall|i: int| 0 <= i < self.token_slots().len() implies #[trigger] later.token_slots()[i]
            == self.token_slots()[i] by {
            assert(middle.token_slots()[i] == self.token_slots()[i]);
        }
        assert forall|i: int| 0 <= i < self.node_slots().len() implies #[trigger] later.node_slots()[i]
            == self.node_slots()[i] by {
            assert(middle.node_slots()[i] == self.node_slots()[i]);
        }
    }
}

} // verus!
