use std::sync::Arc;
use syntax_tree::{GreenElement, GreenNode, Interner, Kind, NodeOrToken, RedCursor};

fn token(interner: &mut Interner, kind: u16, text: &str) -> GreenElement {
    NodeOrToken::Token(interner.intern_token(Kind(kind), text))
}

fn text_of(cursor: &RedCursor) -> String {
    match cursor.green() {
        NodeOrToken::Token(token) => token.text().to_string(),
        NodeOrToken::Node(_) => panic!("a token was expected"),
    }
}

/// A root of length 18: a token of ten bytes, then a node with children
/// of lengths 3, 0 and 5.
fn sample(interner: &mut Interner) -> Arc<GreenNode> {
    let lead = token(interner, 1, "0123456789");
    let a = token(interner, 2, "abc");
    let empty = token(interner, 3, "");
    let b = token(interner, 4, "defgh");
    let inner = interner.intern_node(Kind(10), vec![a, empty, b]);
    interner.intern_node(Kind(11), vec![lead, NodeOrToken::Node(inner)])
}

#[test]
fn root_starts_at_zero_and_has_no_parent() {
    let mut interner = Interner::new();
    let root = RedCursor::new(sample(&mut interner));
    assert_eq!(root.offset(), 0);
    assert_eq!(root.index(), 0);
    assert!(root.parent().is_none());
    assert_eq!(root.kind(), Kind(11));
    assert_eq!(root.text_length(), 18);
    assert_eq!(root.child_count(), 2);
}

#[test]
fn children_start_where_the_one_before_ends() {
    let mut interner = Interner::new();
    let root = RedCursor::new(sample(&mut interner));
    let inner = root.child(1).unwrap();
    assert_eq!(inner.offset(), 10);
    assert_eq!(inner.text_length(), 8);
    let children = inner.children();
    assert_eq!(children.len(), 3);
    assert_eq!(children[0].offset(), 10);
    assert_eq!(children[1].offset(), 13);
    assert_eq!(children[2].offset(), 13);
    assert_eq!(children[0].text_length(), 3);
    assert_eq!(children[1].text_length(), 0);
    assert_eq!(children[2].text_length(), 5);
    assert_eq!(children[0].index(), 0);
    assert_eq!(children[1].index(), 1);
    assert_eq!(children[2].index(), 2);
    assert_eq!(children[2].kind(), Kind(4));
}

#[test]
fn child_by_index_is_the_same_as_in_the_list() {
    let mut interner = Interner::new();
    let root = RedCursor::new(sample(&mut interner));
    let inner = root.child(1).unwrap();
    let children = inner.children();
    for i in 0..3 {
        let child = inner.child(i).unwrap();
        assert!(child == children[i]);
        assert_eq!(child.offset(), children[i].offset());
        assert_eq!(child.index(), i);
    }
    assert!(inner.child(3).is_none());
    assert!(inner.child(usize::MAX).is_none());
}

#[test]
fn children_can_be_listed_again() {
    let mut interner = Interner::new();
    let root = RedCursor::new(sample(&mut interner));
    let first = root.children();
    let second = root.children();
    assert_eq!(first.len(), second.len());
    for i in 0..first.len() {
        assert!(first[i] == second[i]);
    }
}

#[test]
fn a_token_has_no_children() {
    let mut interner = Interner::new();
    let root = RedCursor::new(sample(&mut interner));
    let lead = root.child(0).unwrap();
    assert_eq!(lead.child_count(), 0);
    assert!(lead.children().is_empty());
    assert!(lead.child(0).is_none());
}

#[test]
fn parent_is_the_cursor_that_was_descended_from() {
    let mut interner = Interner::new();
    let root = RedCursor::new(sample(&mut interner));
    let inner = root.child(1).unwrap();
    let leaf = inner.child(2).unwrap();
    let up = leaf.parent().unwrap();
    assert!(*up == inner);
    assert_eq!(up.offset(), 10);
    let top = up.parent().unwrap();
    assert!(*top == root);
    assert!(top.parent().is_none());
}

#[test]
fn token_at_a_boundary_is_the_later_token() {
    let mut interner = Interner::new();
    let root = RedCursor::new(sample(&mut interner));
    let inner = root.child(1).unwrap();
    let found = inner.token_at_offset(13).unwrap();
    assert_eq!(found.index(), 2);
    assert_eq!(found.offset(), 13);
    assert_eq!(text_of(&found), "defgh");
    assert!(found == inner.child(2).unwrap());
    let from_root = root.token_at_offset(13).unwrap();
    assert!(from_root == found);
    let at_ten = root.token_at_offset(10).unwrap();
    assert_eq!(text_of(&at_ten), "abc");
    assert_eq!(at_ten.offset(), 10);
}

#[test]
fn token_at_offset_covers_start_and_not_end() {
    let mut interner = Interner::new();
    let root = RedCursor::new(sample(&mut interner));
    assert_eq!(text_of(&root.token_at_offset(0).unwrap()), "0123456789");
    assert_eq!(text_of(&root.token_at_offset(9).unwrap()), "0123456789");
    assert_eq!(text_of(&root.token_at_offset(12).unwrap()), "abc");
    assert_eq!(text_of(&root.token_at_offset(17).unwrap()), "defgh");
    assert!(root.token_at_offset(18).is_none());
    assert!(root.token_at_offset(u32::MAX).is_none());
    let inner = root.child(1).unwrap();
    assert!(inner.token_at_offset(9).is_none());
    assert!(inner.token_at_offset(18).is_none());
    let empty = inner.child(1).unwrap();
    assert!(empty.token_at_offset(13).is_none());
}

#[test]
fn two_tokens_under_one_node_resolve_by_offset() {
    let mut interner = Interner::new();
    let a = token(&mut interner, 1, "a");
    let b = token(&mut interner, 1, "b");
    let node = interner.intern_node(Kind(7), vec![a, b]);
    assert_eq!(node.len() as usize, "a".len() + "b".len());
    let root = RedCursor::new(node);
    let first = root.token_at_offset(0).unwrap();
    let second = root.token_at_offset("a".len() as u32).unwrap();
    assert_eq!(first.index(), 0);
    assert_eq!(text_of(&first), "a");
    assert_eq!(second.index(), 1);
    assert_eq!(text_of(&second), "b");
    assert_eq!(second.offset(), 1);
    assert!(root.token_at_offset(2).is_none());
}

#[test]
fn siblings_do_not_wrap_around() {
    let mut interner = Interner::new();
    let root = RedCursor::new(sample(&mut interner));
    let inner = root.child(1).unwrap();
    let first = inner.child(0).unwrap();
    let last = inner.child(2).unwrap();
    assert!(first.prev_sibling().is_none());
    assert!(last.next_sibling().is_none());
    assert!(root.next_sibling().is_none());
    assert!(root.prev_sibling().is_none());
    assert!(inner.next_sibling().is_none());
}

#[test]
fn siblings_step_through_the_children() {
    let mut interner = Interner::new();
    let root = RedCursor::new(sample(&mut interner));
    let inner = root.child(1).unwrap();
    let first = inner.child(0).unwrap();
    let second = first.next_sibling().unwrap();
    assert_eq!(second.index(), 1);
    assert_eq!(second.offset(), 13);
    assert!(second == inner.child(1).unwrap());
    let third = second.next_sibling().unwrap();
    assert_eq!(third.index(), 2);
    assert_eq!(third.offset(), 13);
    assert_eq!(text_of(&third), "defgh");
    let back = third.prev_sibling().unwrap();
    assert!(back == second);
    let back = back.prev_sibling().unwrap();
    assert!(back == first);
    assert_eq!(back.offset(), 10);
    let lead = inner.prev_sibling().unwrap();
    assert_eq!(lead.offset(), 0);
    assert_eq!(text_of(&lead), "0123456789");
    assert!(lead.next_sibling().unwrap() == inner);
}

#[test]
fn cursors_at_one_place_are_equal() {
    let mut interner = Interner::new();
    let green = sample(&mut interner);
    let one = RedCursor::new(green.clone()).child(1).unwrap().child(2).unwrap();
    let other = RedCursor::new(green).token_at_offset(15).unwrap();
    assert!(one == other);
    assert!(one.same_place_as(&other));
    let copy = one.clone();
    assert!(copy == one);
    assert_eq!(copy.offset(), one.offset());
}

#[test]
fn cursors_at_different_places_differ() {
    let mut interner = Interner::new();
    let x = token(&mut interner, 1, "");
    let twice = interner.intern_node(Kind(2), vec![x.clone(), x]);
    let root = RedCursor::new(twice);
    let first = root.child(0).unwrap();
    let second = root.child(1).unwrap();
    assert_eq!(first.offset(), second.offset());
    assert!(first != second);
    assert!(first != root);
}

#[test]
fn a_cursor_shares_the_green_tree() {
    let mut interner = Interner::new();
    let green = sample(&mut interner);
    let root = RedCursor::new(green.clone());
    assert!(Arc::ptr_eq(root.green().as_node().unwrap(), &green));
    let inner = root.child(1).unwrap();
    assert!(Arc::ptr_eq(
        inner.green().as_node().unwrap(),
        green.children()[1].as_node().unwrap()
    ));
    assert_eq!(green.len(), 18);
}

#[test]
fn a_subtree_used_twice_has_a_cursor_for_each_place() {
    let mut interner = Interner::new();
    let x = token(&mut interner, 1, "xy");
    let leaf = interner.intern_node(Kind(2), vec![x]);
    let twice = interner.intern_node(
        Kind(3),
        vec![NodeOrToken::Node(leaf.clone()), NodeOrToken::Node(leaf)],
    );
    let root = RedCursor::new(twice);
    let first = root.child(0).unwrap();
    let second = root.child(1).unwrap();
    assert!(Arc::ptr_eq(
        first.green().as_node().unwrap(),
        second.green().as_node().unwrap()
    ));
    assert_eq!(first.offset(), 0);
    assert_eq!(second.offset(), 2);
    assert_eq!(root.token_at_offset(3).unwrap().offset(), 2);
    assert!(*root.token_at_offset(3).unwrap().parent().unwrap() == second);
}
