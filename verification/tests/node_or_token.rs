use std::sync::Arc;
use syntax_tree::green::share_element;
use syntax_tree::{
    ArcBorrow, GreenElement, GreenNode, GreenToken, Handle, Interner, Kind, NodeOrToken,
};

fn node_side() -> NodeOrToken<u8, &'static str> {
    NodeOrToken::Node(7)
}

fn token_side() -> NodeOrToken<u8, &'static str> {
    NodeOrToken::Token("let")
}

fn sample() -> (Arc<GreenNode>, Arc<GreenToken>) {
    let mut interner = Interner::new();
    let token = interner.intern_token(Kind(4), "let");
    let node = interner.intern_node(Kind(9), vec![NodeOrToken::Token(token.clone())]);
    (node, token)
}

#[test]
fn kind_compares_by_number() {
    assert!(Kind(1) < Kind(2));
    assert!(Kind(u16::MAX) > Kind(0));
    assert_eq!(Kind(3), Kind(3));
    assert_ne!(Kind(3), Kind(4));
    assert_eq!(Kind(3).0, 3);
}

#[test]
fn kind_debug_is_inline() {
    assert_eq!(format!("{:?}", Kind(5)), "Kind(5)");
}

#[test]
fn into_node_gives_the_node_payload() {
    assert_eq!(node_side().into_node(), Some(7));
    assert_eq!(token_side().into_node(), None);
}

#[test]
fn into_token_gives_the_token_payload() {
    assert_eq!(token_side().into_token(), Some("let"));
    assert_eq!(node_side().into_token(), None);
}

#[test]
fn as_node_and_as_token_borrow_the_payload() {
    let node = node_side();
    let token = token_side();
    assert_eq!(node.as_node(), Some(&7));
    assert_eq!(node.as_token(), None);
    assert_eq!(token.as_token(), Some(&"let"));
    assert_eq!(token.as_node(), None);
}

#[test]
fn is_node_and_is_token_tell_the_variant() {
    assert!(node_side().is_node());
    assert!(!node_side().is_token());
    assert!(token_side().is_token());
    assert!(!token_side().is_node());
}

#[test]
fn unwrap_on_the_matching_variant_returns_the_payload() {
    assert_eq!(node_side().unwrap_node(), 7);
    assert_eq!(token_side().unwrap_token(), "let");
}

#[test]
fn as_ref_keeps_variant_and_payload() {
    let node = node_side();
    let token = token_side();
    assert_eq!(node.as_ref(), NodeOrToken::Node(&7));
    assert_eq!(token.as_ref(), NodeOrToken::Token(&"let"));
}

#[test]
fn as_ref_and_back_is_the_same_value() {
    let node = node_side();
    let back: NodeOrToken<u8, &str> = node.as_ref().map(|n| *n, |t| *t);
    assert_eq!(back, node);
    let token = token_side();
    let back: NodeOrToken<u8, &str> = token.as_ref().map(|n| *n, |t| *t);
    assert_eq!(back, token);
}

#[test]
fn map_applies_the_transform_of_the_active_side() {
    let mapped = node_side().map(|n| u32::from(n) + 1, |t| t.len());
    assert_eq!(mapped, NodeOrToken::Node(8));
    let mapped = token_side().map(|n| u32::from(n) + 1, |t| t.len());
    assert_eq!(mapped, NodeOrToken::Token(3));
}

#[test]
fn map_with_identities_changes_nothing() {
    assert_eq!(node_side().map(|n| n, |t| t), node_side());
    assert_eq!(token_side().map(|n| n, |t| t), token_side());
}

#[test]
fn flatten_gives_the_payload_of_either_side() {
    let node: NodeOrToken<u8, u8> = NodeOrToken::Node(1);
    let token: NodeOrToken<u8, u8> = NodeOrToken::Token(2);
    assert_eq!(node.flatten(), 1);
    assert_eq!(token.flatten(), 2);
}

#[test]
fn as_deref_reads_through_shared_handles() {
    let (node, token) = sample();
    let element: GreenElement = NodeOrToken::Node(node.clone());
    match element.as_deref() {
        NodeOrToken::Node(n) => assert!(std::ptr::eq(n, &*node)),
        NodeOrToken::Token(_) => panic!("a node was expected"),
    }
    let element: GreenElement = NodeOrToken::Token(token.clone());
    match element.as_deref() {
        NodeOrToken::Token(t) => assert!(std::ptr::eq(t, &*token)),
        NodeOrToken::Node(_) => panic!("a token was expected"),
    }
}

#[test]
fn kind_and_len_delegate_to_the_green_element() {
    let (node, token) = sample();
    let element: GreenElement = NodeOrToken::Node(node);
    assert_eq!(element.kind(), Kind(9));
    assert_eq!(element.len(), 3);
    let element: GreenElement = NodeOrToken::Token(token);
    assert_eq!(element.kind(), Kind(4));
    assert_eq!(element.len(), 3);
}

#[test]
fn kind_and_len_work_over_plain_references() {
    let (node, token) = sample();
    let by_ref: NodeOrToken<&GreenNode, &GreenToken> = NodeOrToken::Node(&*node);
    assert_eq!(by_ref.kind(), Kind(9));
    assert_eq!(by_ref.len(), 3);
    let by_ref: NodeOrToken<&GreenNode, &GreenToken> = NodeOrToken::Token(&*token);
    assert_eq!(by_ref.kind(), Kind(4));
    assert_eq!(by_ref.len(), 3);
}

#[test]
fn kind_and_len_work_over_borrows() {
    let (node, token) = sample();
    let borrowed: NodeOrToken<ArcBorrow<GreenNode>, ArcBorrow<GreenToken>> =
        NodeOrToken::Node(ArcBorrow::new(&node));
    assert_eq!(borrowed.kind(), Kind(9));
    assert_eq!(borrowed.len(), 3);
    let borrowed: NodeOrToken<ArcBorrow<GreenNode>, ArcBorrow<GreenToken>> =
        NodeOrToken::Token(ArcBorrow::new(&token));
    assert_eq!(borrowed.kind(), Kind(4));
    assert_eq!(borrowed.len(), 3);
}

#[test]
fn arc_borrow_takes_no_part_in_the_count() {
    let (node, _) = sample();
    let before = Arc::strong_count(&node);
    let borrow = ArcBorrow::new(&node);
    let copy = borrow;
    assert_eq!(Arc::strong_count(&node), before);
    assert!(std::ptr::eq(ArcBorrow::downgrade(borrow), &*node));
    assert!(std::ptr::eq(ArcBorrow::downgrade(copy), &*node));
    assert!(std::ptr::eq(borrow.get(), &*node));
    assert_eq!(Arc::strong_count(&node), before);
}

#[test]
fn handle_reads_the_value_behind_each_form() {
    let (_, token) = sample();
    assert!(std::ptr::eq(token.get(), &*token));
    let plain: &GreenToken = &token;
    assert!(std::ptr::eq(plain.get(), &*token));
}

#[test]
fn from_shared_handles_picks_the_variant() {
    let (node, token) = sample();
    let element: GreenElement = NodeOrToken::from(node.clone());
    assert!(Arc::ptr_eq(element.as_node().unwrap(), &node));
    let element: GreenElement = NodeOrToken::from(token.clone());
    assert!(Arc::ptr_eq(element.as_token().unwrap(), &token));
}

#[test]
fn from_plain_references_picks_the_variant() {
    let (node, token) = sample();
    let by_ref: NodeOrToken<&GreenNode, &GreenToken> = NodeOrToken::from(&*node);
    assert!(std::ptr::eq(by_ref.unwrap_node(), &*node));
    let by_ref: NodeOrToken<&GreenNode, &GreenToken> = NodeOrToken::from(&*token);
    assert!(std::ptr::eq(by_ref.unwrap_token(), &*token));
}

#[test]
fn from_references_to_shared_handles_reads_through() {
    let (node, token) = sample();
    let by_ref: NodeOrToken<&GreenNode, &GreenToken> = NodeOrToken::from(&node);
    assert!(std::ptr::eq(by_ref.unwrap_node(), &*node));
    let by_ref: NodeOrToken<&GreenNode, &GreenToken> = NodeOrToken::from(&token);
    assert!(std::ptr::eq(by_ref.unwrap_token(), &*token));
}

#[test]
fn from_a_reference_to_an_element_reads_through() {
    let (node, token) = sample();
    let element: GreenElement = NodeOrToken::Node(node.clone());
    let by_ref: NodeOrToken<&GreenNode, &GreenToken> = NodeOrToken::from(&element);
    assert!(std::ptr::eq(by_ref.unwrap_node(), &*node));
    let element: GreenElement = NodeOrToken::Token(token.clone());
    let by_ref: NodeOrToken<&GreenNode, &GreenToken> = NodeOrToken::from(&element);
    assert!(std::ptr::eq(by_ref.unwrap_token(), &*token));
}

#[test]
fn from_borrows_downgrades_each_side() {
    let (node, token) = sample();
    let by_ref: NodeOrToken<&GreenNode, &GreenToken> = NodeOrToken::from(ArcBorrow::new(&node));
    assert!(std::ptr::eq(by_ref.unwrap_node(), &*node));
    let by_ref: NodeOrToken<&GreenNode, &GreenToken> = NodeOrToken::from(ArcBorrow::new(&token));
    assert!(std::ptr::eq(by_ref.unwrap_token(), &*token));
    let borrowed: NodeOrToken<ArcBorrow<GreenNode>, ArcBorrow<GreenToken>> =
        NodeOrToken::Node(ArcBorrow::new(&node));
    let by_ref: NodeOrToken<&GreenNode, &GreenToken> = NodeOrToken::from(borrowed);
    assert!(std::ptr::eq(by_ref.unwrap_node(), &*node));
    let borrowed: NodeOrToken<ArcBorrow<GreenNode>, ArcBorrow<GreenToken>> =
        NodeOrToken::Token(ArcBorrow::new(&token));
    let by_ref: NodeOrToken<&GreenNode, &GreenToken> = NodeOrToken::from(borrowed);
    assert!(std::ptr::eq(by_ref.unwrap_token(), &*token));
}

#[test]
fn borrowed_form_and_back_keeps_variant_and_allocation() {
    let (node, token) = sample();
    let element: GreenElement = NodeOrToken::Node(node.clone());
    assert!(element.as_deref().is_node());
    let back = share_element(&element);
    assert!(Arc::ptr_eq(back.as_node().unwrap(), &node));
    let element: GreenElement = NodeOrToken::Token(token.clone());
    assert!(element.as_deref().is_token());
    let back = share_element(&element);
    assert!(Arc::ptr_eq(back.as_token().unwrap(), &token));
}
