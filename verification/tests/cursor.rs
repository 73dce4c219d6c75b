use ioveca::iters::{Extra, Tuplenation};
use ioveca::optvec::OptVec;
use ioveca::parser::Parser;
use ioveca::span::Span;
use ioveca::stream::Stream;
use ioveca::tree::Tree;

fn sp() -> Span {
    Span::new(0, 0)
}

fn toks(names: &[&str]) -> Vec<Tree> {
    names.iter().map(|n| Tree::ident(n, sp())).collect()
}

#[test]
fn span_new_and_as_tuple_round() {
    let s = Span::new(3, 9);
    assert_eq!(s.as_tuple(), (3, 9));
    assert_eq!(s.start, 3);
    assert_eq!(s.end, 9);
}

#[test]
fn forward_walks_and_stops_at_the_end() {
    let mut st = Stream::new(toks(&["a", "b"]));
    assert!(!st.end());
    assert_eq!(st.forward(), Some(Tree::ident("a", sp())));
    assert_eq!(st.forward(), Some(Tree::ident("b", sp())));
    assert!(st.end());
    assert_eq!(st.forward(), None);
    assert_eq!(st.forward(), None);
}

#[test]
fn peek_does_not_move() {
    let mut st = Stream::new(toks(&["a", "b", "c"]));
    assert_eq!(st.peek(), Some(Tree::ident("a", sp())));
    assert_eq!(st.peek(), Some(Tree::ident("a", sp())));
    assert_eq!(st.peek_steps(2), Some(Tree::ident("c", sp())));
    assert_eq!(st.peek_steps(3), None);
    assert_eq!(st.forward(), Some(Tree::ident("a", sp())));
}

#[test]
fn forward_steps_beyond_the_end_is_a_no_op() {
    let mut st = Stream::new(toks(&["a", "b", "c"]));
    assert_eq!(st.forward_steps(9), None);
    // the position did not move: the next token is still the first
    assert_eq!(st.peek(), Some(Tree::ident("a", sp())));
    assert_eq!(st.forward_steps(2), Some(Tree::ident("c", sp())));
    assert!(!st.end());
}

#[test]
fn back_steps_beyond_the_start_is_a_no_op() {
    let mut st = Stream::new(toks(&["a", "b", "c"]));
    st.forward();
    assert_eq!(st.back_steps(5), None);
    // the position did not move: the next token is still the second
    assert_eq!(st.peek(), Some(Tree::ident("b", sp())));
    assert_eq!(st.back_steps(1), Some(Tree::ident("a", sp())));
    assert_eq!(st.back(), None);
}

#[test]
fn back_returns_the_previous_token() {
    let mut st = Stream::new(toks(&["a", "b"]));
    assert_eq!(st.back(), None);
    st.forward();
    st.forward();
    assert_eq!(st.back(), Some(Tree::ident("b", sp())));
    assert_eq!(st.back(), Some(Tree::ident("a", sp())));
    assert_eq!(st.back(), None);
}

#[test]
fn empty_stream_is_at_its_end() {
    let mut st = Stream::new(Vec::new());
    assert!(st.end());
    assert_eq!(st.peek(), None);
    assert_eq!(st.forward(), None);
}

#[test]
fn parser_cursor_methods_delegate() {
    let mut p = Parser::new(toks(&["a", "b", "c", "d"]));
    assert_eq!(p.peek(), Some(Tree::ident("a", sp())));
    assert_eq!(p.next(), Some(Tree::ident("a", sp())));
    p.skip();
    assert_eq!(p.next_st(1), Some(Tree::ident("d", sp())));
    assert_eq!(p.back_st(2), Some(Tree::ident("b", sp())));
    assert_eq!(p.back(), Some(Tree::ident("a", sp())));
    assert!(p.eof_next().is_ok());
}

#[test]
fn optvec_starts_empty_and_keeps_push_order() {
    let mut v: OptVec<u32> = OptVec::new(4);
    assert!(v.into_self().is_none());
    let mut v: OptVec<u32> = OptVec::new(4);
    v.push(1);
    v.push(2);
    v.push(3);
    assert_eq!(v.into_self(), Some(vec![1, 2, 3]));
}

#[test]
fn optvec_do_something_applies_or_defaults() {
    let empty: OptVec<u32> = OptVec::new(0);
    assert_eq!(empty.do_something(7, |v| v.len()), 7);
    let mut filled: OptVec<u32> = OptVec::new(0);
    filled.push(5);
    filled.push(6);
    assert_eq!(filled.do_something(7, |v| v.len()), 2);
}

#[test]
fn optvec_do_take_empties_the_list() {
    let mut v: OptVec<u32> = OptVec::new(0);
    v.push(10);
    assert_eq!(v.do_take(0, |vec| vec[0]), 10);
    assert!(v.get_inside().is_none());
    let mut w: OptVec<u32> = OptVec::new(0);
    w.push(1);
    assert_eq!(w.get_inside(), Some(vec![1]));
    assert!(w.get_inside().is_none());
}

#[test]
fn extra_inserts_a_produced_item_after_the_step_count() {
    let mut it = Extra::new(vec![1, 2, 3, 4], 2, || 99);
    assert_eq!(it.next(), Some(1));
    assert_eq!(it.next(), Some(2));
    assert_eq!(it.next(), Some(99));
    assert_eq!(it.next(), Some(3));
    assert_eq!(it.next(), Some(4));
    assert_eq!(it.next(), Some(99));
    assert_eq!(it.next(), None);
}

#[test]
fn tuplenation_pairs_items_and_drops_a_leftover() {
    let mut it = Tuplenation::new(vec![1, 2, 3, 4, 5]);
    assert_eq!(it.next(), Some((1, 2)));
    assert_eq!(it.next(), Some((3, 4)));
    assert_eq!(it.next(), None);
    assert_eq!(it.next(), None);
}

#[test]
fn tuplenation_of_even_length_pairs_everything() {
    let mut it = Tuplenation::new(vec!["a", "b", "c", "d"]);
    assert_eq!(it.next(), Some(("a", "b")));
    assert_eq!(it.next(), Some(("c", "d")));
    assert_eq!(it.next(), None);
}
