use tachys::attr::{attr_to_html, into_cloneable, Attr, AttrEffectState, Element};
use tachys::effect::{RenderEffect, RenderEffectState};
use tachys::function::{ReactiveFunction, Source};
use tachys::html::{dry_resolve, html_len, push_decimal, to_html, to_html_async, StreamBuilder};
use tachys::mountable::Mountable;
use tachys::suspend::{suspended_to_html, SuspendState};
use tachys::tree::{Node, Tree};

fn ids(tree: &Tree) -> Vec<u64> {
    tree.nodes.iter().map(|n| n.id).collect()
}

fn texts(tree: &Tree) -> Vec<u64> {
    tree.nodes.iter().map(|n| n.text).collect()
}

#[test]
fn build_invokes_the_function_once() {
    let mut tree = Tree::new();
    let st = RenderEffectState::build(Source::new(7), &mut tree);
    let e = st.0.as_ref().unwrap();
    assert_eq!(e.state, Node { id: 0, text: 7 });
    assert_eq!(tree.next_id, 1);
    assert!(tree.nodes.is_empty());
}

#[test]
fn each_rerun_invokes_once_and_keeps_the_latest_value() {
    let mut tree = Tree::new();
    let mut st = RenderEffectState::build(Source::new(1), &mut tree);
    st.mount(&mut tree, None);
    for v in [2u64, 3, 4] {
        st.0.as_mut().unwrap().fun.set(v);
        st.rerun(&mut tree);
    }
    let e = st.0.as_ref().unwrap();
    assert_eq!(e.state, Node { id: 0, text: 4 });
    assert_eq!(tree.nodes, vec![Node { id: 0, text: 4 }]);
}

#[test]
fn counter_scenario_updates_text_in_place() {
    let mut tree = Tree::new();
    let mut buf: Vec<u8> = Vec::new();
    to_html(Source::new(0), &mut buf);
    assert_eq!(String::from_utf8(buf).unwrap(), "0");

    let mut st = RenderEffectState::build(Source::new(0), &mut tree);
    st.mount(&mut tree, None);
    assert_eq!(texts(&tree), vec![0]);
    let before = ids(&tree);

    st.0.as_mut().unwrap().fun.set(42);
    st.rerun(&mut tree);
    assert_eq!(texts(&tree), vec![42]);
    assert_eq!(ids(&tree), before);
    assert_eq!(tree.nodes.len(), 1);
    let mut out: Vec<u8> = Vec::new();
    push_decimal(tree.nodes[0].text, &mut out);
    assert_eq!(String::from_utf8(out).unwrap(), "42");
}

#[test]
fn rebuild_keeps_sibling_order() {
    let mut tree = Tree::new();
    let mut a = RenderEffectState::build(Source::new(10), &mut tree);
    let mut b = RenderEffectState::build(Source::new(20), &mut tree);
    let mut c = RenderEffectState::build(Source::new(30), &mut tree);
    a.mount(&mut tree, None);
    b.mount(&mut tree, None);
    c.mount(&mut tree, None);
    assert_eq!(ids(&tree), vec![0, 1, 2]);

    RenderEffectState::rebuild(Source::new(21), &mut b, &mut tree);
    assert_eq!(ids(&tree), vec![0, 3, 2]);
    assert_eq!(texts(&tree), vec![10, 21, 30]);
    let e = b.0.as_ref().unwrap();
    assert_eq!(e.state, Node { id: 3, text: 21 });
}

#[test]
fn rebuild_of_unmounted_state_mounts_nothing() {
    let mut tree = Tree::new();
    let mut a = RenderEffectState::build(Source::new(1), &mut tree);
    a.mount(&mut tree, None);
    let mut b = RenderEffectState::build(Source::new(2), &mut tree);
    RenderEffectState::rebuild(Source::new(3), &mut b, &mut tree);
    assert_eq!(ids(&tree), vec![0]);
    assert_eq!(b.0.as_ref().unwrap().state, Node { id: 2, text: 3 });
}

#[test]
fn hydrate_attaches_without_creating_nodes() {
    let mut tree = Tree::new();
    let pre = tree.create_text(5);
    tree.place(pre, None);
    let mut st = RenderEffectState::hydrate(Source::new(5), &mut tree, pre.id);
    assert_eq!(tree.next_id, 1);
    assert_eq!(tree.nodes, vec![Node { id: 0, text: 5 }]);
    st.0.as_mut().unwrap().fun.set(6);
    st.rerun(&mut tree);
    assert_eq!(tree.nodes, vec![Node { id: 0, text: 6 }]);
}

#[test]
fn disposed_effect_is_inert() {
    let mut tree = Tree::new();
    let mut a = RenderEffectState::build(Source::new(1), &mut tree);
    a.mount(&mut tree, None);
    let mut gone: RenderEffectState<Source> = RenderEffectState(None);
    gone.rerun(&mut tree);
    gone.mount(&mut tree, None);
    assert!(!gone.insert_before_this(&mut tree, a.current_node()));
    gone.unmount(&mut tree);
    assert_eq!(ids(&tree), vec![0]);
}

#[test]
fn unmount_then_mount_before_marker() {
    let mut tree = Tree::new();
    let mut a = RenderEffectState::build(Source::new(1), &mut tree);
    let mut b = RenderEffectState::build(Source::new(2), &mut tree);
    a.mount(&mut tree, None);
    b.mount(&mut tree, None);
    b.unmount(&mut tree);
    assert_eq!(ids(&tree), vec![0]);
    b.mount(&mut tree, Some(0));
    assert_eq!(ids(&tree), vec![1, 0]);
    assert!(b.insert_before_this(&mut tree, a.current_node()));
    assert_eq!(ids(&tree), vec![0, 1]);
}

#[test]
fn unresolved_slot_is_inert() {
    let mut tree = Tree::new();
    let mut a = RenderEffectState::build(Source::new(1), &mut tree);
    a.mount(&mut tree, None);
    let mut slot = SuspendState::build();
    slot.mount(&mut tree, None);
    slot.unmount(&mut tree);
    assert!(!slot.insert_before_this(&mut tree, a.current_node()));
    slot.resolve_rebuild(&mut tree, 9);
    assert!(!slot.is_resolved());
    assert_eq!(tree.nodes, vec![Node { id: 0, text: 1 }]);
}

#[test]
fn resolved_slot_is_rebuilt_in_place() {
    let mut tree = Tree::new();
    let mut slot = SuspendState::build();
    assert!(tree.nodes.is_empty());
    slot.resolve_build(&mut tree, 77, None);
    assert!(slot.is_resolved());
    assert_eq!(tree.nodes, vec![Node { id: 0, text: 77 }]);
    slot.resolve_rebuild(&mut tree, 78);
    assert_eq!(slot.slot, Some(Node { id: 0, text: 78 }));
    assert_eq!(tree.nodes, vec![Node { id: 0, text: 78 }]);
}

#[test]
fn resolved_slot_hydrates_existing_node() {
    let mut tree = Tree::new();
    let pre = tree.create_text(1);
    tree.place(pre, None);
    let mut slot = SuspendState::build();
    slot.resolve_hydrate(&mut tree, pre.id, 2);
    assert_eq!(slot.slot, Some(Node { id: 0, text: 2 }));
    assert_eq!(tree.nodes, vec![Node { id: 0, text: 2 }]);
    assert_eq!(tree.next_id, 1);
}

#[test]
fn failed_value_is_never_mounted() {
    let mut tree = Tree::new();
    let n = tree.create_text(3);
    let mut failed: Result<Node, u8> = Err(1);
    failed.mount(&mut tree, None);
    assert!(tree.nodes.is_empty());
    let mut ok: Result<Node, u8> = Ok(n);
    ok.mount(&mut tree, None);
    assert_eq!(tree.nodes, vec![n]);
    assert!(!failed.insert_before_this(&mut tree, Some(n)));
    ok.unmount(&mut tree);
    assert!(tree.nodes.is_empty());
}

#[test]
fn poisoned_shared_function_fails_every_time() {
    let mut shared = Source::new(5).into_shared();
    assert_eq!(shared.try_invoke(), Some(5));
    assert_eq!(shared.invoke(), 5);
    shared.poison();
    for _ in 0..3 {
        assert_eq!(shared.try_invoke(), None);
        assert!(shared.is_poisoned());
    }
}

#[test]
fn serialisation_writes_decimal_digits() {
    let mut buf: Vec<u8> = b"<p>".to_vec();
    to_html(Source::new(1203), &mut buf);
    assert_eq!(buf, b"<p>1203".to_vec());
    let mut big: Vec<u8> = Vec::new();
    push_decimal(u64::MAX, &mut big);
    assert_eq!(String::from_utf8(big).unwrap(), u64::MAX.to_string());
    assert_eq!(html_len(&Source::new(99)), 0);
    let mut s = Source::new(4);
    dry_resolve(&mut s);
    assert_eq!(s.get(), 4);
}

#[test]
fn tree_detach_and_text_lookup() {
    let mut tree = Tree::new();
    let a = tree.create_text(1);
    let b = tree.create_text(2);
    tree.place(a, None);
    tree.place(b, Some(a.id));
    assert_eq!(ids(&tree), vec![1, 0]);
    assert_eq!(tree.position(0), Some(1));
    assert_eq!(tree.text_of(1), Some(2));
    tree.set_text(1, 9);
    assert_eq!(tree.text_of(1), Some(9));
    tree.detach(1);
    assert_eq!(tree.text_of(1), None);
    tree.detach(1);
    assert_eq!(ids(&tree), vec![0]);
    tree.mount_node(Node { id: 0, text: 1 }, None);
    assert_eq!(ids(&tree), vec![0]);
}

#[test]
fn stream_serialisation_joins_the_synchronous_text() {
    let mut stream = StreamBuilder::new();
    stream.sync_buf.extend_from_slice(b"<b>");
    to_html_async(Source::new(305), &mut stream);
    assert_eq!(stream.sync_buf, b"<b>305".to_vec());
    assert!(stream.chunks.is_empty());
}

#[test]
fn dynamic_attribute_follows_its_function() {
    let mut el = Element::new();
    el.set(1, 100);
    let mut st = AttrEffectState::build(Source::new(5), &mut el, 2);
    assert_eq!(el.attrs, vec![Attr { key: 1, value: 100 }, Attr { key: 2, value: 5 }]);
    st.0.as_mut().unwrap().fun.set(6);
    st.rerun(&mut el);
    assert_eq!(el.get(2), Some(6));
    assert_eq!(el.attrs.len(), 2);
    AttrEffectState::rebuild(Source::new(9), 2, &mut st);
    assert_eq!(st.0.as_ref().unwrap().value, 6);

    let h = AttrEffectState::hydrate(Source::new(100), &el, 1);
    assert_eq!(h.0.as_ref().unwrap().value, 100);
    assert_eq!(el.get(1), Some(100));

    let mut buf: Vec<u8> = Vec::new();
    attr_to_html(Source::new(12), b"width", &mut buf);
    assert_eq!(String::from_utf8(buf).unwrap(), " width=\"12\"");
}

#[test]
fn effect_state_from_effect() {
    let e = RenderEffect { fun: Source::new(1), state: Node { id: 4, text: 1 } };
    let st: RenderEffectState<Source> = RenderEffectState::from(e);
    assert_eq!(st.current_node(), Some(Node { id: 4, text: 1 }));
}

#[test]
fn resolved_slot_is_built_where_it_stands() {
    let mut tree = Tree::new();
    let mut a = RenderEffectState::build(Source::new(1), &mut tree);
    let mut c = RenderEffectState::build(Source::new(3), &mut tree);
    a.mount(&mut tree, None);
    c.mount(&mut tree, None);
    let mut slot = SuspendState::build();
    assert_eq!(ids(&tree), vec![0, 1]);
    slot.resolve_build(&mut tree, 2, Some(1));
    assert_eq!(ids(&tree), vec![0, 2, 1]);
    assert_eq!(texts(&tree), vec![1, 2, 3]);
}

#[test]
fn suspended_value_serialises_to_nothing() {
    let mut buf: Vec<u8> = b"<div>".to_vec();
    suspended_to_html(&mut buf);
    assert_eq!(buf, b"<div>".to_vec());
}

#[test]
fn dry_pre_pass_keeps_the_value() {
    let mut plain = Source::new(8);
    let mut memo = Source::memo(9);
    plain.dry_resolve();
    memo.dry_resolve();
    assert_eq!(plain.get(), 8);
    assert_eq!(memo.get(), 9);
    assert!(memo.memoized);
    assert!(!plain.memoized);
}

#[test]
fn mount_and_unmount_keep_the_state() {
    let mut tree = Tree::new();
    let mut st = RenderEffectState::build(Source::new(0), &mut tree);
    st.mount(&mut tree, None);
    st.unmount(&mut tree);
    st.mount(&mut tree, None);
    st.0.as_mut().unwrap().fun.set(42);
    st.rerun(&mut tree);
    assert_eq!(tree.nodes, vec![Node { id: 0, text: 42 }]);
    let mut failed: Result<Node, u8> = Err(7);
    failed.mount(&mut tree, None);
    failed.unmount(&mut tree);
    assert_eq!(failed, Err(7));
}

#[test]
fn cloneable_attribute_is_the_shared_form() {
    let mut shared = into_cloneable(Source::new(31));
    assert!(!shared.is_poisoned());
    assert_eq!(shared.try_invoke(), Some(31));
    shared.function.set(32);
    assert_eq!(shared.invoke(), 32);
}
