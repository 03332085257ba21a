use vstd::prelude::*;
use crate::mountable::{after_mount, after_unmount, is_placed, Mountable};
use crate::tree::{contains_id, placed, Node, Tree};
use crate::effect::with_text;

verus! {

/// The slot of a value that arrives later: empty until its future resolves,
/// then the state that the resolved value built or hydrated.
pub struct SuspendState {
    pub slot: Option<Node>,
}

/// A slot that never resolved is inert: mounting and unmounting it leave the
/// tree as it was, and it is never in place to order against.
pub proof fn lemma_unresolved_slot_is_inert(s: Seq<Node>, marker: Option<u64>)
    ensures
        after_mount(s, None, marker) == s,
        after_unmount(s, None) == s,
        !is_placed(s, None),
{
}

/// What a later resolved value does to a slot: the state already there shows
/// it in place; an empty slot stays empty.
pub open spec fn rebuilt_slot(before: SuspendState, after: SuspendState, value: u64) -> bool {
    match before.slot {
        Some(n) => after.slot == Some(Node { id: n.id, text: value }),
        None => after.slot is None,
    }
}

/// After a slot resolved, by building or by hydrating, every later value is
/// shown by that same state: the slot keeps its node through any number of
/// rebuilds and shows the last value.
pub proof fn lemma_resolved_slot_kept(slots: Seq<SuspendState>, values: Seq<u64>)
    requires
        slots.len() == values.len() + 1,
        values.len() > 0,
        slots[0].slot is Some,
        forall|k: int| 0 <= k < values.len() ==> rebuilt_slot(#[trigger] slots[k], slots[k + 1], values[k]),
    ensures
        slots.last().slot == Some(Node { id: slots[0].slot.unwrap().id, text: values.last() }),
    decreases values.len(),
{
    let n = values.len() - 1;
    if n > 0 {
        lemma_resolved_slot_kept(slots.subrange(0, n + 1), values.subrange(0, n));
        assert(slots.subrange(0, n + 1).last() == slots[n]);
        assert(rebuilt_slot(slots[n], slots[n + 1], values[n]));
    } else {
        assert(rebuilt_slot(slots[0], slots[1], values[0]));
    }
}

impl SuspendState {
    /// The state handed back at once: empty, since nothing has resolved yet.
    pub fn build() -> (r: SuspendState)
        ensures
            r.slot is None,
    {
        SuspendState { slot: None }
    }

    /// The resolved value, built: a new node for it, put into the tree where
    /// the slot stands, before the node `marker`, or at the end.
    pub fn resolve_build(&mut self, tree: &mut Tree, value: u64, marker: Option<u64>)
        requires
            old(tree).wf(),
            old(tree).next_id < u64::MAX,
        ensures
            final(tree).wf(),
            final(tree).next_id == old(tree).next_id + 1,
            final(self).slot == Some(Node { id: old(tree).next_id, text: value }),
            final(tree).nodes@ == placed(old(tree).nodes@, Node { id: old(tree).next_id, text: value }, marker),
    {
        let n = tree.create_text(value);
        tree.place(n, marker);
        self.slot = Some(n);
    }

    /// The resolved value, hydrated: it takes the node `at`, already in the
    /// tree, and shows its value there.
    pub fn resolve_hydrate(&mut self, tree: &mut Tree, at: u64, value: u64)
        requires
            old(tree).wf(),
            contains_id(old(tree).nodes@, at),
        ensures
            final(tree).wf(),
            final(tree).next_id == old(tree).next_id,
            final(self).slot == Some(Node { id: at, text: value }),
            final(tree).nodes@ == with_text(old(tree).nodes@, at, value),
    {
        tree.set_text(at, value);
        self.slot = Some(Node { id: at, text: value });
    }

    /// A new value resolved for the slot: the state already there shows it in
    /// place; where nothing has resolved yet, the value is dropped.
    pub fn resolve_rebuild(&mut self, tree: &mut Tree, value: u64)
        requires
            old(tree).wf(),
        ensures
            final(tree).wf(),
            final(tree).next_id == old(tree).next_id,
            rebuilt_slot(*old(self), *final(self), value),
            old(self).slot is None ==> final(tree).nodes@ == old(tree).nodes@,
            old(self).slot matches Some(n) ==> final(tree).nodes@ == with_text(old(tree).nodes@, n.id, value),
    {
        match &mut self.slot {
            Some(n) => {
                n.text = value;
                tree.set_text(n.id, value);
            },
            None => {},
        }
    }

    /// Whether the value has resolved.
    pub fn is_resolved(&self) -> (r: bool)
        ensures
            r == self.slot.is_some(),
    {
        self.slot.is_some()
    }
}

/// Synchronous serialisation of a value that has not resolved: it is only
/// supported under a suspense boundary, and gives no text here.
pub fn suspended_to_html(buf: &mut Vec<u8>)
    ensures
        final(buf)@ == old(buf)@,
{
}

impl Mountable for SuspendState {
    open spec fn node(&self) -> Option<Node> {
        self.slot
    }

    fn unmount(&mut self, tree: &mut Tree) {
        match &mut self.slot {
            Some(n) => n.unmount(tree),
            None => {},
        }
    }

    fn mount(&mut self, tree: &mut Tree, marker: Option<u64>) {
        match &mut self.slot {
            Some(n) => n.mount(tree, marker),
            None => {},
        }
    }

    fn current_node(&self) -> (r: Option<Node>) {
        self.slot
    }

    fn insert_before_this(&self, tree: &mut Tree, child: Option<Node>) -> (r: bool) {
        match &self.slot {
            Some(n) => n.insert_before_this(tree, child),
            None => false,
        }
    }
}

} // verus!
