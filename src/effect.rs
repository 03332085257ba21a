use vstd::prelude::*;
use crate::function::ReactiveFunction;
use crate::mountable::{is_placed, made_by, Mountable};
use crate::tree::{contains_id, detached, index_of_id, lemma_index_of_id, mounted, unique_ids, Node, Tree};

verus! {

/// A computation that re-runs its function and keeps the text node it built.
pub struct RenderEffect<F> {
    pub fun: F,
    /// The state built on the first run and updated in place on each later one.
    pub state: Node,
}

/// Retained view state for a render effect: absent once disposed.
pub struct RenderEffectState<F>(pub Option<RenderEffect<F>>);

/// The children after a text node shows `text`: the node keeps its place.
pub open spec fn with_text(s: Seq<Node>, id: u64, text: u64) -> Seq<Node> {
    if contains_id(s, id) {
        s.update(index_of_id(s, id), Node { id, text })
    } else {
        s
    }
}

/// What one run after the first does to an effect: one more call of its
/// function, and the same node showing the value that call returned.
pub open spec fn reran<F: ReactiveFunction<Output = u64>>(
    before: RenderEffect<F>,
    after: RenderEffect<F>,
) -> bool {
    &&& after.fun.reads() == before.fun.reads() + 1
    &&& after.state == (Node { id: before.state.id, text: before.fun.next_output() })
    &&& after.fun.next_output() == before.fun.next_output()
}

/// Over any number of runs after the first, the function is called once per
/// run, and the state stays the same node, showing the value of the last call
/// only. `changed[k]` is the effect just before run `k`, once what its
/// function reads has changed; `ran[k]` is the effect after that run.
pub proof fn lemma_reruns_keep_latest<F: ReactiveFunction<Output = u64>>(
    changed: Seq<RenderEffect<F>>,
    ran: Seq<RenderEffect<F>>,
)
    requires
        changed.len() == ran.len(),
        changed.len() > 0,
        forall|k: int| 0 <= k < ran.len() ==> reran(#[trigger] changed[k], ran[k]),
        forall|k: int|
            0 < k < ran.len() ==> #[trigger] changed[k].fun.reads() == ran[k - 1].fun.reads()
                && changed[k].state == ran[k - 1].state,
    ensures
        ran.last().fun.reads() == changed[0].fun.reads() + ran.len(),
        ran.last().state == (Node { id: changed[0].state.id, text: changed.last().fun.next_output() }),
    decreases ran.len(),
{
    let n = ran.len() - 1;
    if n > 0 {
        lemma_reruns_keep_latest(changed.subrange(0, n), ran.subrange(0, n));
        assert(changed[n].fun.reads() == ran[n - 1].fun.reads());
        assert(changed[n].state == ran[n - 1].state);
    }
}

/// Make before break: placing a fresh node immediately before the node at
/// `i`, then taking that node out, leaves every sibling where it was and the
/// fresh node where the old one stood.
pub proof fn lemma_make_before_break(s: Seq<Node>, i: int, n: Node)
    requires
        unique_ids(s),
        0 <= i < s.len(),
        !contains_id(s, n.id),
    ensures
        detached(mounted(s, n, Some(s[i].id)), s[i].id) == s.update(i, n),
{
    let o = s[i].id;
    assert(detached(s, n.id) == s);
    lemma_index_of_id(s, o, i);
    let t = s.insert(i, n);
    assert(mounted(s, n, Some(o)) == t);
    s.insert_ensures(i, n);
    assert forall|a: int, b: int| 0 <= a < t.len() && 0 <= b < t.len() && a != b implies t[a].id
        != t[b].id by {
        if a != i && b != i {
            assert(t[a] == s[if a < i { a } else { a - 1 }]);
            assert(t[b] == s[if b < i { b } else { b - 1 }]);
        } else if a == i {
            assert(t[b] == s[if b < i { b } else { b - 1 }]);
        } else {
            assert(t[a] == s[if a < i { a } else { a - 1 }]);
        }
    }
    assert(t[i + 1] == s[i]);
    lemma_index_of_id(t, o, i + 1);
    assert(t.remove(i + 1) =~= s.update(i, n));
}

/// Replacing a slot in place, as `rebuild` does, keeps the siblings before
/// and after it as they were, puts the new node where the old one stood, and
/// leaves the old node nowhere in the tree.
pub proof fn lemma_rebuild_keeps_siblings(before: Seq<Node>, after: Seq<Node>, i: int, n: Node)
    requires
        unique_ids(before),
        0 <= i < before.len(),
        !contains_id(before, n.id),
        after == before.update(i, n),
    ensures
        after.len() == before.len(),
        after.subrange(0, i) == before.subrange(0, i),
        after.subrange(i + 1, after.len() as int) == before.subrange(i + 1, before.len() as int),
        after[i] == n,
        !contains_id(after, before[i].id),
{
    assert(after.subrange(0, i) =~= before.subrange(0, i));
    assert(after.subrange(i + 1, after.len() as int) =~= before.subrange(i + 1, before.len() as int));
    if contains_id(after, before[i].id) {
        let k = choose|k: int| 0 <= k < after.len() && #[trigger] after[k].id == before[i].id;
        if k == i {
            assert(contains_id(before, n.id));
        } else {
            assert(before[k].id == before[i].id);
        }
    }
}

impl<F: ReactiveFunction<Output = u64>> RenderEffectState<F> {
    /// Runs the function once and builds a text node for its value; the
    /// effect then holds that node and has run once.
    pub fn build(fun: F, tree: &mut Tree) -> (r: Self)
        requires
            old(tree).wf(),
            old(tree).next_id < u64::MAX,
        ensures
            final(tree).wf(),
            final(tree).nodes@ == old(tree).nodes@,
            final(tree).next_id == old(tree).next_id + 1,
            r.0 matches Some(e) && e.fun.reads() == fun.reads() + 1 && e.state == (Node {
                id: old(tree).next_id,
                text: fun.next_output(),
            }) && e.fun.next_output() == fun.next_output(),
    {
        let mut fun = fun;
        let value = fun.invoke();
        let state = tree.create_text(value);
        RenderEffectState(Some(RenderEffect { fun, state }))
    }

    /// Runs the function once and takes the node `at`, already in the tree, as
    /// its state: no node is created, and the node shows the value in place.
    pub fn hydrate(fun: F, tree: &mut Tree, at: u64) -> (r: Self)
        requires
            old(tree).wf(),
            contains_id(old(tree).nodes@, at),
        ensures
            final(tree).wf(),
            final(tree).next_id == old(tree).next_id,
            final(tree).nodes@ == with_text(old(tree).nodes@, at, fun.next_output()),
            r.0 matches Some(e) && e.fun.reads() == fun.reads() + 1 && e.state == (Node {
                id: at,
                text: fun.next_output(),
            }) && e.fun.next_output() == fun.next_output(),
    {
        let mut fun = fun;
        let value = fun.invoke();
        tree.set_text(at, value);
        RenderEffectState(Some(RenderEffect { fun, state: Node { id: at, text: value } }))
    }

    /// The effect's run after a change of what its function reads: the
    /// function is called once more and the node it built shows the new value
    /// in place, with no node created or moved.
    pub fn rerun(&mut self, tree: &mut Tree)
        requires
            old(tree).wf(),
        ensures
            final(tree).wf(),
            final(tree).next_id == old(tree).next_id,
            old(self).0 is None ==> final(self).0 is None && final(tree).nodes@ == old(tree).nodes@,
            old(self).0 matches Some(e) ==> final(self).0 matches Some(e2) && reran(e, e2)
                && final(tree).nodes@ == with_text(old(tree).nodes@, e.state.id, e.fun.next_output()),
    {
        match &mut self.0 {
            Some(e) => {
                let value = e.fun.invoke();
                e.state.text = value;
                tree.set_text(e.state.id, value);
            },
            None => {},
        }
    }

    /// Replaces the whole slot: builds a new effect for `fun`, mounts its node
    /// immediately before the old state's node, then unmounts the old state.
    pub fn rebuild(fun: F, state: &mut Self, tree: &mut Tree)
        requires
            old(tree).wf(),
            old(tree).next_id < u64::MAX,
            made_by(*old(tree), old(state).node()),
        ensures
            final(tree).wf(),
            final(tree).next_id == old(tree).next_id + 1,
            final(state).0 matches Some(e) && e.fun.reads() == fun.reads() + 1 && e.state == (Node {
                id: old(tree).next_id,
                text: fun.next_output(),
            }),
            is_placed(old(tree).nodes@, old(state).node()) ==> final(tree).nodes@
                == old(tree).nodes@.update(
                index_of_id(old(tree).nodes@, old(state).node().unwrap().id),
                final(state).node().unwrap(),
            ),
            !is_placed(old(tree).nodes@, old(state).node()) ==> final(tree).nodes@
                == old(tree).nodes@,
    {
        let ghost s = tree.nodes@;
        let mut old_state = Self::build(fun, tree);
        core::mem::swap(state, &mut old_state);
        let fresh = state.current_node();
        let placed = old_state.insert_before_this(tree, fresh);
        old_state.unmount(tree);
        proof {
            let n = fresh.unwrap();
            assert(!contains_id(s, n.id));
            if placed {
                let i = index_of_id(s, old_state.node().unwrap().id);
                lemma_make_before_break(s, i, n);
            } else {
                match old_state.node() {
                    Some(o) => assert(detached(s, o.id) == s),
                    None => {},
                }
            }
        }
    }
}

impl<F> From<RenderEffect<F>> for RenderEffectState<F> {
    fn from(value: RenderEffect<F>) -> (r: Self) {
        RenderEffectState(Some(value))
    }
}

impl<F> vstd::std_specs::convert::FromSpecImpl<RenderEffect<F>> for RenderEffectState<F> {
    open spec fn obeys_from_spec() -> bool {
        true
    }

    open spec fn from_spec(v: RenderEffect<F>) -> Self {
        RenderEffectState(Some(v))
    }
}

/// An effect forwards each operation to the state it holds.
impl<F> Mountable for RenderEffect<F> {
    open spec fn node(&self) -> Option<Node> {
        Some(self.state)
    }

    fn unmount(&mut self, tree: &mut Tree) {
        self.state.unmount(tree);
    }

    fn mount(&mut self, tree: &mut Tree, marker: Option<u64>) {
        self.state.mount(tree, marker);
    }

    fn current_node(&self) -> (r: Option<Node>) {
        Some(self.state)
    }

    fn insert_before_this(&self, tree: &mut Tree, child: Option<Node>) -> (r: bool) {
        self.state.insert_before_this(tree, child)
    }
}

/// The state of a slot forwards to its effect; with none, each operation does
/// nothing and nothing is ordered.
impl<F> Mountable for RenderEffectState<F> {
    open spec fn node(&self) -> Option<Node> {
        match self.0 {
            Some(e) => e.node(),
            None => None,
        }
    }

    fn unmount(&mut self, tree: &mut Tree) {
        match &mut self.0 {
            Some(e) => e.unmount(tree),
            None => {},
        }
    }

    fn mount(&mut self, tree: &mut Tree, marker: Option<u64>) {
        match &mut self.0 {
            Some(e) => e.mount(tree, marker),
            None => {},
        }
    }

    fn current_node(&self) -> (r: Option<Node>) {
        match &self.0 {
            Some(e) => e.current_node(),
            None => None,
        }
    }

    fn insert_before_this(&self, tree: &mut Tree, child: Option<Node>) -> (r: bool) {
        match &self.0 {
            Some(e) => e.insert_before_this(tree, child),
            None => false,
        }
    }
}

} // verus!
