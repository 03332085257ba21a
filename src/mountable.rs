use vstd::prelude::*;
use crate::tree::{contains_id, mounted, detached, Node, Tree};

verus! {

/// The children after mounting the state that owns `node`, if it owns one.
pub open spec fn after_mount(s: Seq<Node>, node: Option<Node>, marker: Option<u64>) -> Seq<Node> {
    match node {
        Some(n) => mounted(s, n, marker),
        None => s,
    }
}

/// The children after unmounting the state that owns `node`, if it owns one.
pub open spec fn after_unmount(s: Seq<Node>, node: Option<Node>) -> Seq<Node> {
    match node {
        Some(n) => detached(s, n.id),
        None => s,
    }
}

/// Whether the state that owns `node` stands in the tree with children `s`.
pub open spec fn is_placed(s: Seq<Node>, node: Option<Node>) -> bool {
    match node {
        Some(n) => contains_id(s, n.id),
        None => false,
    }
}

/// Whether `node`, if there is one, was made by the tree.
pub open spec fn made_by(t: Tree, node: Option<Node>) -> bool {
    match node {
        Some(n) => n.id < t.next_id,
        None => true,
    }
}

/// Render state that can be put into, taken out of, and ordered within the tree.
pub trait Mountable: Sized {
    /// The node that this state currently owns, if any.
    spec fn node(&self) -> Option<Node>;

    /// Takes the state's node out of the tree; nothing where it owns none.
    fn unmount(&mut self, tree: &mut Tree)
        requires
            old(tree).wf(),
        ensures
            final(tree).wf(),
            final(tree).next_id == old(tree).next_id,
            final(tree).nodes@ == after_unmount(old(tree).nodes@, old(self).node()),
            *final(self) == *old(self),
    ;

    /// Puts the state's node before the node `marker`, or at the end; nothing
    /// where it owns none.
    fn mount(&mut self, tree: &mut Tree, marker: Option<u64>)
        requires
            old(tree).wf(),
            made_by(*old(tree), old(self).node()),
        ensures
            final(tree).wf(),
            final(tree).next_id == old(tree).next_id,
            final(tree).nodes@ == after_mount(old(tree).nodes@, old(self).node(), marker),
            *final(self) == *old(self),
    ;

    /// The node that this state currently owns, if any.
    fn current_node(&self) -> (r: Option<Node>)
        ensures
            r == self.node(),
    ;

    /// Mounts the state that owns `child` (see `current_node`) immediately
    /// before this state's node, where that node stands in the tree, and says
    /// whether it did.
    fn insert_before_this(&self, tree: &mut Tree, child: Option<Node>) -> (r: bool)
        requires
            old(tree).wf(),
            made_by(*old(tree), child),
        ensures
            final(tree).wf(),
            final(tree).next_id == old(tree).next_id,
            r == is_placed(old(tree).nodes@, self.node()),
            r ==> final(tree).nodes@ == after_mount(
                old(tree).nodes@,
                child,
                Some(self.node().unwrap().id),
            ),
            !r ==> final(tree).nodes@ == old(tree).nodes@,
    ;
}

/// A text node is the state of a text view value.
impl Mountable for Node {
    open spec fn node(&self) -> Option<Node> {
        Some(*self)
    }

    fn unmount(&mut self, tree: &mut Tree) {
        tree.detach(self.id);
        assert(old(self).node() == Some(*old(self)));
        assert(*final(self) == *old(self));
    }

    fn mount(&mut self, tree: &mut Tree, marker: Option<u64>) {
        tree.mount_node(*self, marker);
    }

    fn current_node(&self) -> (r: Option<Node>) {
        Some(*self)
    }

    fn insert_before_this(&self, tree: &mut Tree, child: Option<Node>) -> (r: bool) {
        match tree.position(self.id) {
            Some(_) => {
                match child {
                    Some(c) => tree.mount_node(c, Some(self.id)),
                    None => {},
                }
                true
            },
            None => false,
        }
    }
}

/// A fallible value in view position: only its success is ever mounted.
impl<M: Mountable, E> Mountable for Result<M, E> {
    open spec fn node(&self) -> Option<Node> {
        match self {
            Ok(m) => m.node(),
            Err(_) => None,
        }
    }

    fn unmount(&mut self, tree: &mut Tree) {
        match self {
            Ok(inner) => inner.unmount(tree),
            Err(_) => {},
        }
    }

    fn mount(&mut self, tree: &mut Tree, marker: Option<u64>) {
        match self {
            Ok(inner) => inner.mount(tree, marker),
            Err(_) => {},
        }
    }

    fn current_node(&self) -> (r: Option<Node>) {
        match self {
            Ok(inner) => inner.current_node(),
            Err(_) => None,
        }
    }

    fn insert_before_this(&self, tree: &mut Tree, child: Option<Node>) -> (r: bool) {
        match self {
            Ok(inner) => inner.insert_before_this(tree, child),
            Err(_) => false,
        }
    }
}

} // verus!
