use vstd::prelude::*;

verus! {

/// A text node of the live view tree: its identity and the value it shows.
#[derive(Clone, Copy, PartialEq, Eq, Structural, Debug)]
pub struct Node {
    pub id: u64,
    pub text: u64,
}

/// Whether some node of `s` has identity `id`.
pub open spec fn contains_id(s: Seq<Node>, id: u64) -> bool {
    exists|i: int| 0 <= i < s.len() && #[trigger] s[i].id == id
}

/// No two nodes of `s` share an identity.
pub open spec fn unique_ids(s: Seq<Node>) -> bool {
    forall|i: int, j: int| 0 <= i < s.len() && 0 <= j < s.len() && i != j ==> s[i].id != s[j].id
}

/// The index of the node with identity `id` (meaningful where `contains_id(s, id)`).
pub open spec fn index_of_id(s: Seq<Node>, id: u64) -> int {
    choose|i: int| 0 <= i < s.len() && #[trigger] s[i].id == id
}

/// `s` without the node of identity `id`; `s` itself where there is none.
pub open spec fn detached(s: Seq<Node>, id: u64) -> Seq<Node> {
    if contains_id(s, id) {
        s.remove(index_of_id(s, id))
    } else {
        s
    }
}

/// `n` placed immediately before the node of identity `marker`, or at the end
/// where there is no marker or no such node.
pub open spec fn placed(s: Seq<Node>, n: Node, marker: Option<u64>) -> Seq<Node> {
    match marker {
        Some(m) => if contains_id(s, m) {
            s.insert(index_of_id(s, m), n)
        } else {
            s.push(n)
        },
        None => s.push(n),
    }
}

/// `n` moved to its place: first taken out of `s` where it stood there.
pub open spec fn mounted(s: Seq<Node>, n: Node, marker: Option<u64>) -> Seq<Node> {
    placed(detached(s, n.id), n, marker)
}

/// Where ids are unique, the index of an id is the one index that holds it.
pub proof fn lemma_index_of_id(s: Seq<Node>, id: u64, k: int)
    requires
        unique_ids(s),
        0 <= k < s.len(),
        s[k].id == id,
    ensures
        contains_id(s, id),
        index_of_id(s, id) == k,
{
    assert(contains_id(s, id));
}

/// The children of one live parent element, in order, and the identity that
/// the next created node gets.
pub struct Tree {
    pub nodes: Vec<Node>,
    pub next_id: u64,
}

impl Tree {
    /// Node identities are unique and all below `next_id`.
    pub open spec fn wf(&self) -> bool {
        &&& unique_ids(self.nodes@)
        &&& forall|i: int| 0 <= i < self.nodes@.len() ==> #[trigger] self.nodes@[i].id < self.next_id
    }

    pub fn new() -> (r: Tree)
        ensures
            r.wf(),
            r.nodes@ == Seq::<Node>::empty(),
            r.next_id == 0,
    {
        Tree { nodes: Vec::new(), next_id: 0 }
    }

    /// A new node with a fresh identity, not yet in the tree.
    pub fn create_text(&mut self, text: u64) -> (n: Node)
        requires
            old(self).wf(),
            old(self).next_id < u64::MAX,
        ensures
            final(self).wf(),
            final(self).nodes@ == old(self).nodes@,
            final(self).next_id == old(self).next_id + 1,
            n.id == old(self).next_id,
            n.text == text,
            !contains_id(old(self).nodes@, n.id),
    {
        let n = Node { id: self.next_id, text };
        self.next_id = self.next_id + 1;
        n
    }

    /// The index of the node with identity `id`, if it is in the tree.
    pub fn position(&self, id: u64) -> (r: Option<usize>)
        requires
            self.wf(),
        ensures
            r.is_none() <==> !contains_id(self.nodes@, id),
            r matches Some(i) ==> i < self.nodes@.len() && self.nodes@[i as int].id == id
                && index_of_id(self.nodes@, id) == i,
    {
        let mut i: usize = 0;
        while i < self.nodes.len()
            invariant
                self.wf(),
                i <= self.nodes@.len(),
                forall|j: int| 0 <= j < i ==> #[trigger] self.nodes@[j].id != id,
            decreases self.nodes@.len() - i,
        {
            if self.nodes[i].id == id {
                proof {
                    lemma_index_of_id(self.nodes@, id, i as int);
                }
                return Some(i);
            }
            i = i + 1;
        }
        None
    }

    /// The value shown by the node of identity `id`, if it is in the tree.
    pub fn text_of(&self, id: u64) -> (r: Option<u64>)
        requires
            self.wf(),
        ensures
            r.is_none() <==> !contains_id(self.nodes@, id),
            r matches Some(t) ==> t == self.nodes@[index_of_id(self.nodes@, id)].text,
    {
        match self.position(id) {
            Some(i) => Some(self.nodes[i].text),
            None => None,
        }
    }

    /// Takes the node of identity `id` out of the tree, if it is there.
    pub fn detach(&mut self, id: u64)
        requires
            old(self).wf(),
        ensures
            final(self).wf(),
            final(self).next_id == old(self).next_id,
            final(self).nodes@ == detached(old(self).nodes@, id),
            !contains_id(final(self).nodes@, id),
    {
        match self.position(id) {
            Some(i) => {
                let ghost s = self.nodes@;
                self.nodes.remove(i);
                proof {
                    s.remove_ensures(i as int);
                    assert forall|a: int, b: int|
                        0 <= a < self.nodes@.len() && 0 <= b < self.nodes@.len() && a != b implies
                        self.nodes@[a].id != self.nodes@[b].id by {
                        let a0 = if a < i { a } else { a + 1 };
                        let b0 = if b < i { b } else { b + 1 };
                        assert(self.nodes@[a] == s[a0]);
                        assert(self.nodes@[b] == s[b0]);
                    }
                    assert forall|j: int| 0 <= j < self.nodes@.len() implies #[trigger] self.nodes@[j].id != id by {
                        let j0 = if j < i { j } else { j + 1 };
                        assert(self.nodes@[j] == s[j0]);
                    }
                    assert forall|j: int| 0 <= j < self.nodes@.len() implies #[trigger] self.nodes@[j].id < self.next_id by {
                        let j0 = if j < i { j } else { j + 1 };
                        assert(self.nodes@[j] == s[j0]);
                    }
                }
            },
            None => {},
        }
    }

    /// Puts `n`, whose identity is not in the tree, before the node of
    /// identity `marker`, or at the end.
    pub fn place(&mut self, n: Node, marker: Option<u64>)
        requires
            old(self).wf(),
            !contains_id(old(self).nodes@, n.id),
            n.id < old(self).next_id,
        ensures
            final(self).wf(),
            final(self).next_id == old(self).next_id,
            final(self).nodes@ == placed(old(self).nodes@, n, marker),
    {
        let ghost s = self.nodes@;
        let at: usize = match marker {
            Some(m) => match self.position(m) {
                Some(i) => i,
                None => self.nodes.len(),
            },
            None => self.nodes.len(),
        };
        self.nodes.insert(at, n);
        proof {
            s.insert_ensures(at as int, n);
            assert(at == s.len() ==> s.insert(at as int, n) =~= s.push(n));
            assert forall|j: int| 0 <= j < self.nodes@.len() && j != at implies
                #[trigger] self.nodes@[j] == s[if j < at { j } else { j - 1 }] by {}
            assert forall|a: int, b: int|
                0 <= a < self.nodes@.len() && 0 <= b < self.nodes@.len() && a != b implies
                self.nodes@[a].id != self.nodes@[b].id by {
                if a != at && b != at {
                    assert(self.nodes@[a] == s[if a < at { a } else { a - 1 }]);
                    assert(self.nodes@[b] == s[if b < at { b } else { b - 1 }]);
                } else if a == at {
                    assert(self.nodes@[b] == s[if b < at { b } else { b - 1 }]);
                } else {
                    assert(self.nodes@[a] == s[if a < at { a } else { a - 1 }]);
                }
            }
            assert forall|j: int| 0 <= j < self.nodes@.len() implies #[trigger] self.nodes@[j].id < self.next_id by {
                if j != at {
                    assert(self.nodes@[j] == s[if j < at { j } else { j - 1 }]);
                }
            }
        }
    }

    /// Moves `n` to stand before the node of identity `marker`, or at the end:
    /// a node already in the tree is taken out first.
    pub fn mount_node(&mut self, n: Node, marker: Option<u64>)
        requires
            old(self).wf(),
            n.id < old(self).next_id,
        ensures
            final(self).wf(),
            final(self).next_id == old(self).next_id,
            final(self).nodes@ == mounted(old(self).nodes@, n, marker),
    {
        self.detach(n.id);
        self.place(n, marker);
    }

    /// Shows `text` in the node of identity `id`, where it is in the tree.
    pub fn set_text(&mut self, id: u64, text: u64)
        requires
            old(self).wf(),
        ensures
            final(self).wf(),
            final(self).next_id == old(self).next_id,
            contains_id(old(self).nodes@, id) ==> final(self).nodes@ == old(self).nodes@.update(
                index_of_id(old(self).nodes@, id),
                Node { id, text },
            ),
            !contains_id(old(self).nodes@, id) ==> final(self).nodes@ == old(self).nodes@,
    {
        match self.position(id) {
            Some(i) => {
                let ghost s = self.nodes@;
                self.nodes.set(i, Node { id, text });
                proof {
                    assert forall|a: int, b: int|
                        0 <= a < self.nodes@.len() && 0 <= b < self.nodes@.len() && a != b implies
                        self.nodes@[a].id != self.nodes@[b].id by {
                        assert(self.nodes@[a].id == s[a].id);
                        assert(self.nodes@[b].id == s[b].id);
                    }
                    assert forall|j: int| 0 <= j < self.nodes@.len() implies #[trigger] self.nodes@[j].id < self.next_id by {
                        assert(self.nodes@[j].id == s[j].id);
                    }
                }
            },
            None => {},
        }
    }
}

} // verus!
