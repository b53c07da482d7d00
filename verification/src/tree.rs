//! The menu hierarchy: an immutable tree of labeled entries, kept as an
//! index-based arena so that positions in it can be named by plain indices.

use vstd::prelude::*;

verus! {

/// One entry of the menu hierarchy: a display label, the shell command bound
/// to it (empty for entries that only group others), and the arena indices of
/// its children, in display order. An entry is a leaf exactly when `children`
/// is empty.
pub struct MenuNode {
    pub name: &'static str,
    pub command: &'static str,
    pub children: Vec<usize>,
}

/// The menu hierarchy as an index-based arena. Node 0 is the root. Child
/// indices always point forward in the arena, so the structure cannot contain
/// a cycle.
pub struct MenuTree {
    pub nodes: Vec<MenuNode>,
}

impl MenuTree {
    /// The number of nodes in the arena.
    pub open spec fn len(self) -> nat {
        self.nodes@.len()
    }

    /// The node stored at arena index `i`.
    pub open spec fn node(self, i: int) -> MenuNode {
        self.nodes@[i]
    }

    /// The child indices of node `i`, in display order.
    pub open spec fn children_of(self, i: int) -> Seq<usize> {
        self.nodes@[i].children@
    }

    /// How many children node `i` has.
    pub open spec fn child_count(self, i: int) -> nat {
        self.children_of(i).len()
    }

    /// A node is a branch iff it has at least one child; otherwise it is a
    /// leaf whose `command` is meaningful.
    pub open spec fn is_branch(self, i: int) -> bool {
        self.child_count(i) > 0
    }

    /// Well-formedness of the arena: it is non-empty (node 0, the root,
    /// exists), every child index points past its parent and into the arena,
    /// and a node with children carries no command of its own.
    pub open spec fn wf(self) -> bool {
        &&& self.len() >= 1
        &&& forall|i: int, j: int|
            0 <= i < self.len() && 0 <= j < self.child_count(i)
                ==> i < #[trigger] self.children_of(i)[j] < self.len()
        &&& forall|i: int|
            0 <= i < self.len() && #[trigger] self.is_branch(i) ==> self.node(
                i,
            ).command@.len() == 0
    }

    /// A fresh hierarchy holding only a root entry with the given label and
    /// no command.
    pub fn new(root_name: &'static str) -> (t: MenuTree)
        ensures
            t.wf(),
            t.len() == 1,
            t.node(0).name == root_name,
            t.node(0).command@.len() == 0,
            t.child_count(0) == 0,
    {
        let mut nodes: Vec<MenuNode> = Vec::new();
        nodes.push(MenuNode { name: root_name, command: "", children: Vec::new() });
        proof {
            reveal_strlit("");
        }
        MenuTree { nodes }
    }

    /// Append a new leaf entry under `parent` and return its arena index.
    /// The parent must carry no command, since gaining a child makes it a
    /// branch. Every other node is left untouched; the new entry becomes the
    /// last child of `parent`.
    pub fn add_child(&mut self, parent: usize, name: &'static str, command: &'static str) -> (idx:
        usize)
        requires
            old(self).wf(),
            parent < old(self).len(),
            old(self).node(parent as int).command@.len() == 0,
        ensures
            final(self).wf(),
            idx == old(self).len(),
            final(self).len() == old(self).len() + 1,
            final(self).node(idx as int).name == name,
            final(self).node(idx as int).command == command,
            final(self).child_count(idx as int) == 0,
            final(self).children_of(parent as int) == old(self).children_of(
                parent as int,
            ).push(idx),
            final(self).node(parent as int).name == old(self).node(parent as int).name,
            final(self).node(parent as int).command == old(self).node(parent as int).command,
            forall|i: int|
                0 <= i < old(self).len() && i != parent ==> final(self).node(i) == old(self).node(
                    i,
                ),
    {
        let idx = self.nodes.len();
        self.nodes.push(MenuNode { name, command, children: Vec::new() });
        let parent_node = node_mut(&mut self.nodes, parent);
        parent_node.children.push(idx);
        proof {
            let new = *self;
            let prev = *old(self);
            assert forall|i: int, j: int|
                0 <= i < new.len() && 0 <= j < new.child_count(i) implies i
                < #[trigger] new.children_of(i)[j] < new.len() by {
                if i == parent {
                    if j < prev.child_count(i) {
                        assert(new.children_of(i)[j] == prev.children_of(i)[j]);
                    } else {
                        assert(new.children_of(i)[j] == idx);
                    }
                } else if i < prev.len() {
                    assert(new.node(i) == prev.node(i));
                }
            }
            assert forall|i: int|
                0 <= i < new.len() && #[trigger] new.is_branch(i) implies new.node(
                i,
            ).command@.len() == 0 by {
                if i == parent {
                    assert(new.node(i).command == prev.node(i).command);
                    assert(prev.node(i).command@.len() == 0);
                    assert(new.node(i).command@.len() == 0);
                } else if i < prev.len() {
                    assert(new.node(i) == prev.node(i));
                    assert(prev.is_branch(i));
                    assert(new.node(i).command@.len() == 0);
                } else {
                    assert(new.children_of(i).len() == 0);
                    assert(!new.is_branch(i));
                }
            }
        }
        idx
    }
}

/// A mutable borrow of one arena slot, with the usual relation between the
/// vector before and after the borrow expires.
fn node_mut(nodes: &mut Vec<MenuNode>, i: usize) -> (node: &mut MenuNode)
    requires
        i < old(nodes).len(),
    ensures
        *node == old(nodes)@[i as int],
        final(nodes)@ == old(nodes)@.update(i as int, *final(node)),
{
    &mut nodes[i]
}

} // verus!
