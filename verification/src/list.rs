//! The executable navigator: owns the hierarchy and the session state, maps
//! key events onto the model's transitions, and exposes the render model
//! (visible rows plus cursor) that a host draws from.

use vstd::prelude::*;
use crate::nav::KeyAction;
use crate::nav::NavView;
use crate::nav::at_root_of;
use crate::nav::cmd_view;
use crate::nav::down_nav;
use crate::nav::enter_nav;
use crate::nav::enter_out;
use crate::nav::nav_wf;
use crate::nav::row_count_of;
use crate::nav::step_nav;
use crate::nav::step_out;
use crate::nav::up_nav;
use crate::tree::MenuTree;

verus! {

/// What one visible row is: the synthetic "go up" row, a child with children
/// of its own, or a childless child whose command activation would return.
#[derive(Clone, Copy, Debug, PartialEq, Eq)]
pub enum RowKind {
    Up,
    Branch,
    Leaf,
}

/// One row of the render model: its display label and its kind. The kind
/// only styles the row; navigation is decided by the state machine.
#[derive(Clone, Copy, Debug, PartialEq, Eq)]
pub struct Row {
    pub label: &'static str,
    pub kind: RowKind,
}

/// The interactive menu: an immutable hierarchy, the stack of arena indices
/// from the root to the node the session sits in, and the cursor into that
/// node's visible rows.
pub struct CustomList {
    pub tree: MenuTree,
    pub visit_stack: Vec<usize>,
    pub cursor: usize,
}

impl CustomList {
    /// The built-in menu: a root with three leaf actions and one sub-menu of
    /// three more, the session starting at the root with the first row
    /// selected.
    pub fn new() -> (l: CustomList)
        ensures
            l.wf(),
            at_root_of(l.nav()),
            l.cursor == 0,
            l.visit_stack@ == seq![0usize],
            l.tree.len() == 8,
            l.tree.children_of(0) == seq![1usize, 2, 3, 4],
            l.tree.children_of(4) == seq![5usize, 6, 7],
            l.tree.child_count(1) == 0 && l.tree.child_count(2) == 0 && l.tree.child_count(3)
                == 0,
            l.tree.child_count(5) == 0 && l.tree.child_count(6) == 0 && l.tree.child_count(7)
                == 0,
            l.tree.node(1).name@ == "Eza"@ && l.tree.node(1).command@ == "eza -la"@,
            l.tree.node(2).name@ == "sleep and Eza"@ && l.tree.node(2).command@
                == "sleep 2 && eza -la"@,
            l.tree.node(3).name@ == "Just ls, nothing special, trust me"@ && l.tree.node(
                3,
            ).command@ == "ls -la"@,
            l.tree.node(4).name@ == "Test Category"@ && l.tree.node(4).command@.len() == 0,
            l.tree.node(5).name@ == "sleep, eza, sleep, eza"@ && l.tree.node(5).command@
                == "sleep 1 && eza -la && sleep 1 && eza -la && echo Bonus eza comming... && sleep 1 && eza -la"@,
            l.tree.node(6).name@ == "Just open neovim :), because I can"@ && l.tree.node(
                6,
            ).command@ == "nvim"@,
            l.tree.node(7).name@ == "Recursion?"@ && l.tree.node(7).command@ == "cargo run"@,
    {
        let mut tree = MenuTree::new("root");
        let _n1: usize = tree.add_child(0, "Eza", "eza -la");
        let _n2: usize = tree.add_child(0, "sleep and Eza", "sleep 2 && eza -la");
        let _n3: usize = tree.add_child(0, "Just ls, nothing special, trust me", "ls -la");
        let _n4: usize = tree.add_child(0, "Test Category", "");
        proof {
            reveal_strlit("");
        }
        let _n5: usize = tree.add_child(
            4,
            "sleep, eza, sleep, eza",
            "sleep 1 && eza -la && sleep 1 && eza -la && echo Bonus eza comming... && sleep 1 && eza -la",
        );
        let _n6: usize = tree.add_child(4, "Just open neovim :), because I can", "nvim");
        let _n7: usize = tree.add_child(4, "Recursion?", "cargo run");
        let mut visit_stack: Vec<usize> = Vec::new();
        visit_stack.push(0);
        let l = CustomList { tree, visit_stack, cursor: 0 };
        proof {
            assert(l.visit_stack@ =~= seq![0usize]);
            assert(l.tree.children_of(0) =~= seq![1usize, 2, 3, 4]);
            assert(l.tree.children_of(4) =~= seq![5usize, 6, 7]);
            assert(l.tree.is_branch(0));
            assert forall|i: int| 0 <= i < l.nav().stack.len() implies #[trigger] l.nav().stack[i]
                < l.tree.len() && l.tree.is_branch(l.nav().stack[i] as int) by {
                assert(l.nav().stack[i] == 0);
            }
        }
        l
    }

    /// The abstract navigation state this value is in.
    pub open spec fn nav(self) -> NavView {
        NavView { stack: self.visit_stack@, cursor: self.cursor as nat }
    }

    /// The session invariant: the hierarchy and the navigation state over it
    /// are well-formed.
    pub open spec fn wf(self) -> bool {
        nav_wf(self.tree, self.nav())
    }

    /// Whether the session sits at the root of the hierarchy.
    pub fn at_root(&self) -> (r: bool)
        requires
            self.wf(),
        ensures
            r == at_root_of(self.nav()),
    {
        self.visit_stack.len() == 1
    }

    /// The arena index of the node the session sits in.
    fn current(&self) -> (cur: usize)
        requires
            self.wf(),
        ensures
            cur as int == crate::nav::current_of(self.nav()),
            cur < self.tree.len(),
            self.tree.is_branch(cur as int),
    {
        let depth = self.visit_stack.len();
        let cur = self.visit_stack[depth - 1];
        proof {
            assert(self.nav().stack[depth - 1] < self.tree.len() && self.tree.is_branch(
                self.nav().stack[depth - 1] as int,
            ));
        }
        cur
    }

    /// Move the cursor up one row, saturating at the top.
    pub fn handle_key_up(&mut self)
        requires
            old(self).wf(),
        ensures
            final(self).wf(),
            final(self).tree == old(self).tree,
            final(self).nav() == up_nav(old(self).nav()),
    {
        if self.cursor > 0 {
            self.cursor = self.cursor - 1;
        }
    }

    /// Move the cursor down one row, clamped to the last visible row: the
    /// clamp bound is one less than the child count at the root, where no
    /// "go up" row exists, and the child count itself below the root.
    pub fn handle_key_down(&mut self)
        requires
            old(self).wf(),
        ensures
            final(self).wf(),
            final(self).tree == old(self).tree,
            final(self).nav() == down_nav(old(self).tree, old(self).nav()),
    {
        let cur = self.current();
        let child_count = self.tree.nodes[cur].children.len();
        let bound = if self.at_root() {
            child_count - 1
        } else {
            child_count
        };
        if self.cursor < bound {
            self.cursor = self.cursor + 1;
        } else {
            self.cursor = bound;
        }
    }

    /// Activate the selected row: ascend on the "go up" row, descend into a
    /// branch child, or hand back a leaf child's command, leaving the state
    /// untouched in the last case.
    pub fn handle_enter(&mut self) -> (r: Option<&'static str>)
        requires
            old(self).wf(),
        ensures
            final(self).wf(),
            final(self).tree == old(self).tree,
            final(self).nav() == enter_nav(old(self).tree, old(self).nav()),
            cmd_view(r) == enter_out(old(self).tree, old(self).nav()),
    {
        let cur = self.current();
        if self.visit_stack.len() > 1 && self.cursor == 0 {
            let _popped = self.visit_stack.pop();
            self.cursor = 0;
            proof {
                assert(final(self).nav().stack =~= enter_nav(
                    old(self).tree,
                    old(self).nav(),
                ).stack);
                lemma_enter_preserves(old(self).tree, old(self).nav());
            }
            return None;
        }
        let sel = if self.visit_stack.len() > 1 {
            self.cursor - 1
        } else {
            self.cursor
        };
        let child = self.tree.nodes[cur].children[sel];
        proof {
            assert(self.tree.children_of(cur as int)[sel as int] < self.tree.len());
        }
        if self.tree.nodes[child].children.len() > 0 {
            self.visit_stack.push(child);
            self.cursor = 0;
            proof {
                lemma_enter_preserves(old(self).tree, old(self).nav());
            }
            None
        } else {
            proof {
                lemma_enter_preserves(old(self).tree, old(self).nav());
            }
            Some(self.tree.nodes[child].command)
        }
    }

    /// Consume one key event: `MoveUp` and `MoveDown` move the cursor,
    /// `Activate` ascends, descends or returns a command, and any other key
    /// changes nothing and returns nothing.
    pub fn handle_key(&mut self, event: KeyAction) -> (r: Option<&'static str>)
        requires
            old(self).wf(),
        ensures
            final(self).wf(),
            final(self).tree == old(self).tree,
            final(self).nav() == step_nav(old(self).tree, old(self).nav(), event),
            cmd_view(r) == step_out(old(self).tree, old(self).nav(), event),
    {
        match event {
            KeyAction::MoveUp => {
                self.handle_key_up();
                None
            },
            KeyAction::MoveDown => {
                self.handle_key_down();
                None
            },
            KeyAction::Activate => self.handle_enter(),
            KeyAction::Other => None,
        }
    }

    /// The cursor's row, for highlighting.
    pub fn cursor_row(&self) -> (c: usize)
        ensures
            c == self.cursor,
    {
        self.cursor
    }

    /// The ordered render model: below the root a synthetic "go up" row
    /// first, then one row per child of the current node, in order, labeled
    /// with the child's name and tagged branch or leaf.
    pub fn visible_rows(&self) -> (rows: Vec<Row>)
        requires
            self.wf(),
        ensures
            rows@.len() == row_count_of(self.tree, self.nav()),
            !at_root_of(self.nav()) ==> rows@[0].kind is Up && rows@[0].label@ == ".."@,
            forall|k: int|
                0 <= k < self.tree.child_count(crate::nav::current_of(self.nav()))
                    ==> #[trigger] child_row_ok(
                    self.tree,
                    crate::nav::current_of(self.nav()),
                    k,
                    rows@[k + child_row_offset(self.nav())],
                ),
    {
        let cur = self.current();
        let mut rows: Vec<Row> = Vec::new();
        let offset: usize = if self.at_root() {
            0
        } else {
            rows.push(Row { label: "..", kind: RowKind::Up });
            1
        };
        let child_count = self.tree.nodes[cur].children.len();
        let mut k: usize = 0;
        while k < child_count
            invariant
                self.wf(),
                cur as int == crate::nav::current_of(self.nav()),
                cur < self.tree.len(),
                child_count == self.tree.child_count(cur as int),
                offset as int == child_row_offset(self.nav()),
                k <= child_count,
                rows@.len() == offset + k,
                !at_root_of(self.nav()) ==> rows@[0].kind is Up && rows@[0].label@ == ".."@,
                forall|j: int|
                    0 <= j < k ==> #[trigger] child_row_ok(
                        self.tree,
                        cur as int,
                        j,
                        rows@[j + offset],
                    ),
            decreases child_count - k,
        {
            let child = self.tree.nodes[cur].children[k];
            proof {
                assert(self.tree.children_of(cur as int)[k as int] < self.tree.len());
            }
            let kind = if self.tree.nodes[child].children.len() > 0 {
                RowKind::Branch
            } else {
                RowKind::Leaf
            };
            rows.push(Row { label: self.tree.nodes[child].name, kind });
            k = k + 1;
        }
        rows
    }
}

/// The number of rows that precede the child rows: one for the "go up" row
/// below the root, none at the root.
pub open spec fn child_row_offset(s: NavView) -> int {
    if at_root_of(s) {
        0
    } else {
        1
    }
}

/// `row` renders child `k` of node `cur`: it carries the child's name and is
/// tagged branch or leaf by whether the child has children.
pub open spec fn child_row_ok(t: MenuTree, cur: int, k: int, row: Row) -> bool {
    &&& row.label == t.node(t.children_of(cur)[k] as int).name
    &&& row.kind == if t.is_branch(t.children_of(cur)[k] as int) {
        RowKind::Branch
    } else {
        RowKind::Leaf
    }
}

/// Activation keeps navigation states well-formed: ascending lands on the
/// parent branch, descending lands on a branch child, and a leaf leaves the
/// state alone.
pub proof fn lemma_enter_preserves(t: MenuTree, s: NavView)
    requires
        nav_wf(t, s),
    ensures
        nav_wf(t, enter_nav(t, s)),
{
    let s2 = enter_nav(t, s);
    if crate::nav::on_up_row(s) {
        assert forall|i: int| 1 <= i < s2.stack.len() implies #[trigger] t.children_of(
            s2.stack[i - 1] as int,
        ).contains(s2.stack[i]) by {
            assert(t.children_of(s.stack[i - 1] as int).contains(s.stack[i]));
        }
        assert(s2.stack[s2.stack.len() - 1] == s.stack[s.stack.len() - 2]);
        assert(t.is_branch(s2.stack[s2.stack.len() - 1] as int));
    } else if t.is_branch(crate::nav::sel_child(t, s)) {
        let c = crate::nav::sel_child(t, s);
        let kids = t.children_of(crate::nav::current_of(s));
        assert(0 <= crate::nav::sel_index(s) < kids.len());
        assert(kids[crate::nav::sel_index(s)] == c as usize);
        assert(kids.contains(c as usize));
        assert(c < t.len());
        assert forall|i: int| 1 <= i < s2.stack.len() implies #[trigger] t.children_of(
            s2.stack[i - 1] as int,
        ).contains(s2.stack[i]) by {
            if i < s2.stack.len() - 1 {
                assert(t.children_of(s.stack[i - 1] as int).contains(s.stack[i]));
            }
        }
    }
}

} // verus!
