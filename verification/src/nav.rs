//! The navigation state machine as a mathematical model. The session state
//! is a stack of arena indices (root to current node) and a cursor into the
//! visible rows of the current node; each key event maps to a new state and
//! an optional command string.

use vstd::prelude::*;
use crate::tree::MenuTree;

verus! {

/// A key event after the host has mapped raw input onto the four gestures
/// the navigator understands. Anything unrecognized is `Other` and leaves
/// the state untouched.
#[derive(Clone, Copy, Debug, PartialEq, Eq)]
pub enum KeyAction {
    MoveUp,
    MoveDown,
    Activate,
    Other,
}

/// The abstract navigation state: the path from the root to the current
/// node, as arena indices, and the zero-based cursor into the current node's
/// visible rows.
pub struct NavView {
    pub stack: Seq<usize>,
    pub cursor: nat,
}

/// The state is at the root exactly when the path holds only the root.
pub open spec fn at_root_of(s: NavView) -> bool {
    s.stack.len() == 1
}

/// The arena index of the node the state currently sits in.
pub open spec fn current_of(s: NavView) -> int {
    s.stack.last() as int
}

/// How many rows are visible: the children of the current node, plus a
/// synthetic "go up" row when the state is below the root.
pub open spec fn row_count_of(t: MenuTree, s: NavView) -> int {
    if at_root_of(s) {
        t.child_count(current_of(s)) as int
    } else {
        t.child_count(current_of(s)) + 1int
    }
}

/// Well-formedness of a navigation state over a hierarchy: the hierarchy
/// itself is well-formed, the path starts at the root and is never empty,
/// every entry on it is a branch node of the arena, consecutive entries are
/// parent and child, and the cursor lies within the visible rows.
pub open spec fn nav_wf(t: MenuTree, s: NavView) -> bool {
    &&& t.wf()
    &&& s.stack.len() >= 1
    &&& s.stack[0] == 0
    &&& forall|i: int|
        0 <= i < s.stack.len() ==> #[trigger] s.stack[i] < t.len() && t.is_branch(
            s.stack[i] as int,
        )
    &&& forall|i: int|
        1 <= i < s.stack.len() ==> #[trigger] t.children_of(s.stack[i - 1] as int).contains(
            s.stack[i],
        )
    &&& s.cursor < row_count_of(t, s)
}

/// Move the cursor up one row, saturating at 0. The path never changes.
pub open spec fn up_nav(s: NavView) -> NavView {
    NavView {
        stack: s.stack,
        cursor: if s.cursor > 0 {
            (s.cursor - 1) as nat
        } else {
            0
        },
    }
}

/// Move the cursor down one row, clamped to the last visible row. The path
/// never changes.
pub open spec fn down_nav(t: MenuTree, s: NavView) -> NavView {
    NavView {
        stack: s.stack,
        cursor: if s.cursor + 1 <= row_count_of(t, s) - 1 {
            (s.cursor + 1) as nat
        } else {
            (row_count_of(t, s) - 1) as nat
        },
    }
}

/// The cursor rests on the synthetic "go up" row: only below the root, and
/// only at row 0.
pub open spec fn on_up_row(s: NavView) -> bool {
    !at_root_of(s) && s.cursor == 0
}

/// The position of the selected child among the current node's children:
/// the cursor itself at the root, one less below it (the "go up" row sits
/// in front of the children there).
pub open spec fn sel_index(s: NavView) -> int {
    if at_root_of(s) {
        s.cursor as int
    } else {
        s.cursor - 1
    }
}

/// The arena index of the selected child.
pub open spec fn sel_child(t: MenuTree, s: NavView) -> int {
    t.children_of(current_of(s))[sel_index(s)] as int
}

/// Activate the selected row. On the "go up" row: ascend one level and reset
/// the cursor. On a branch child: descend into it and reset the cursor. On a
/// leaf child: leave the state exactly as it is.
pub open spec fn enter_nav(t: MenuTree, s: NavView) -> NavView {
    if on_up_row(s) {
        NavView { stack: s.stack.drop_last(), cursor: 0 }
    } else if t.is_branch(sel_child(t, s)) {
        NavView { stack: s.stack.push(sel_child(t, s) as usize), cursor: 0 }
    } else {
        s
    }
}

/// What activation hands back: the leaf's command string when a leaf child
/// is activated, nothing otherwise.
pub open spec fn enter_out(t: MenuTree, s: NavView) -> Option<Seq<char>> {
    if on_up_row(s) {
        None
    } else if t.is_branch(sel_child(t, s)) {
        None
    } else {
        Some(t.node(sel_child(t, s)).command@)
    }
}

/// The state after one key event.
pub open spec fn step_nav(t: MenuTree, s: NavView, e: KeyAction) -> NavView {
    match e {
        KeyAction::MoveUp => up_nav(s),
        KeyAction::MoveDown => down_nav(t, s),
        KeyAction::Activate => enter_nav(t, s),
        KeyAction::Other => s,
    }
}

/// The command handed back by one key event.
pub open spec fn step_out(t: MenuTree, s: NavView, e: KeyAction) -> Option<Seq<char>> {
    match e {
        KeyAction::Activate => enter_out(t, s),
        _ => None,
    }
}

/// The state after a whole sequence of key events, first event first.
pub open spec fn run_nav(t: MenuTree, s: NavView, es: Seq<KeyAction>) -> NavView
    decreases es.len(),
{
    if es.len() == 0 {
        s
    } else {
        run_nav(t, step_nav(t, s, es[0]), es.drop_first())
    }
}

/// The view of an optional command string, for relating executable results
/// to the model's output.
pub open spec fn cmd_view(r: Option<&'static str>) -> Option<Seq<char>> {
    match r {
        Some(c) => Some(c@),
        None => None,
    }
}

} // verus!
