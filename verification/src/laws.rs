//! Proved properties of the navigation state machine, stated over the
//! mathematical model in `nav`.

use vstd::prelude::*;
use crate::nav::KeyAction;
use crate::nav::NavView;
use crate::nav::at_root_of;
use crate::nav::current_of;
use crate::nav::down_nav;
use crate::nav::enter_nav;
use crate::nav::enter_out;
use crate::nav::nav_wf;
use crate::nav::on_up_row;
use crate::nav::row_count_of;
use crate::nav::run_nav;
use crate::nav::sel_child;
use crate::nav::sel_index;
use crate::nav::step_nav;
use crate::nav::up_nav;
use crate::list::lemma_enter_preserves;
use crate::tree::MenuTree;

verus! {

/// Every key event carries a well-formed navigation state to a well-formed
/// one, over the same hierarchy.
pub proof fn lemma_step_preserves_wf(t: MenuTree, s: NavView, e: KeyAction)
    requires
        nav_wf(t, s),
    ensures
        nav_wf(t, step_nav(t, s, e)),
{
    match e {
        KeyAction::Activate => lemma_enter_preserves(t, s),
        _ => {},
    }
}

/// The session invariant holds in every reachable state: any sequence of
/// key events carries a well-formed navigation state to a well-formed one,
/// so the cursor always lies within the visible rows and the path always
/// runs from the root through branch nodes.
pub proof fn lemma_run_preserves_wf(t: MenuTree, s: NavView, es: Seq<KeyAction>)
    requires
        nav_wf(t, s),
    ensures
        nav_wf(t, run_nav(t, s, es)),
    decreases es.len(),
{
    if es.len() > 0 {
        lemma_step_preserves_wf(t, s, es[0]);
        lemma_run_preserves_wf(t, step_nav(t, s, es[0]), es.drop_first());
    }
}

/// Any number of `MoveDown` events at the root leaves the session at the
/// root, on the same path, and carries the cursor to exactly its old value
/// plus the number of events, clamped to the last child row: it never
/// exceeds `children_count(root) - 1`.
pub proof fn lemma_move_down_at_root_bounded(t: MenuTree, s: NavView, es: Seq<KeyAction>)
    requires
        nav_wf(t, s),
        at_root_of(s),
        forall|i: int| 0 <= i < es.len() ==> es[i] is MoveDown,
    ensures
        nav_wf(t, run_nav(t, s, es)),
        run_nav(t, s, es).stack == s.stack,
        run_nav(t, s, es).cursor <= t.child_count(current_of(s)) - 1,
        run_nav(t, s, es).cursor as int == if s.cursor + es.len() <= t.child_count(
            current_of(s),
        ) - 1 {
            s.cursor + es.len() as int
        } else {
            t.child_count(current_of(s)) - 1
        },
    decreases es.len(),
{
    if es.len() > 0 {
        assert(es[0] is MoveDown);
        let s1 = down_nav(t, s);
        lemma_step_preserves_wf(t, s, es[0]);
        assert forall|i: int| 0 <= i < es.drop_first().len() implies es.drop_first()[i]
            is MoveDown by {
            assert(es.drop_first()[i] == es[i + 1]);
        }
        lemma_move_down_at_root_bounded(t, s1, es.drop_first());
    }
}

/// Any number of `MoveUp` events leaves the path alone and carries the
/// cursor to exactly its old value less the number of events, saturating at
/// 0: in particular it never goes below 0.
pub proof fn lemma_move_up_saturates(t: MenuTree, s: NavView, es: Seq<KeyAction>)
    requires
        nav_wf(t, s),
        forall|i: int| 0 <= i < es.len() ==> es[i] is MoveUp,
    ensures
        nav_wf(t, run_nav(t, s, es)),
        run_nav(t, s, es).stack == s.stack,
        run_nav(t, s, es).cursor == if es.len() >= s.cursor {
            0nat
        } else {
            (s.cursor - es.len()) as nat
        },
    decreases es.len(),
{
    if es.len() > 0 {
        assert(es[0] is MoveUp);
        let s1 = up_nav(s);
        lemma_step_preserves_wf(t, s, es[0]);
        assert forall|i: int| 0 <= i < es.drop_first().len() implies es.drop_first()[i]
            is MoveUp by {
            assert(es.drop_first()[i] == es[i + 1]);
        }
        lemma_move_up_saturates(t, s1, es.drop_first());
    }
}

/// Activating the "go up" row below the root pops exactly one level off the
/// path, resets the cursor to 0, and returns no command.
pub proof fn lemma_ascend_pops_one(t: MenuTree, s: NavView)
    requires
        nav_wf(t, s),
        !at_root_of(s),
        s.cursor == 0,
    ensures
        nav_wf(t, enter_nav(t, s)),
        enter_nav(t, s).stack == s.stack.drop_last(),
        enter_nav(t, s).stack.len() == s.stack.len() - 1,
        enter_nav(t, s).cursor == 0,
        enter_out(t, s) is None,
{
    lemma_enter_preserves(t, s);
}

/// At the root there is no "go up" row: no activation ever shortens the
/// path there.
pub proof fn lemma_no_ascent_at_root(t: MenuTree, s: NavView)
    requires
        nav_wf(t, s),
        at_root_of(s),
    ensures
        enter_nav(t, s).stack.len() >= s.stack.len(),
{
}

/// Activating a branch child descends into it: the path grows by exactly
/// one entry, that entry is the selected child, the cursor resets to 0, and
/// no command is returned.
pub proof fn lemma_descend_grows_one(t: MenuTree, s: NavView)
    requires
        nav_wf(t, s),
        !on_up_row(s),
        t.is_branch(sel_child(t, s)),
    ensures
        nav_wf(t, enter_nav(t, s)),
        enter_nav(t, s).stack == s.stack.push(sel_child(t, s) as usize),
        enter_nav(t, s).stack.len() == s.stack.len() + 1,
        enter_nav(t, s).cursor == 0,
        enter_out(t, s) is None,
{
    lemma_enter_preserves(t, s);
}

/// Activating a leaf child changes neither the path nor the cursor, and
/// returns exactly that leaf's command string.
pub proof fn lemma_leaf_returns_command(t: MenuTree, s: NavView)
    requires
        nav_wf(t, s),
        !on_up_row(s),
        !t.is_branch(sel_child(t, s)),
    ensures
        enter_nav(t, s) == s,
        enter_out(t, s) == Some(t.node(sel_child(t, s)).command@),
{
}

/// Round trip: from any state below the root with the cursor on the "go up"
/// row, ascending and then activating the row of the branch just left
/// restores the original state exactly — the position is pinned by the path.
pub proof fn lemma_ascend_then_redescend(t: MenuTree, s: NavView)
    requires
        nav_wf(t, s),
        !at_root_of(s),
        s.cursor == 0,
    ensures
        ({
            let up = enter_nav(t, s);
            exists|r: nat|
                r < row_count_of(t, up) && #[trigger] enter_nav(
                    t,
                    NavView { stack: up.stack, cursor: r },
                ) == s
        }),
{
    let up = enter_nav(t, s);
    lemma_ascend_pops_one(t, s);
    let prev = s.stack[s.stack.len() - 1];
    let parent = s.stack[s.stack.len() - 2];
    assert(t.children_of(parent as int).contains(prev));
    let j = choose|j: int|
        0 <= j < t.children_of(parent as int).len() && t.children_of(parent as int)[j] == prev;
    assert(up.stack[up.stack.len() - 1] == parent);
    let r = if at_root_of(up) {
        j as nat
    } else {
        (j + 1) as nat
    };
    let probe = NavView { stack: up.stack, cursor: r };
    assert(sel_index(probe) == j);
    assert(sel_child(t, probe) == prev as int);
    assert(t.is_branch(prev as int));
    assert(enter_nav(t, probe).stack =~= s.stack);
    assert(enter_nav(t, probe) == s);
    assert(r < row_count_of(t, up) && enter_nav(t, NavView { stack: up.stack, cursor: r }) == s);
}

} // verus!
