use tui_menu::CustomList;
use tui_menu::KeyAction;
use tui_menu::MenuTree;

/// The two-level hierarchy: root -> [A(leaf,"cmd1"), B(branch) -> [C(leaf,"cmd2")]].
fn small_menu() -> CustomList {
    let mut tree = MenuTree::new("root");
    let a = tree.add_child(0, "A", "cmd1");
    let b = tree.add_child(0, "B", "");
    let c = tree.add_child(b, "C", "cmd2");
    assert_eq!(a, 1);
    assert_eq!(c, 3);
    CustomList { tree, visit_stack: vec![0], cursor: 0 }
}

#[test]
fn scenario_descend_and_activate_leaf() {
    let mut l = small_menu();
    assert_eq!(l.visit_stack, vec![0]);
    assert_eq!(l.cursor, 0);

    assert_eq!(l.handle_key(KeyAction::MoveDown), None);
    assert_eq!(l.cursor, 1, "clamped at 1 since children_count = 2");

    assert_eq!(l.handle_key(KeyAction::Activate), None, "descend into B");
    assert_eq!(l.visit_stack, vec![0, 2]);
    assert_eq!(l.cursor, 0);

    let rows = l.visible_rows();
    let labels: Vec<&str> = rows.iter().map(|r| r.label).collect();
    assert_eq!(labels, vec!["..", "C"]);

    assert_eq!(l.handle_key(KeyAction::MoveDown), None);
    assert_eq!(l.cursor, 1, "clamped, row count = 2");

    assert_eq!(l.handle_key(KeyAction::Activate), Some("cmd2"));
    assert_eq!(l.visit_stack, vec![0, 2], "activating a leaf does not navigate");
    assert_eq!(l.cursor, 1);
}

#[test]
fn scenario_ascend_from_up_row() {
    let mut l = small_menu();
    l.handle_key(KeyAction::MoveDown);
    l.handle_key(KeyAction::Activate);
    assert_eq!(l.visit_stack, vec![0, 2]);
    assert_eq!(l.cursor, 0);

    assert_eq!(l.handle_key(KeyAction::Activate), None, "row 0 is the go-up row");
    assert_eq!(l.visit_stack, vec![0]);
    assert_eq!(l.cursor, 0);
}

#[test]
fn move_down_at_root_never_passes_last_child() {
    let mut l = small_menu();
    for _ in 0..10 {
        assert_eq!(l.handle_key(KeyAction::MoveDown), None);
        assert!(l.cursor <= 1, "children_count(root) - 1 == 1");
    }
    assert_eq!(l.cursor, 1);
    assert_eq!(l.visit_stack, vec![0]);
}

#[test]
fn move_up_saturates_at_zero() {
    let mut l = small_menu();
    l.handle_key(KeyAction::MoveDown);
    assert_eq!(l.cursor, 1);
    for _ in 0..10 {
        assert_eq!(l.handle_key(KeyAction::MoveUp), None);
    }
    assert_eq!(l.cursor, 0);
    assert_eq!(l.handle_key(KeyAction::MoveUp), None);
    assert_eq!(l.cursor, 0);
}

#[test]
fn activate_leaf_at_root_leaves_state_alone() {
    let mut l = small_menu();
    assert_eq!(l.handle_key(KeyAction::Activate), Some("cmd1"));
    assert_eq!(l.visit_stack, vec![0]);
    assert_eq!(l.cursor, 0);
}

#[test]
fn descend_resets_cursor_and_deepens_path_by_one() {
    let mut l = small_menu();
    l.handle_key(KeyAction::MoveDown);
    let depth_before = l.visit_stack.len();
    assert_eq!(l.handle_key(KeyAction::Activate), None);
    assert_eq!(l.visit_stack.len(), depth_before + 1);
    assert_eq!(l.cursor, 0);
}

#[test]
fn ascend_then_redescend_restores_position() {
    let mut l = small_menu();
    l.handle_key(KeyAction::MoveDown);
    l.handle_key(KeyAction::Activate);
    let path_before = l.visit_stack.clone();

    l.handle_key(KeyAction::Activate); // go up
    assert_eq!(l.visit_stack, vec![0]);

    l.handle_key(KeyAction::MoveDown); // re-select B
    l.handle_key(KeyAction::Activate); // re-descend
    assert_eq!(l.visit_stack, path_before);
    assert_eq!(l.cursor, 0);
}

#[test]
fn other_keys_change_nothing() {
    let mut l = small_menu();
    l.handle_key(KeyAction::MoveDown);
    let path = l.visit_stack.clone();
    let cursor = l.cursor;
    assert_eq!(l.handle_key(KeyAction::Other), None);
    assert_eq!(l.visit_stack, path);
    assert_eq!(l.cursor, cursor);
}

#[test]
fn at_root_tracks_path_depth() {
    let mut l = small_menu();
    assert!(l.at_root());
    l.handle_key(KeyAction::MoveDown);
    l.handle_key(KeyAction::Activate);
    assert!(!l.at_root());
    l.handle_key(KeyAction::MoveUp);
    l.handle_key(KeyAction::Activate);
    assert!(l.at_root());
}

#[test]
fn single_child_root_pins_cursor_at_zero() {
    let mut tree = MenuTree::new("root");
    tree.add_child(0, "only", "only-cmd");
    let mut l = CustomList { tree, visit_stack: vec![0], cursor: 0 };
    for _ in 0..3 {
        l.handle_key(KeyAction::MoveDown);
        assert_eq!(l.cursor, 0, "children_count(root) - 1 == 0");
    }
    assert_eq!(l.handle_key(KeyAction::Activate), Some("only-cmd"));
}

#[test]
fn move_down_below_root_clamps_at_children_count() {
    let mut l = small_menu();
    l.handle_key(KeyAction::MoveDown);
    l.handle_key(KeyAction::Activate);
    assert_eq!(l.visit_stack, vec![0, 2]);
    for _ in 0..5 {
        l.handle_key(KeyAction::MoveDown);
        assert!(l.cursor <= 1, "one child plus the go-up row: last row is 1");
    }
    assert_eq!(l.cursor, 1, "the clamp bound below root is the children count itself");
}

#[test]
fn deep_hierarchy_round_trips_level_by_level() {
    let mut tree = MenuTree::new("root");
    let top = tree.add_child(0, "top", "");
    let mid = tree.add_child(top, "mid", "");
    let leaf = tree.add_child(mid, "leaf", "deep-cmd");
    assert_eq!(leaf, 3);
    let mut l = CustomList { tree, visit_stack: vec![0], cursor: 0 };

    assert_eq!(l.handle_key(KeyAction::Activate), None);
    assert_eq!(l.visit_stack, vec![0, top]);
    l.handle_key(KeyAction::MoveDown);
    assert_eq!(l.handle_key(KeyAction::Activate), None);
    assert_eq!(l.visit_stack, vec![0, top, mid]);
    l.handle_key(KeyAction::MoveDown);
    assert_eq!(l.handle_key(KeyAction::Activate), Some("deep-cmd"));
    assert_eq!(l.visit_stack, vec![0, top, mid]);

    assert_eq!(l.handle_key(KeyAction::MoveUp), None);
    assert_eq!(l.handle_key(KeyAction::Activate), None);
    assert_eq!(l.visit_stack, vec![0, top]);
    assert_eq!(l.handle_key(KeyAction::Activate), None);
    assert_eq!(l.visit_stack, vec![0]);
}
