use tui_menu::CustomList;
use tui_menu::KeyAction;
use tui_menu::MenuTree;
use tui_menu::RowKind;

#[test]
fn builtin_menu_rows_at_root() {
    let l = CustomList::new();
    let rows = l.visible_rows();
    assert_eq!(rows.len(), 4, "no go-up row at the root");
    let labels: Vec<&str> = rows.iter().map(|r| r.label).collect();
    assert_eq!(
        labels,
        vec![
            "Eza",
            "sleep and Eza",
            "Just ls, nothing special, trust me",
            "Test Category",
        ]
    );
    assert_eq!(rows[0].kind, RowKind::Leaf);
    assert_eq!(rows[1].kind, RowKind::Leaf);
    assert_eq!(rows[2].kind, RowKind::Leaf);
    assert_eq!(rows[3].kind, RowKind::Branch);
    assert_eq!(l.cursor_row(), 0);
}

#[test]
fn builtin_menu_rows_in_sub_menu() {
    let mut l = CustomList::new();
    for _ in 0..3 {
        l.handle_key(KeyAction::MoveDown);
    }
    assert_eq!(l.handle_key(KeyAction::Activate), None);
    let rows = l.visible_rows();
    assert_eq!(rows.len(), 4, "three children plus the go-up row");
    assert_eq!(rows[0].label, "..");
    assert_eq!(rows[0].kind, RowKind::Up);
    let labels: Vec<&str> = rows.iter().skip(1).map(|r| r.label).collect();
    assert_eq!(
        labels,
        vec![
            "sleep, eza, sleep, eza",
            "Just open neovim :), because I can",
            "Recursion?",
        ]
    );
    assert_eq!(rows[1].kind, RowKind::Leaf);
    assert_eq!(rows[2].kind, RowKind::Leaf);
    assert_eq!(rows[3].kind, RowKind::Leaf);
}

#[test]
fn builtin_menu_commands() {
    let mut l = CustomList::new();
    assert_eq!(l.handle_key(KeyAction::Activate), Some("eza -la"));
    l.handle_key(KeyAction::MoveDown);
    assert_eq!(l.handle_key(KeyAction::Activate), Some("sleep 2 && eza -la"));
    l.handle_key(KeyAction::MoveDown);
    assert_eq!(l.handle_key(KeyAction::Activate), Some("ls -la"));
    l.handle_key(KeyAction::MoveDown);
    assert_eq!(l.handle_key(KeyAction::Activate), None, "a branch descends");
    l.handle_key(KeyAction::MoveDown);
    assert_eq!(
        l.handle_key(KeyAction::Activate),
        Some("sleep 1 && eza -la && sleep 1 && eza -la && echo Bonus eza comming... && sleep 1 && eza -la")
    );
    l.handle_key(KeyAction::MoveDown);
    assert_eq!(l.handle_key(KeyAction::Activate), Some("nvim"));
    l.handle_key(KeyAction::MoveDown);
    assert_eq!(l.handle_key(KeyAction::Activate), Some("cargo run"));
}

#[test]
fn cursor_row_follows_moves() {
    let mut l = CustomList::new();
    assert_eq!(l.cursor_row(), 0);
    l.handle_key(KeyAction::MoveDown);
    l.handle_key(KeyAction::MoveDown);
    assert_eq!(l.cursor_row(), 2);
    l.handle_key(KeyAction::MoveUp);
    assert_eq!(l.cursor_row(), 1);
}

#[test]
fn branch_nodes_carry_no_command() {
    let mut tree = MenuTree::new("root");
    let grouped = tree.add_child(0, "grouped", "");
    tree.add_child(grouped, "inner", "inner-cmd");
    let mut l = CustomList { tree, visit_stack: vec![0], cursor: 0 };
    assert_eq!(l.handle_key(KeyAction::Activate), None, "grouped is a branch");
    assert_eq!(l.visit_stack, vec![0, grouped]);
}
