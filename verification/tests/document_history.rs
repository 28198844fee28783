use smaragd::doc_path::DocPath;
use smaragd::document_history::DocumentHistory;

fn p(text: &str) -> DocPath {
    DocPath::new(text)
}

#[test]
fn visiting_documents_builds_a_linear_history() {
    let mut history = DocumentHistory::default();
    history.visit(&p("a.md"));
    history.visit(&p("b.md"));
    history.visit(&p("c.md"));

    assert_eq!(history.previous(), Some(&p("b.md")));
    assert!(history.next().is_none());
}

#[test]
fn revisiting_the_current_document_does_not_grow_the_stack() {
    let mut history = DocumentHistory::default();
    history.visit(&p("a.md"));
    history.visit(&p("a.md"));

    assert!(history.previous().is_none());
}

#[test]
fn back_and_forward_move_the_position_without_losing_forward_entries() {
    let mut history = DocumentHistory::default();
    history.visit(&p("a.md"));
    history.visit(&p("b.md"));
    history.visit(&p("c.md"));

    history.go_back();
    assert_eq!(history.previous(), Some(&p("a.md")));
    assert_eq!(history.next(), Some(&p("c.md")));

    history.go_forward();
    assert_eq!(history.next(), None);
}

#[test]
fn visiting_a_new_document_after_going_back_discards_the_forward_stack() {
    let mut history = DocumentHistory::default();
    history.visit(&p("a.md"));
    history.visit(&p("b.md"));
    history.go_back();

    history.visit(&p("d.md"));

    assert_eq!(history.previous(), Some(&p("a.md")));
    assert!(history.next().is_none());
}

#[test]
fn go_back_and_go_forward_are_no_ops_at_the_ends() {
    let mut history = DocumentHistory::default();
    history.visit(&p("a.md"));

    history.go_back();
    assert_eq!(history.current(), Some(&p("a.md")));

    history.go_forward();
    assert_eq!(history.current(), Some(&p("a.md")));
}

#[test]
fn cursor_positions_round_trip_by_path() {
    let mut history = DocumentHistory::default();
    history.record_cursor(&p("a.md"), 42);

    assert_eq!(history.cursor_for(&p("a.md")), Some(42));
    assert_eq!(history.cursor_for(&p("b.md")), None);
}

#[test]
fn remove_subtree_drops_matching_entries_and_their_cursors() {
    let mut history = DocumentHistory::default();
    history.visit(&p("folder/a.md"));
    history.visit(&p("b.md"));
    history.record_cursor(&p("folder/a.md"), 5);

    history.remove_subtree(&p("folder"));

    assert_eq!(history.cursor_for(&p("folder/a.md")), None);
    assert!(history.previous().is_none());
    assert_eq!(history.current(), Some(&p("b.md")));
}

#[test]
fn remove_subtree_of_the_current_entry_falls_back_to_the_nearest_survivor() {
    let mut history = DocumentHistory::default();
    history.visit(&p("a.md"));
    history.visit(&p("b.md"));

    history.remove_subtree(&p("b.md"));

    assert_eq!(history.current(), Some(&p("a.md")));
}

#[test]
fn rename_path_updates_entries_and_cursor_key() {
    let mut history = DocumentHistory::default();
    history.visit(&p("old.md"));
    history.record_cursor(&p("old.md"), 7);

    history.rename_path(&p("old.md"), &p("new.md"));

    assert_eq!(history.current(), Some(&p("new.md")));
    assert_eq!(history.cursor_for(&p("new.md")), Some(7));
    assert_eq!(history.cursor_for(&p("old.md")), None);
}

#[test]
fn back_then_forward_returns_to_the_same_document() {
    let mut history = DocumentHistory::default();
    history.visit(&p("a.md"));
    history.visit(&p("b.md"));
    assert!(history.can_go_back());
    assert!(!history.can_go_forward());

    history.go_back();
    assert!(history.can_go_forward());
    history.go_forward();

    assert_eq!(history.current(), Some(&p("b.md")));
    assert_eq!(history.previous(), Some(&p("a.md")));
}

#[test]
fn remove_subtree_keeps_the_current_entry_when_it_survives() {
    let mut history = DocumentHistory::default();
    history.visit(&p("a.md"));
    history.visit(&p("folder/x.md"));
    history.visit(&p("c.md"));
    history.record_cursor(&p("c.md"), 3);

    history.remove_subtree(&p("folder"));

    assert_eq!(history.current(), Some(&p("c.md")));
    assert_eq!(history.previous(), Some(&p("a.md")));
    assert_eq!(history.cursor_for(&p("c.md")), Some(3));
}

#[test]
fn remove_subtree_of_everything_empties_the_history() {
    let mut history = DocumentHistory::default();
    history.visit(&p("folder/a.md"));

    history.remove_subtree(&p("folder"));

    assert_eq!(history.current(), None);
    assert!(!history.can_go_back());
}

#[test]
fn remove_subtree_matches_whole_components_only() {
    let mut history = DocumentHistory::default();
    history.visit(&p("folderx/a.md"));

    history.remove_subtree(&p("folder"));

    assert_eq!(history.current(), Some(&p("folderx/a.md")));
}

#[test]
fn rebase_subtree_moves_entries_and_cursors_under_the_new_root() {
    let mut history = DocumentHistory::default();
    history.visit(&p("draft/a.md"));
    history.visit(&p("notes.md"));
    history.record_cursor(&p("draft/a.md"), 9);
    history.record_cursor(&p("notes.md"), 2);

    history.rebase_subtree(&p("draft"), &p("book/part1"));

    assert_eq!(history.previous(), Some(&p("book/part1/a.md")));
    assert_eq!(history.current(), Some(&p("notes.md")));
    assert_eq!(history.cursor_for(&p("book/part1/a.md")), Some(9));
    assert_eq!(history.cursor_for(&p("draft/a.md")), None);
    assert_eq!(history.cursor_for(&p("notes.md")), Some(2));
}
