use smaragd::doc_path::DocPath;
use smaragd::document_history::DocumentHistory;
use smaragd::navigation::{arrival_cursor, record_departure, step_back, step_forward};

fn p(text: &str) -> DocPath {
    DocPath::new(text)
}

/// Opens `path` the way the editor does: remember where the cursor was in the
/// document being left, then record the visit.
fn open(history: &mut DocumentHistory, current: Option<(&DocPath, usize)>, path: &DocPath) -> usize {
    match current {
        Some((doc, cursor)) => record_departure(history, Some(doc), cursor),
        None => record_departure(history, None, 0),
    }
    history.visit(path);
    arrival_cursor(history, path)
}

#[test]
fn go_back_and_go_forward_step_through_opened_documents() {
    let mut history = DocumentHistory::default();
    let (a, b) = (p("a.md"), p("b.md"));
    open(&mut history, None, &a);
    open(&mut history, Some((&a, 0)), &b);

    assert_eq!(step_back(&mut history), Some(a.clone()));
    assert_eq!(history.current(), Some(&a));
    assert_eq!(step_back(&mut history), None);
    assert_eq!(step_forward(&mut history), Some(b.clone()));
    assert_eq!(step_forward(&mut history), None);
}

#[test]
fn going_back_restores_the_cursor_position_last_left_in_that_document() {
    let mut history = DocumentHistory::default();
    let (a, b) = (p("a.md"), p("b.md"));
    assert_eq!(open(&mut history, None, &a), 0);
    open(&mut history, Some((&a, 12)), &b);

    record_departure(&mut history, Some(&b), 3);
    let target = step_back(&mut history).unwrap();
    assert_eq!(arrival_cursor(&history, &target), 12);

    record_departure(&mut history, Some(&a), 12);
    let target = step_forward(&mut history).unwrap();
    assert_eq!(arrival_cursor(&history, &target), 3);
}

#[test]
fn opening_the_same_document_again_does_not_grow_the_back_history() {
    let mut history = DocumentHistory::default();
    let a = p("a.md");
    open(&mut history, None, &a);
    open(&mut history, Some((&a, 4)), &a);
    assert!(!history.can_go_back());
    assert_eq!(arrival_cursor(&history, &a), 4);
}

#[test]
fn renaming_the_open_document_keeps_its_history_entry_and_cursor_following_it() {
    let mut history = DocumentHistory::default();
    let (old, new) = (p("old.md"), p("new.md"));
    open(&mut history, None, &old);
    record_departure(&mut history, Some(&old), 8);
    history.rename_path(&old, &new);
    history.visit(&new);
    assert!(!history.can_go_back());
    assert_eq!(arrival_cursor(&history, &new), 8);
}
