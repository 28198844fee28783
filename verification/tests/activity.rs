use smaragd::activity::WordCountActivity;
use smaragd::doc_path::DocPath;

fn check_no_project_and_no_open_document_never_panics_or_accumulates() {
    let mut activity = WordCountActivity::new();
    activity.track_char_activity(None, "", false);
    activity.track_char_activity(None, "", false);
    assert_eq!(activity.char_activity, 0);
    assert_eq!(activity.char_activity_last_len, None);
    assert_eq!(activity.char_activity_tracked_path, None);
}

fn check_typing_then_deleting_counts_both_directions_not_the_net_change() {
    let path = DocPath::new("Scene.md");
    let mut activity = WordCountActivity::new();
    let mut buffer = String::new();

    // The first frame with the document open only sets the baseline.
    activity.track_char_activity(Some(&path), &buffer, true);
    assert_eq!(activity.char_activity, 0);

    buffer = "a".repeat(100);
    activity.track_char_activity(Some(&path), &buffer, true);
    assert_eq!(activity.char_activity, 100);

    buffer.clear();
    activity.track_char_activity(Some(&path), &buffer, true);
    assert_eq!(activity.char_activity, 200);
}

fn check_switching_documents_does_not_count_the_length_jump_between_them() {
    let first = DocPath::new("First.md");
    let second = DocPath::new("Second.md");
    let mut activity = WordCountActivity::new();

    activity.track_char_activity(Some(&first), "", true);
    activity.track_char_activity(Some(&first), &"a".repeat(50), true);
    assert_eq!(activity.char_activity, 50);

    activity.track_char_activity(Some(&second), &"b".repeat(500), true);
    assert_eq!(activity.char_activity, 50);
}

fn check_editing_a_document_outside_the_tracked_scope_does_not_count() {
    let outtake = DocPath::new("Outtake.md");
    let mut activity = WordCountActivity::new();

    activity.track_char_activity(Some(&outtake), "", false);
    activity.track_char_activity(Some(&outtake), &"a".repeat(100), false);

    assert_eq!(activity.char_activity, 0);
}

fn check_a_save_edge_triggers_a_recompute() {
    let mut activity = WordCountActivity::new();
    assert!(!activity.observe_dirty(true), "becoming dirty is not a save");
    assert!(
        activity.observe_dirty(false),
        "dirty->clean transition is a save and should trigger a recompute"
    );
}

fn check_staying_clean_never_triggers_a_recompute() {
    let mut activity = WordCountActivity::new();
    assert!(!activity.observe_dirty(false));
    assert!(!activity.observe_dirty(false));
}

#[test]
fn app_no_project_and_no_open_document_never_panics_or_accumulates() {
    check_no_project_and_no_open_document_never_panics_or_accumulates();
}

#[test]
fn app_typing_then_deleting_counts_both_directions_not_the_net_change() {
    check_typing_then_deleting_counts_both_directions_not_the_net_change();
}

#[test]
fn app_switching_documents_does_not_count_the_length_jump_between_them() {
    check_switching_documents_does_not_count_the_length_jump_between_them();
}

#[test]
fn app_editing_a_document_outside_the_tracked_scope_does_not_count() {
    check_editing_a_document_outside_the_tracked_scope_does_not_count();
}

#[test]
fn app_a_save_edge_triggers_a_recompute() {
    check_a_save_edge_triggers_a_recompute();
}

#[test]
fn app_staying_clean_never_triggers_a_recompute() {
    check_staying_clean_never_triggers_a_recompute();
}

#[test]
fn refresh_no_project_and_no_open_document_never_panics_or_accumulates() {
    check_no_project_and_no_open_document_never_panics_or_accumulates();
}

#[test]
fn refresh_typing_then_deleting_counts_both_directions_not_the_net_change() {
    check_typing_then_deleting_counts_both_directions_not_the_net_change();
}

#[test]
fn refresh_switching_documents_does_not_count_the_length_jump_between_them() {
    check_switching_documents_does_not_count_the_length_jump_between_them();
}

#[test]
fn refresh_editing_a_document_outside_the_tracked_scope_does_not_count() {
    check_editing_a_document_outside_the_tracked_scope_does_not_count();
}

#[test]
fn refresh_a_save_edge_triggers_a_recompute() {
    check_a_save_edge_triggers_a_recompute();
}

#[test]
fn refresh_staying_clean_never_triggers_a_recompute() {
    check_staying_clean_never_triggers_a_recompute();
}

#[test]
fn a_dirty_buffer_stays_dirty_without_a_save_edge() {
    let mut activity = WordCountActivity::new();
    assert!(!activity.observe_dirty(true));
    assert!(!activity.observe_dirty(true));
    assert!(activity.observe_dirty(false));
    assert!(!activity.observe_dirty(false));
}

#[test]
fn characters_are_counted_not_bytes() {
    let doc = DocPath::new("Scene.md");
    let mut activity = WordCountActivity::new();
    activity.track_char_activity(Some(&doc), "", true);
    activity.track_char_activity(Some(&doc), "ééé", true);
    assert_eq!(activity.char_activity, 3);
}

#[test]
fn word_count_event_reset_session_zeroes_char_activity() {
    let doc = DocPath::new("Scene.md");
    let mut activity = WordCountActivity::new();
    activity.track_char_activity(Some(&doc), "", true);
    activity.track_char_activity(Some(&doc), "abc", true);
    activity.reset_session();
    assert_eq!(activity.char_activity, 0);
    activity.track_char_activity(Some(&doc), "abcd", true);
    assert_eq!(activity.char_activity, 1);
}

#[test]
fn only_a_dirty_to_clean_transition_counts_as_a_save() {
    let mut activity = WordCountActivity::new();
    // clean -> clean, clean -> dirty, dirty -> dirty: no save
    assert!(!activity.observe_dirty(false));
    assert!(!activity.observe_dirty(true));
    assert!(!activity.observe_dirty(true));
    // dirty -> clean: a save
    assert!(activity.observe_dirty(false));
    // the edge fires once
    assert!(!activity.observe_dirty(false));
    assert_eq!(activity.char_activity, 0);
}
