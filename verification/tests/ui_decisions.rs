use smaragd::doc_path::DocPath;
use smaragd::external_watch::{
    external_change_action, external_scan_decision, ExternalChange, ScanDecision,
};
use smaragd::labels::{non_empty, streak_status_hover_text, GitOperation, StreakStatus};
use smaragd::menu_nav::{
    dropdown_step, right_opens_submenu, submenu_step, top_menu_label, unconsumed_keys, ArrowKeys,
    TOP_MENU_COUNT,
};
use smaragd::notifications::{status_message_expiry, StatusExpiry, ToastQueue};
use smaragd::plugin_shortcuts::{
    effective_plugin_shortcuts, KeyboardShortcut, PluginShortcutOverride,
};
use smaragd::search_scope::{search_scope_paths, SearchScope};
use smaragd::status_bar::{countdown_parts, right_cluster_visible, words_today};

const NONE: ArrowKeys = ArrowKeys { up: false, down: false, left: false, right: false };
const DOWN: ArrowKeys = ArrowKeys { up: false, down: true, left: false, right: false };
const UP: ArrowKeys = ArrowKeys { up: true, down: false, left: false, right: false };
const LEFT: ArrowKeys = ArrowKeys { up: false, down: false, left: true, right: false };
const RIGHT: ArrowKeys = ArrowKeys { up: false, down: false, left: false, right: true };

#[test]
fn git_operation_labels() {
    assert_eq!(GitOperation::Push.label(), "Push");
    assert_eq!(GitOperation::Pull.label(), "Pull");
}

#[test]
fn streak_hover_texts() {
    assert_eq!(streak_status_hover_text(StreakStatus::Disabled), "Streak tracking is disabled");
    assert_eq!(
        streak_status_hover_text(StreakStatus::InsufficientData),
        "Streak: not enough data yet"
    );
    assert_eq!(streak_status_hover_text(StreakStatus::Green), "Streak: on track");
    assert_eq!(streak_status_hover_text(StreakStatus::Yellow), "Streak: off track this week");
    assert_eq!(
        streak_status_hover_text(StreakStatus::Red),
        "Streak: off track for multiple weeks"
    );
}

#[test]
fn non_empty_trims_and_treats_blank_as_unset() {
    assert_eq!(non_empty("  Alice \n"), Some("Alice".to_string()));
    assert_eq!(non_empty("   "), None);
    assert_eq!(non_empty(""), None);
    assert_eq!(non_empty("draft"), Some("draft".to_string()));
    assert_eq!(non_empty("\u{3000}Mira\u{a0}"), Some("Mira".to_string()));
    assert_eq!(non_empty("\u{2028}\t"), None);
}

fn check_down_and_up_wrap_at_the_ends_of_the_dropdown() {
    // Opening lands on the first item.
    let open = dropdown_step(0, true, 3, false, None, NONE);
    assert_eq!(open.focus, Some(0));
    assert!(open.mark_seen);
    // Up from the first item wraps to the last.
    assert_eq!(dropdown_step(0, true, 3, true, Some(0), UP).focus, Some(2));
    // Down from the last item wraps to the first.
    assert_eq!(dropdown_step(0, true, 3, true, Some(2), DOWN).focus, Some(0));
    assert_eq!(dropdown_step(0, true, 3, true, Some(0), DOWN).focus, Some(1));
}

fn check_right_and_left_cycle_through_top_menus_with_wraparound() {
    let last = TOP_MENU_COUNT - 1;
    assert_eq!(top_menu_label(0), "File");
    assert_eq!(top_menu_label(last), "Help");
    assert_eq!(dropdown_step(last, true, 3, true, Some(0), RIGHT).open_menu, Some(0));
    assert_eq!(dropdown_step(0, true, 3, true, Some(0), LEFT).open_menu, Some(last));
    assert_eq!(dropdown_step(2, true, 3, true, Some(1), RIGHT).open_menu, Some(3));
}

fn check_does_not_steal_focus_back_once_something_else_has_it() {
    let step = dropdown_step(0, true, 3, true, None, DOWN);
    assert_eq!(step.focus, None);
    assert_eq!(step.lock_focus, None);
    assert_eq!(step.open_menu, None);
}

#[test]
fn a_closed_dropdown_forgets_its_items_and_does_nothing() {
    let step = dropdown_step(1, false, 3, true, Some(1), DOWN);
    assert!(step.clear_seen);
    assert!(!step.mark_seen);
    assert_eq!(step.focus, None);
    assert_eq!(step.open_menu, None);
}

#[test]
fn a_single_item_dropdown_does_not_refocus_itself() {
    let step = dropdown_step(0, true, 1, true, Some(0), DOWN);
    assert_eq!(step.focus, None);
    assert_eq!(step.lock_focus, Some(0));
}

#[test]
fn right_arrow_opens_a_focused_submenu_and_focuses_its_first_item() {
    assert!(right_opens_submenu(true, false, true));
    assert!(!right_opens_submenu(true, true, true));
    assert!(!right_opens_submenu(false, false, true));
    let step = submenu_step(true, 2, false, None, NONE);
    assert_eq!(step.focus, Some(0));
}

#[test]
fn up_and_down_wrap_at_the_ends_of_an_open_submenu() {
    assert_eq!(submenu_step(true, 3, true, Some(0), UP).focus, Some(2));
    assert_eq!(submenu_step(true, 3, true, Some(2), DOWN).focus, Some(0));
    let step = submenu_step(true, 3, true, Some(2), DOWN);
    assert!(step.consumed.down);
    assert!(!step.consumed.up);
}

#[test]
fn left_closes_the_submenu_and_returns_focus_to_the_trigger_without_closing_the_parent() {
    let step = submenu_step(true, 3, true, Some(1), LEFT);
    assert!(step.back_out);
    assert!(step.consumed.left);
    assert!(!step.consumed.right);
}

#[test]
fn submenu_does_not_steal_focus_back_once_something_else_has_it() {
    let step = submenu_step(true, 3, true, None, DOWN);
    assert_eq!(step.focus, None);
    assert!(!step.back_out);
    assert!(!step.consumed.down);
}

#[test]
fn check_external_changes_is_a_no_op_with_no_project_open() {
    assert_eq!(external_scan_decision(false, None), ScanDecision::NoProject);
    assert_eq!(external_scan_decision(true, Some(500)), ScanDecision::NotYet);
    assert_eq!(external_scan_decision(true, Some(2000)), ScanDecision::Scan);
    assert_eq!(external_scan_decision(true, None), ScanDecision::Scan);
}

#[test]
fn a_clean_document_is_silently_reloaded_when_changed_externally() {
    assert_eq!(external_change_action(true, false, false, true), ExternalChange::Reload);
    assert_eq!(external_change_action(false, false, false, true), ExternalChange::Nothing);
}

#[test]
fn a_dirty_document_is_not_clobbered_and_raises_a_conflict_instead() {
    assert_eq!(
        external_change_action(true, true, false, true),
        ExternalChange::RecordConflict
    );
    assert_eq!(external_change_action(true, true, true, true), ExternalChange::Nothing);
}

#[test]
fn status_message_expires_after_its_duration() {
    assert_eq!(status_message_expiry(None, 8000), StatusExpiry::Nothing);
    assert_eq!(status_message_expiry(Some(8000), 8000), StatusExpiry::Clear);
    assert_eq!(status_message_expiry(Some(3000), 8000), StatusExpiry::RepaintAfter(5000));
}

#[test]
fn toasts_expire_oldest_first_and_can_be_dismissed() {
    let mut toasts = ToastQueue::new();
    toasts.push("first".to_string(), 1000);
    toasts.push("second".to_string(), 5000);
    toasts.push("third".to_string(), 6000);
    toasts.expire(7000, 6000);
    let left: Vec<&str> = toasts.toasts.iter().map(|t| t.message.as_str()).collect();
    assert_eq!(left, vec!["second", "third"]);
    toasts.dismiss(0);
    assert_eq!(toasts.toasts.len(), 1);
    assert_eq!(toasts.toasts[0].message, "third");
    toasts.expire(12000, 6000);
    assert!(toasts.is_empty());
}

fn shortcut(key: u32) -> KeyboardShortcut {
    KeyboardShortcut { modifiers: 1, key }
}

#[test]
fn plugin_defaults_never_take_a_shortcut_already_in_use() {
    let builtin = vec![shortcut(1), shortcut(2)];
    let defaults = vec![
        ("clash".to_string(), shortcut(1)),
        ("free".to_string(), shortcut(3)),
        ("second_free".to_string(), shortcut(3)),
        ("unbound".to_string(), shortcut(4)),
        ("rebound".to_string(), shortcut(5)),
    ];
    let overrides = vec![
        ("unbound".to_string(), PluginShortcutOverride::Unbound),
        ("rebound".to_string(), PluginShortcutOverride::Bound(shortcut(2))),
    ];
    let effective = effective_plugin_shortcuts(&builtin, &defaults, &overrides);
    assert_eq!(
        effective,
        vec![("free".to_string(), shortcut(3)), ("rebound".to_string(), shortcut(2))]
    );
}

#[test]
fn search_scopes_select_the_right_documents() {
    let docs = vec![
        DocPath::new("/p/ch1/a.md"),
        DocPath::new("/p/ch1/b.md"),
        DocPath::new("/p/ch2/c.md"),
    ];
    let modified = vec![DocPath::new("/p/ch2/c.md")];
    let open = DocPath::new("/p/ch1/b.md");
    assert_eq!(
        search_scope_paths(SearchScope::CurrentDirectory, true, Some(&open), &docs, &modified),
        vec![DocPath::new("/p/ch1/a.md"), DocPath::new("/p/ch1/b.md")]
    );
    assert_eq!(
        search_scope_paths(SearchScope::CurrentFile, true, Some(&open), &docs, &modified),
        vec![open.clone()]
    );
    assert_eq!(
        search_scope_paths(SearchScope::ModifiedFiles, true, Some(&open), &docs, &modified),
        modified
    );
    assert_eq!(
        search_scope_paths(SearchScope::AllFiles, true, None, &docs, &modified),
        docs
    );
    assert!(search_scope_paths(SearchScope::AllFiles, false, None, &docs, &modified).is_empty());
    assert!(
        search_scope_paths(SearchScope::CurrentDirectory, true, None, &docs, &modified).is_empty()
    );
}

#[test]
fn menu_nav_down_and_up_wrap_at_the_ends_of_the_dropdown() {
    check_down_and_up_wrap_at_the_ends_of_the_dropdown();
}

#[test]
fn app_down_and_up_wrap_at_the_ends_of_the_dropdown() {
    check_down_and_up_wrap_at_the_ends_of_the_dropdown();
}

#[test]
fn menu_nav_right_and_left_cycle_through_top_menus_with_wraparound() {
    check_right_and_left_cycle_through_top_menus_with_wraparound();
}

#[test]
fn app_right_and_left_cycle_through_top_menus_with_wraparound() {
    check_right_and_left_cycle_through_top_menus_with_wraparound();
}

#[test]
fn menu_nav_does_not_steal_focus_back_once_something_else_has_it() {
    check_does_not_steal_focus_back_once_something_else_has_it();
}

#[test]
fn app_does_not_steal_focus_back_once_something_else_has_it() {
    check_does_not_steal_focus_back_once_something_else_has_it();
}

#[test]
fn right_arrow_opening_a_submenu_does_not_also_switch_to_the_sibling_top_level_menu() {
    // File's only item is the submenu trigger, and it has focus.
    let opens = right_opens_submenu(true, false, RIGHT.right);
    assert!(opens);
    let consumed = ArrowKeys { up: false, down: false, left: false, right: opens };
    let parent_keys = unconsumed_keys(RIGHT, consumed);
    assert_eq!(parent_keys, NONE);
    let step = dropdown_step(0, true, 1, true, Some(0), parent_keys);
    assert_eq!(step.open_menu, None, "Right must not also switch the top-level menu to Edit");
}

#[test]
fn opening_a_sibling_submenu_closes_the_previously_open_one() {
    // Right on Sub1's focused trigger opens it; its first item gets focus.
    assert!(right_opens_submenu(true, false, true));
    assert_eq!(submenu_step(true, 1, false, None, NONE).focus, Some(0));
    // Left backs out of Sub1, and the parent never sees that Left.
    let back = submenu_step(true, 1, true, Some(0), LEFT);
    assert!(back.back_out);
    assert_eq!(unconsumed_keys(LEFT, back.consumed), NONE);
    // Down in File moves from Sub1's trigger to Sub2's.
    assert_eq!(dropdown_step(0, true, 2, true, Some(0), DOWN).focus, Some(1));
    // Right on Sub2's trigger opens Sub2 (Sub1 is no longer open), focusing its
    // first item.
    assert!(right_opens_submenu(true, false, true));
    assert_eq!(submenu_step(true, 1, false, None, NONE).focus, Some(0));
}

#[test]
fn unconsumed_keys_pass_through_what_no_submenu_used() {
    let all = ArrowKeys { up: true, down: true, left: true, right: true };
    assert_eq!(unconsumed_keys(all, NONE), all);
    assert_eq!(
        unconsumed_keys(all, DOWN),
        ArrowKeys { up: true, down: false, left: true, right: true }
    );
}

#[test]
fn the_status_bar_cluster_shows_when_anything_in_it_is_active() {
    assert!(!right_cluster_visible(false, false, false, false));
    assert!(right_cluster_visible(true, false, false, false));
    assert!(right_cluster_visible(false, true, false, false));
    assert!(right_cluster_visible(false, false, true, false));
    assert!(right_cluster_visible(false, false, false, true));
}

#[test]
fn the_pomodoro_countdown_splits_into_minutes_and_seconds() {
    assert_eq!(countdown_parts(1500), (25, 0));
    assert_eq!(countdown_parts(61), (1, 1));
    assert_eq!(countdown_parts(59), (0, 59));
}

#[test]
fn words_today_never_goes_below_zero() {
    assert_eq!(words_today(1200, 1000), 200);
    assert_eq!(words_today(900, 1000), 0);
    assert_eq!(words_today(0, 0), 0);
}
