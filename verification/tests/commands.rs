use smaragd::commands::{
    dark_mode_shortcut, exit_plan, plan_context_shortcut, veto_close, ContextShortcut,
    ExitChoice, ExitPlan, ShortcutStep,
};
use smaragd::commands::{
    focus_mode_refusal, has_unsaved_changes, no_note_found_message, plan_command,
    plan_git_shortcut, plan_wikilink, toggled_theme, Command, CommandAction, GitCommand,
    GitShortcut, ThemeChoice, WikilinkAction,
};
use smaragd::doc_path::DocPath;

fn check_dark_mode_command_updates_theme_preference() {
    let action = plan_command(Command::DarkMode(ThemeChoice::Dark), false, true, false);
    assert_eq!(action, CommandAction::SetTheme(ThemeChoice::Dark));
}

fn check_find_command_with_a_query_sets_it_and_opens_the_panel() {
    let action = plan_command(Command::Find("dragon".to_string()), false, true, false);
    assert_eq!(action, CommandAction::OpenFind { query: Some("dragon".to_string()) });
}

fn check_find_command_with_an_empty_query_opens_the_panel_without_clearing_it() {
    let mut query = "earlier query".to_string();
    let action = plan_command(Command::Find(String::new()), false, true, false);
    match action {
        CommandAction::OpenFind { query: new_query } => {
            if let Some(new_query) = new_query {
                query = new_query;
            }
        }
        other => panic!("expected the find panel to open, got {other:?}"),
    }
    assert_eq!(query, "earlier query");
}

fn check_tag_command_sets_search_text_and_opens_the_tags_tab() {
    let action = plan_command(Command::Tag("worldbuilding".to_string()), false, true, false);
    assert_eq!(
        action,
        CommandAction::ShowTags { search: Some("worldbuilding".to_string()), open_tab: true }
    );
}

fn check_tag_command_does_not_reopen_an_already_open_tags_tab() {
    let action = plan_command(Command::Tag("worldbuilding".to_string()), false, true, true);
    assert_eq!(
        action,
        CommandAction::ShowTags { search: Some("worldbuilding".to_string()), open_tab: false }
    );
}

fn check_open_command_without_a_project_pushes_an_error_toast() {
    let action = plan_command(Command::Open("Chapter One".to_string()), false, true, false);
    assert_eq!(action, CommandAction::Error("No project open".to_string()));
}

fn check_new_command_without_a_project_pushes_an_error_toast() {
    let action = plan_command(Command::New("Chapter One".to_string()), false, true, false);
    assert_eq!(action, CommandAction::Error("No project open".to_string()));
}

fn check_open_command_with_no_matching_document_pushes_an_error_toast_naming_it() {
    let action = plan_command(Command::Open("Nonexistent".to_string()), true, true, false);
    assert_eq!(action, CommandAction::OpenByStem("Nonexistent".to_string()));
    assert_eq!(no_note_found_message("Nonexistent"), "No note found for \"Nonexistent\"");
}

#[test]
fn app_dark_mode_command_updates_theme_preference() {
    check_dark_mode_command_updates_theme_preference();
}

#[test]
fn app_find_command_with_a_query_sets_it_and_opens_the_panel() {
    check_find_command_with_a_query_sets_it_and_opens_the_panel();
}

#[test]
fn app_find_command_with_an_empty_query_opens_the_panel_without_clearing_it() {
    check_find_command_with_an_empty_query_opens_the_panel_without_clearing_it();
}

#[test]
fn app_tag_command_sets_search_text_and_opens_the_tags_tab() {
    check_tag_command_sets_search_text_and_opens_the_tags_tab();
}

#[test]
fn app_tag_command_does_not_reopen_an_already_open_tags_tab() {
    check_tag_command_does_not_reopen_an_already_open_tags_tab();
}

#[test]
fn app_open_command_without_a_project_pushes_an_error_toast() {
    check_open_command_without_a_project_pushes_an_error_toast();
}

#[test]
fn app_new_command_without_a_project_pushes_an_error_toast() {
    check_new_command_without_a_project_pushes_an_error_toast();
}

#[test]
fn app_open_command_with_no_matching_document_pushes_an_error_toast_naming_it() {
    check_open_command_with_no_matching_document_pushes_an_error_toast_naming_it();
}

#[test]
fn mod_dark_mode_command_updates_theme_preference() {
    check_dark_mode_command_updates_theme_preference();
}

#[test]
fn mod_find_command_with_a_query_sets_it_and_opens_the_panel() {
    check_find_command_with_a_query_sets_it_and_opens_the_panel();
}

#[test]
fn mod_find_command_with_an_empty_query_opens_the_panel_without_clearing_it() {
    check_find_command_with_an_empty_query_opens_the_panel_without_clearing_it();
}

#[test]
fn mod_tag_command_sets_search_text_and_opens_the_tags_tab() {
    check_tag_command_sets_search_text_and_opens_the_tags_tab();
}

#[test]
fn mod_tag_command_does_not_reopen_an_already_open_tags_tab() {
    check_tag_command_does_not_reopen_an_already_open_tags_tab();
}

#[test]
fn mod_open_command_without_a_project_pushes_an_error_toast() {
    check_open_command_without_a_project_pushes_an_error_toast();
}

#[test]
fn mod_new_command_without_a_project_pushes_an_error_toast() {
    check_new_command_without_a_project_pushes_an_error_toast();
}

#[test]
fn mod_open_command_with_no_matching_document_pushes_an_error_toast_naming_it() {
    check_open_command_with_no_matching_document_pushes_an_error_toast_naming_it();
}

#[test]
fn git_command_is_a_no_op_toast_when_integration_is_disabled() {
    let action = plan_command(Command::Git(GitCommand::Enable), true, false, false);
    match action {
        CommandAction::Error(message) => assert!(message.contains("Git integration is disabled")),
        other => panic!("expected an error toast, got {other:?}"),
    }
}

#[test]
fn git_shortcuts_are_silent_no_ops_when_integration_is_disabled() {
    assert_eq!(plan_git_shortcut(GitShortcut::Commit, false), None);
    assert_eq!(plan_git_shortcut(GitShortcut::Push, false), None);
}

#[test]
fn git_commands_run_when_integration_is_enabled() {
    assert_eq!(plan_command(Command::Git(GitCommand::Enable), false, true, false), CommandAction::GitEnable);
    assert_eq!(
        plan_command(Command::Git(GitCommand::Commit(Some("wip".to_string()))), true, true, false),
        CommandAction::GitCommit { message: Some("wip".to_string()), push_after: false }
    );
    assert_eq!(
        plan_command(Command::Git(GitCommand::Backup(None)), true, true, false),
        CommandAction::GitCommit { message: None, push_after: true }
    );
    assert_eq!(plan_command(Command::Git(GitCommand::Push), true, true, false), CommandAction::GitPush);
    assert_eq!(plan_command(Command::Git(GitCommand::Pull), true, true, false), CommandAction::GitPull);
    assert_eq!(
        plan_git_shortcut(GitShortcut::Commit, true),
        Some(CommandAction::GitCommit { message: None, push_after: false })
    );
    assert_eq!(plan_git_shortcut(GitShortcut::Push, true), Some(CommandAction::GitPush));
}

#[test]
fn plain_commands_need_nothing_open() {
    assert_eq!(plan_command(Command::Save, false, false, false), CommandAction::Save);
    assert_eq!(plan_command(Command::Quit, false, false, false), CommandAction::Quit);
    assert_eq!(plan_command(Command::SaveAndQuit, false, false, false), CommandAction::SaveThenQuit);
    assert_eq!(
        plan_command(Command::New("Chapter Two".to_string()), true, false, false),
        CommandAction::CreateDocument("Chapter Two".to_string())
    );
    assert_eq!(
        plan_command(Command::ColorTheme(None), false, false, false),
        CommandAction::SetColorTheme(None)
    );
    assert_eq!(
        plan_command(Command::Plugin("wc".to_string(), "all".to_string()), false, false, false),
        CommandAction::RunPlugin { name: "wc".to_string(), arg: "all".to_string() }
    );
}

#[test]
fn toggling_dark_mode_flips_the_effective_appearance() {
    assert_eq!(toggled_theme(ThemeChoice::Dark, false), ThemeChoice::Light);
    assert_eq!(toggled_theme(ThemeChoice::Light, true), ThemeChoice::Dark);
    assert_eq!(toggled_theme(ThemeChoice::System, true), ThemeChoice::Light);
    assert_eq!(toggled_theme(ThemeChoice::System, false), ThemeChoice::Dark);
}

#[test]
fn has_unsaved_changes_is_false_by_default() {
    assert!(!has_unsaved_changes(false, false));
}

#[test]
fn has_unsaved_changes_is_true_when_the_editor_is_dirty() {
    assert!(has_unsaved_changes(true, false));
}

#[test]
fn has_unsaved_changes_is_true_when_a_card_draft_is_open() {
    assert!(has_unsaved_changes(false, true));
}

#[test]
fn a_wikilink_opens_its_document_or_explains_why_not() {
    let open = DocPath::new("/novel/Part One/Scene.md");
    assert_eq!(
        plan_wikilink("Mira", false, false, false, None),
        WikilinkAction::Error("No project open — can't resolve [[Mira]]".to_string())
    );
    assert_eq!(plan_wikilink("Mira", true, true, false, Some(&open)), WikilinkAction::Open);
    assert_eq!(
        plan_wikilink("Mira", true, false, false, Some(&open)),
        WikilinkAction::Error("No note found for [[Mira]]".to_string())
    );
    assert_eq!(
        plan_wikilink("Mira", true, false, true, Some(&open)),
        WikilinkAction::Create(DocPath::new("/novel/Part One"))
    );
    assert_eq!(
        plan_wikilink("Mira", true, false, true, None),
        WikilinkAction::Error("Couldn't create a note for [[Mira]]: no document is open".to_string())
    );
}

#[test]
fn focus_mode_needs_an_open_document_to_enter() {
    assert_eq!(focus_mode_refusal(true, false), Some("Open a document before entering Focus Mode."));
    assert_eq!(focus_mode_refusal(true, true), None);
    assert_eq!(focus_mode_refusal(false, false), None);
}

#[test]
fn tag_command_with_an_empty_query_opens_the_tab_without_changing_the_search() {
    assert_eq!(
        plan_command(Command::Tag(String::new()), false, true, false),
        CommandAction::ShowTags { search: None, open_tab: true }
    );
    assert_eq!(
        plan_command(Command::Tag(String::new()), false, true, true),
        CommandAction::ShowTags { search: None, open_tab: false }
    );
}

#[test]
fn the_dark_mode_shortcut_also_clears_an_active_color_theme() {
    assert_eq!(dark_mode_shortcut(ThemeChoice::Dark, false, true), (ThemeChoice::Light, true));
    assert_eq!(dark_mode_shortcut(ThemeChoice::Light, false, false), (ThemeChoice::Dark, false));
    assert_eq!(dark_mode_shortcut(ThemeChoice::System, true, true), (ThemeChoice::Light, true));
}

#[test]
fn open_document_shortcut_without_a_project_pushes_an_error_toast() {
    let root = DocPath::new("/novel");
    assert_eq!(
        plan_context_shortcut(ContextShortcut::OpenDocument, None, None, false),
        ShortcutStep::Error("No project open".to_string())
    );
    assert_eq!(
        plan_context_shortcut(ContextShortcut::OpenDocument, Some(&root), None, false),
        ShortcutStep::OpenDocumentPrompt
    );
}

#[test]
fn selection_shortcuts_need_a_selected_document() {
    let root = DocPath::new("/novel");
    let scene = DocPath::new("/novel/Part One/Scene.md");
    assert_eq!(plan_context_shortcut(ContextShortcut::Rename, Some(&root), None, false), ShortcutStep::Nothing);
    assert_eq!(plan_context_shortcut(ContextShortcut::Delete, Some(&root), None, false), ShortcutStep::Nothing);
    assert_eq!(
        plan_context_shortcut(ContextShortcut::Rename, Some(&root), Some(&scene), false),
        ShortcutStep::Rename(scene.clone())
    );
    assert_eq!(
        plan_context_shortcut(ContextShortcut::Delete, Some(&root), Some(&scene), false),
        ShortcutStep::Delete(scene.clone())
    );
}

#[test]
fn restore_shortcut_only_acts_on_a_trashed_selection() {
    let root = DocPath::new("/novel");
    let trashed = DocPath::new("/novel/Trash/Scene.md");
    assert_eq!(
        plan_context_shortcut(ContextShortcut::Restore, Some(&root), Some(&trashed), false),
        ShortcutStep::Nothing
    );
    assert_eq!(
        plan_context_shortcut(ContextShortcut::Restore, Some(&root), Some(&trashed), true),
        ShortcutStep::Restore(trashed.clone())
    );
    assert_eq!(plan_context_shortcut(ContextShortcut::Restore, Some(&root), None, true), ShortcutStep::Nothing);
}

#[test]
fn new_item_shortcuts_target_the_selection_s_folder_or_the_root() {
    let root = DocPath::new("/novel");
    let scene = DocPath::new("/novel/Part One/Scene.md");
    assert_eq!(
        plan_context_shortcut(ContextShortcut::NewFile, Some(&root), Some(&scene), false),
        ShortcutStep::NewItemPrompt { folder: false, parent: DocPath::new("/novel/Part One") }
    );
    assert_eq!(
        plan_context_shortcut(ContextShortcut::NewFolder, Some(&root), None, false),
        ShortcutStep::NewItemPrompt { folder: true, parent: root.clone() }
    );
    assert_eq!(plan_context_shortcut(ContextShortcut::NewFile, None, Some(&scene), false), ShortcutStep::Nothing);
}

#[test]
fn closing_with_unsaved_changes_is_vetoed_once_for_the_confirm_dialog() {
    assert!(!veto_close(false, false, false));
    assert!(veto_close(true, false, false));
    assert!(veto_close(false, true, false));
    assert!(!veto_close(true, true, true));
}

#[test]
fn the_exit_dialog_saves_only_what_is_unsaved() {
    assert_eq!(
        exit_plan(ExitChoice::Save, true, false),
        ExitPlan::SaveThenClose { save_document: true, save_card_draft: false }
    );
    assert_eq!(
        exit_plan(ExitChoice::Save, false, true),
        ExitPlan::SaveThenClose { save_document: false, save_card_draft: true }
    );
    assert_eq!(exit_plan(ExitChoice::Discard, true, true), ExitPlan::DiscardAndClose);
    assert_eq!(exit_plan(ExitChoice::Cancel, true, true), ExitPlan::StayOpen);
}
