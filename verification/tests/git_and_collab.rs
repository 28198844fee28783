use smaragd::collab_flow::{
    collab_update_notice, leave_session_check, session_check, session_end_message, start_hosting,
    start_joining, CollabRole, CollabUpdate, EndCause, LeaveCheck, SessionCheck,
};
use smaragd::git_flow::{
    commit_finished, commit_prompt_texts, git_offer_description, git_operation_finished,
    git_readiness, manual_enable_refusal, repo_needs_init, should_offer_git_support,
    start_git_operation, CommitOutcome, GitOutcome,
};
use smaragd::labels::{default_streak_sub_tab, GitOperation, StreakSubTab};
use smaragd::notifications::Notice;

#[test]
fn git_actions_need_an_open_project_with_git_enabled() {
    assert_eq!(git_readiness(false, true), Some("No project open".to_string()));
    assert_eq!(
        git_readiness(true, false),
        Some("Git support isn't enabled for this project".to_string())
    );
    assert_eq!(git_readiness(true, true), None);
}

#[test]
fn only_one_push_or_pull_runs_at_a_time() {
    assert_eq!(start_git_operation(GitOperation::Push, true, true, false), Ok("Pushing…".to_string()));
    assert_eq!(start_git_operation(GitOperation::Pull, true, true, false), Ok("Pulling…".to_string()));
    assert_eq!(
        start_git_operation(GitOperation::Pull, true, true, true),
        Err("A git operation is already in progress".to_string())
    );
    assert_eq!(
        start_git_operation(GitOperation::Push, false, false, true),
        Err("No project open".to_string())
    );
}

#[test]
fn a_successful_pull_rescans_and_a_push_does_not() {
    assert_eq!(
        git_operation_finished(GitOperation::Pull, GitOutcome::Succeeded),
        (Notice::Status("Pulled".to_string()), true)
    );
    assert_eq!(
        git_operation_finished(GitOperation::Push, GitOutcome::Succeeded),
        (Notice::Status("Pushed".to_string()), false)
    );
    assert_eq!(
        git_operation_finished(GitOperation::Pull, GitOutcome::Failed("no remote".to_string())),
        (Notice::Error("Pull failed: no remote".to_string()), false)
    );
    assert_eq!(
        git_operation_finished(GitOperation::Push, GitOutcome::ThreadLost),
        (Notice::Error("Push failed: background thread panicked".to_string()), false)
    );
}

#[test]
fn a_commit_pushes_afterwards_only_when_it_committed() {
    assert_eq!(
        commit_finished(CommitOutcome::Committed, true),
        (Notice::Status("Committed".to_string()), true)
    );
    assert_eq!(
        commit_finished(CommitOutcome::Committed, false),
        (Notice::Status("Committed".to_string()), false)
    );
    assert_eq!(
        commit_finished(CommitOutcome::NothingToCommit, true),
        (Notice::Status("Nothing to commit".to_string()), false)
    );
    assert_eq!(
        commit_finished(CommitOutcome::Failed("locked".to_string()), true),
        (Notice::Error("Commit failed: locked".to_string()), false)
    );
}

#[test]
fn the_commit_prompt_names_its_button_after_what_it_does() {
    assert_eq!(commit_prompt_texts(false), ("Commit", "Commit", "Smaragd backup"));
    assert_eq!(commit_prompt_texts(true), ("Commit", "Commit and Push", "Smaragd backup"));
}

#[test]
fn git_support_is_offered_once_and_only_with_git_installed() {
    assert!(should_offer_git_support(false, false, true));
    assert!(!should_offer_git_support(true, false, true));
    assert!(!should_offer_git_support(false, true, true));
    assert!(!should_offer_git_support(false, false, false));
    assert!(git_offer_description(true).starts_with("This project is already a git repository."));
    assert!(git_offer_description(false).starts_with("Git was detected on your system."));
}

#[test]
fn a_missing_repository_is_recreated_only_when_git_is_enabled() {
    assert!(repo_needs_init(true, true, false));
    assert!(!repo_needs_init(true, true, true));
    assert!(!repo_needs_init(false, true, false));
    assert!(!repo_needs_init(true, false, false));
}

#[test]
fn enabling_git_by_hand_needs_a_project_and_git() {
    assert_eq!(manual_enable_refusal(false, true), Some("No project open".to_string()));
    assert_eq!(
        manual_enable_refusal(true, false),
        Some("git was not found on this system".to_string())
    );
    assert_eq!(manual_enable_refusal(true, true), None);
}

#[test]
fn opening_a_project_without_streak_enabled_defaults_the_sub_tab_to_configure() {
    assert_eq!(default_streak_sub_tab(false), StreakSubTab::Configure);
}

#[test]
fn opening_a_project_with_streak_already_enabled_defaults_the_sub_tab_to_streak() {
    assert_eq!(default_streak_sub_tab(true), StreakSubTab::Streak);
}

#[test]
fn an_ended_session_is_cleared_instead_of_blocking_a_new_one() {
    assert_eq!(session_check(false, false), SessionCheck::NoSession);
    assert_eq!(session_check(true, false), SessionCheck::Live);
    assert_eq!(session_check(true, true), SessionCheck::EndedClear);
}

#[test]
fn hosting_needs_an_open_document_and_joining_needs_none() {
    assert_eq!(start_hosting(false, true), Ok("Hosting collaboration session…".to_string()));
    assert_eq!(
        start_hosting(false, false),
        Err("Open a document before hosting a collaboration session".to_string())
    );
    assert_eq!(start_joining(false, false), Ok("Joining collaboration session…".to_string()));
    assert_eq!(
        start_joining(false, true),
        Err("Close the current document before joining a collaboration session".to_string())
    );
    assert_eq!(
        start_hosting(true, true),
        Err("A collaboration session is already active".to_string())
    );
    assert_eq!(
        start_joining(true, false),
        Err("A collaboration session is already active".to_string())
    );
}

#[test]
fn hosting_and_opening_another_document_keeps_the_session_alive() {
    assert_eq!(leave_session_check(Some(CollabRole::Host)), LeaveCheck::Proceed);
    assert_eq!(leave_session_check(None), LeaveCheck::Proceed);
    assert_eq!(leave_session_check(Some(CollabRole::Joiner)), LeaveCheck::AskToEnd);
    assert_eq!(
        session_end_message(EndCause::SwitchedDocuments),
        "Collaboration session ended: switched documents"
    );
    assert_eq!(session_end_message(EndCause::ProjectClosed), "Collaboration session ended: project closed");
    assert_eq!(session_end_message(EndCause::DocumentClosed), "Collaboration session ended: document closed");
    assert_eq!(session_end_message(EndCause::Requested), "Collaboration session ended");
}

#[test]
fn a_whole_buffer_replacement_reads_as_a_document_switch() {
    let switched = CollabUpdate::TextChanged { pos: 0, deleted_len: 12 };
    assert_eq!(
        collab_update_notice(switched.clone(), 12),
        Some(Notice::Status("Your collaborator switched documents".to_string()))
    );
    // The first fill of an empty buffer is not a switch.
    assert_eq!(collab_update_notice(CollabUpdate::TextChanged { pos: 0, deleted_len: 0 }, 0), None);
    // An ordinary edit is not a switch either.
    assert_eq!(collab_update_notice(CollabUpdate::TextChanged { pos: 3, deleted_len: 1 }, 12), None);
    assert_eq!(collab_update_notice(switched, 20), None);
}

#[test]
fn peer_events_are_reported() {
    assert_eq!(
        collab_update_notice(CollabUpdate::PeerConnected, 0),
        Some(Notice::Status("Collaborator connected".to_string()))
    );
    assert_eq!(
        collab_update_notice(CollabUpdate::Reconnecting, 0),
        Some(Notice::Error("Lost connection to your collaborator — trying to reconnect…".to_string()))
    );
    assert_eq!(
        collab_update_notice(CollabUpdate::PeerDisconnected, 0),
        Some(Notice::Error("Collaboration peer disconnected".to_string()))
    );
    assert_eq!(
        collab_update_notice(CollabUpdate::Error("timeout".to_string()), 0),
        Some(Notice::Error("Collaboration error: timeout".to_string()))
    );
}
