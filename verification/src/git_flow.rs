//! The decisions around the project's git integration: when a commit, push
//! or pull may start, what the user is told while it runs and once it is
//! done, and when to offer or set up git support at all. Running git itself,
//! the background thread and the dialogs are left to the caller.

use vstd::prelude::*;
use vstd::string::StringExecFns;

use crate::labels::{operation_name, GitOperation};
use crate::notifications::{notice_text, Notice};

verus! {

/// Refusal when no project is open.
pub open spec fn no_project_text() -> Seq<char> {
    "No project open"@
}

/// Refusal when the project has not turned git support on.
pub open spec fn not_enabled_text() -> Seq<char> {
    "Git support isn't enabled for this project"@
}

/// Refusal when a push or pull is still running.
pub open spec fn busy_text() -> Seq<char> {
    "A git operation is already in progress"@
}

/// Refusal when there is no `git` program to run.
pub open spec fn git_missing_text() -> Seq<char> {
    "git was not found on this system"@
}

/// What a commit, push, pull or commit prompt checks before anything else:
/// a project must be open, and git support enabled for it.
pub open spec fn readiness_spec(project_open: bool, git_enabled: bool) -> Option<Seq<char>> {
    if !project_open {
        Some(no_project_text())
    } else if !git_enabled {
        Some(not_enabled_text())
    } else {
        None
    }
}

/// The view of an optional text.
pub open spec fn text_view(t: Option<String>) -> Option<Seq<char>> {
    match t {
        Some(s) => Some(s@),
        None => None,
    }
}

/// The refusal, if any, that stops a git action before it starts (see
/// `readiness_spec`).
pub fn git_readiness(project_open: bool, git_enabled: bool) -> (refusal: Option<String>)
    ensures
        text_view(refusal) == readiness_spec(project_open, git_enabled),
{
    if !project_open {
        Some("No project open".to_owned())
    } else if !git_enabled {
        Some("Git support isn't enabled for this project".to_owned())
    } else {
        None
    }
}

/// Whether a push or pull may start, and if so the status shown while it
/// runs ("Pushing…", "Pulling…"). Only one runs at a time: a second is
/// refused rather than queued.
pub fn start_git_operation(
    operation: GitOperation,
    project_open: bool,
    git_enabled: bool,
    in_flight: bool,
) -> (start: Result<String, String>)
    ensures
        readiness_spec(project_open, git_enabled) matches Some(t) ==> (start matches Err(e) && e@
            == t),
        readiness_spec(project_open, git_enabled) is None && in_flight ==> (start matches Err(e)
            && e@ == busy_text()),
        readiness_spec(project_open, git_enabled) is None && !in_flight ==> (start matches Ok(s)
            && s@ == operation_name(operation) + "ing…"@),
{
    match git_readiness(project_open, git_enabled) {
        Some(refusal) => Err(refusal),
        None => if in_flight {
            Err("A git operation is already in progress".to_owned())
        } else {
            let mut status = operation.label().to_owned();
            status.append("ing…");
            Ok(status)
        },
    }
}

/// How a background push or pull ended.
#[derive(Debug, Clone, PartialEq, Eq)]
pub enum GitOutcome {
    Succeeded,
    /// git reported this error.
    Failed(String),
    /// The background thread went away without a result.
    ThreadLost,
}

/// What a finished push or pull leads to: the notice, and whether to rescan
/// the project tree (after a successful pull, whose new or removed files must
/// show up; the open document is deliberately not reloaded).
pub fn git_operation_finished(operation: GitOperation, outcome: GitOutcome) -> (result: (Notice, bool))
    ensures
        result.1 == (outcome is Succeeded && operation == GitOperation::Pull),
        outcome is Succeeded ==> result.0 is Status && notice_text(result.0) == operation_name(
            operation,
        ) + "ed"@,
        outcome matches GitOutcome::Failed(e) ==> (result.0 is Error && notice_text(result.0)
            == operation_name(operation) + " failed: "@ + e@),
        outcome is ThreadLost ==> result.0 is Error && notice_text(result.0) == operation_name(
            operation,
        ) + " failed: background thread panicked"@,
{
    let mut text = operation.label().to_owned();
    match outcome {
        GitOutcome::Succeeded => {
            text.append("ed");
            let rescan = match operation {
                GitOperation::Pull => true,
                GitOperation::Push => false,
            };
            (Notice::Status(text), rescan)
        },
        GitOutcome::Failed(error) => {
            text.append(" failed: ");
            text.append(error.as_str());
            (Notice::Error(text), false)
        },
        GitOutcome::ThreadLost => {
            text.append(" failed: background thread panicked");
            (Notice::Error(text), false)
        },
    }
}

/// How `git commit` ended.
#[derive(Debug, Clone, PartialEq, Eq)]
pub enum CommitOutcome {
    Committed,
    /// The working tree had no changes.
    NothingToCommit,
    /// git reported this error.
    Failed(String),
}

/// What a finished commit leads to: the notice, and whether to push next
/// (only after a real commit that was asked to push).
pub fn commit_finished(outcome: CommitOutcome, push_after: bool) -> (result: (Notice, bool))
    ensures
        result.1 == (outcome is Committed && push_after),
        outcome is Committed ==> result.0 is Status && notice_text(result.0) == "Committed"@,
        outcome is NothingToCommit ==> result.0 is Status && notice_text(result.0)
            == "Nothing to commit"@,
        outcome matches CommitOutcome::Failed(e) ==> (result.0 is Error && notice_text(result.0)
            == "Commit failed: "@ + e@),
{
    match outcome {
        CommitOutcome::Committed => (Notice::Status("Committed".to_owned()), push_after),
        CommitOutcome::NothingToCommit => (Notice::Status("Nothing to commit".to_owned()), false),
        CommitOutcome::Failed(error) => {
            let mut text = "Commit failed: ".to_owned();
            text.append(error.as_str());
            (Notice::Error(text), false)
        },
    }
}

/// The commit-message prompt: its title, its confirm button, and the
/// message it starts out with.
pub fn commit_prompt_texts(push_after: bool) -> (texts: (&'static str, &'static str, &'static str))
    ensures
        texts.0@ == "Commit"@,
        texts.1@ == (if push_after {
            "Commit and Push"@
        } else {
            "Commit"@
        }),
        texts.2@ == "Smaragd backup"@,
{
    let confirm = if push_after {
        "Commit and Push"
    } else {
        "Commit"
    };
    ("Commit", confirm, "Smaragd backup")
}

/// Whether to show the one-time "enable git support?" dialog: only for a
/// project that was never asked and has not enabled it, and only when git is
/// installed.
pub fn should_offer_git_support(already_prompted: bool, git_enabled: bool, git_available: bool) -> (offer: bool)
    ensures
        offer == (!already_prompted && !git_enabled && git_available),
{
    !already_prompted && !git_enabled && git_available
}

/// The dialog's question, which depends on whether the project folder is
/// already a git repository.
pub fn git_offer_description(already_repo: bool) -> (text: &'static str)
    ensures
        text@ == (if already_repo {
            "This project is already a git repository. Enable Smaragd's git integration (commit/push/pull from the Versions menu)?"@
        } else {
            "Git was detected on your system. Initialize a git repository for this project and enable version control from the Versions menu?"@
        }),
{
    if already_repo {
        "This project is already a git repository. Enable Smaragd's git integration (commit/push/pull from the Versions menu)?"
    } else {
        "Git was detected on your system. Initialize a git repository for this project and enable version control from the Versions menu?"
    }
}

/// Whether opening or committing must first recreate the repository: git
/// support is on and git installed, but the `.git` directory is gone.
pub fn repo_needs_init(git_enabled: bool, git_available: bool, is_repo: bool) -> (init: bool)
    ensures
        init == (git_enabled && git_available && !is_repo),
{
    git_enabled && git_available && !is_repo
}

/// The refusal, if any, of turning git support on by hand (from the menu or
/// `:git enable`): unlike the one-time offer it runs whenever asked, but it
/// needs an open project and an installed git.
pub fn manual_enable_refusal(project_open: bool, git_available: bool) -> (refusal: Option<String>)
    ensures
        text_view(refusal) == (if !project_open {
            Some(no_project_text())
        } else if !git_available {
            Some(git_missing_text())
        } else {
            None
        }),
{
    if !project_open {
        Some("No project open".to_owned())
    } else if !git_available {
        Some("git was not found on this system".to_owned())
    } else {
        None
    }
}

} // verus!
