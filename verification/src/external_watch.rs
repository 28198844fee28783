//! Picking up changes made to the project's files outside the editor: how
//! often to look, and what to do when the open document changed on disk.

use vstd::prelude::*;

verus! {

/// How often, in milliseconds, the project is checked for outside changes.
pub const EXTERNAL_SCAN_INTERVAL_MS: u64 = 2000;

/// What this frame's external-change check does.
#[derive(Debug, Clone, Copy, PartialEq, Eq, Structural)]
pub enum ScanDecision {
    /// No project is open: nothing to check, and nothing to schedule.
    NoProject,
    /// The last scan was too recent; schedule the next check and wait.
    NotYet,
    /// Rescan the project tree and check the open document now.
    Scan,
}

/// Whether to scan for outside changes this frame, given whether a project is
/// open and how long ago (in milliseconds) the last scan was, if there was
/// one.
pub fn external_scan_decision(project_open: bool, since_last_scan_ms: Option<u64>) -> (d: ScanDecision)
    ensures
        d == (if !project_open {
            ScanDecision::NoProject
        } else if since_last_scan_ms matches Some(ms) && ms < EXTERNAL_SCAN_INTERVAL_MS {
            ScanDecision::NotYet
        } else {
            ScanDecision::Scan
        }),
{
    if !project_open {
        return ScanDecision::NoProject;
    }
    match since_last_scan_ms {
        Some(ms) => if ms < EXTERNAL_SCAN_INTERVAL_MS {
            ScanDecision::NotYet
        } else {
            ScanDecision::Scan
        },
        None => ScanDecision::Scan,
    }
}

/// What to do about the open document's file having changed on disk.
#[derive(Debug, Clone, Copy, PartialEq, Eq, Structural)]
pub enum ExternalChange {
    /// Nothing changed, or the conflict is already recorded, or nothing is open.
    Nothing,
    /// The buffer has unsaved edits: leave it alone and record a conflict for
    /// the user to resolve.
    RecordConflict,
    /// Nothing unsaved would be lost: reload the buffer from disk.
    Reload,
}

/// How to react to a possible outside change of the open document.
pub open spec fn external_change_spec(
    changed_on_disk: bool,
    dirty: bool,
    conflict_recorded: bool,
    document_open: bool,
) -> ExternalChange {
    if !changed_on_disk {
        ExternalChange::Nothing
    } else if dirty {
        if conflict_recorded {
            ExternalChange::Nothing
        } else {
            ExternalChange::RecordConflict
        }
    } else if document_open {
        ExternalChange::Reload
    } else {
        ExternalChange::Nothing
    }
}

/// Decides how to react when the open document may have changed on disk: a
/// clean buffer is reloaded silently, a dirty one is never clobbered and
/// raises a conflict instead (once).
pub fn external_change_action(
    changed_on_disk: bool,
    dirty: bool,
    conflict_recorded: bool,
    document_open: bool,
) -> (action: ExternalChange)
    ensures
        action == external_change_spec(changed_on_disk, dirty, conflict_recorded, document_open),
{
    if !changed_on_disk {
        return ExternalChange::Nothing;
    }
    if dirty {
        if conflict_recorded {
            return ExternalChange::Nothing;
        }
        return ExternalChange::RecordConflict;
    }
    if document_open {
        ExternalChange::Reload
    } else {
        ExternalChange::Nothing
    }
}

/// A document with unsaved edits is never reloaded over, and a conflict is
/// raised at most once: whatever changed on disk, the buffer is kept.
pub proof fn law_dirty_buffer_is_never_reloaded(
    changed_on_disk: bool,
    conflict_recorded: bool,
    document_open: bool,
)
    ensures
        external_change_spec(changed_on_disk, true, conflict_recorded, document_open)
            != ExternalChange::Reload,
        conflict_recorded ==> external_change_spec(changed_on_disk, true, true, document_open)
            == ExternalChange::Nothing,
{
}

} // verus!
