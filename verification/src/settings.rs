//! The user settings that the editor's timing and backup decisions read, and
//! those decisions.

use vstd::prelude::*;

verus! {

/// Built-in toast duration, in seconds, used when
/// `Settings::toast_duration_secs` is unconfigured (`0`).
pub const DEFAULT_TOAST_DURATION_SECS: u64 = 6;

/// Built-in status-bar auto-clear duration, in seconds, used when
/// `Settings::status_message_duration_secs` is unconfigured (`0`).
pub const DEFAULT_STATUS_MESSAGE_DURATION_SECS: u64 = 8;

/// The settings these decisions read. A duration of `0` means "unset".
pub struct Settings {
    pub toast_duration_secs: u32,
    pub status_message_duration_secs: u32,
    /// Master switch for automatic backups.
    pub backup_enabled: bool,
    pub backup_on_open: bool,
    pub backup_on_close: bool,
    pub backup_on_manual_save: bool,
}

impl Default for Settings {
    fn default() -> (s: Settings)
        ensures
            s.toast_duration_secs == 0,
            s.status_message_duration_secs == 0,
            !s.backup_enabled,
            !s.backup_on_open,
            !s.backup_on_close,
            !s.backup_on_manual_save,
    {
        Settings {
            toast_duration_secs: 0,
            status_message_duration_secs: 0,
            backup_enabled: false,
            backup_on_open: false,
            backup_on_close: false,
            backup_on_manual_save: false,
        }
    }
}

/// The `std::time::Duration` that `Duration::from_secs(secs)` builds.
pub uninterp spec fn std_duration_from_secs(secs: u64) -> std::time::Duration;

/// `std::time::Duration::from_secs`. The contract claims only that the result
/// is `std_duration_from_secs` of the argument.
#[verifier::external_body]
fn duration_from_secs(secs: u64) -> (d: std::time::Duration)
    ensures
        d == std_duration_from_secs(secs),
{
    std::time::Duration::from_secs(secs)
}

/// A configured number of seconds, or `default` when it is unset (`0`).
pub open spec fn resolve_secs(configured: u32, default: u64) -> u64 {
    if configured == 0 {
        default
    } else {
        configured as u64
    }
}

/// How many seconds an error toast stays on screen.
pub fn resolve_toast_duration_secs(settings: &Settings) -> (secs: u64)
    ensures
        secs == resolve_secs(settings.toast_duration_secs, DEFAULT_TOAST_DURATION_SECS),
{
    match settings.toast_duration_secs {
        0 => DEFAULT_TOAST_DURATION_SECS,
        secs => secs as u64,
    }
}

/// How long an error toast stays on screen.
pub fn resolve_toast_duration(settings: &Settings) -> (d: std::time::Duration)
    ensures
        d == std_duration_from_secs(
            resolve_secs(settings.toast_duration_secs, DEFAULT_TOAST_DURATION_SECS),
        ),
{
    duration_from_secs(resolve_toast_duration_secs(settings))
}

/// How many seconds a status-bar message stays before it clears itself.
pub fn resolve_status_message_duration_secs(settings: &Settings) -> (secs: u64)
    ensures
        secs == resolve_secs(
            settings.status_message_duration_secs,
            DEFAULT_STATUS_MESSAGE_DURATION_SECS,
        ),
{
    match settings.status_message_duration_secs {
        0 => DEFAULT_STATUS_MESSAGE_DURATION_SECS,
        secs => secs as u64,
    }
}

/// How long a status-bar message stays before it clears itself.
pub fn resolve_status_message_duration(settings: &Settings) -> (d: std::time::Duration)
    ensures
        d == std_duration_from_secs(
            resolve_secs(settings.status_message_duration_secs, DEFAULT_STATUS_MESSAGE_DURATION_SECS),
        ),
{
    duration_from_secs(resolve_status_message_duration_secs(settings))
}

/// Which point in the project lifecycle asks for a backup.
#[derive(Debug, Clone, Copy, PartialEq, Eq, Structural)]
pub enum BackupTrigger {
    Open,
    Close,
    ManualSave,
}

impl BackupTrigger {
    /// Whether both the master switch and this trigger's own switch are on.
    pub open spec fn is_enabled_spec(self, settings: &Settings) -> bool {
        settings.backup_enabled && match self {
            BackupTrigger::Open => settings.backup_on_open,
            BackupTrigger::Close => settings.backup_on_close,
            BackupTrigger::ManualSave => settings.backup_on_manual_save,
        }
    }

    /// Whether a backup should be taken for this trigger: the master switch
    /// and the trigger's own switch must both be on.
    pub fn is_enabled(self, settings: &Settings) -> (enabled: bool)
        ensures
            enabled == self.is_enabled_spec(settings),
    {
        settings.backup_enabled && match self {
            BackupTrigger::Open => settings.backup_on_open,
            BackupTrigger::Close => settings.backup_on_close,
            BackupTrigger::ManualSave => settings.backup_on_manual_save,
        }
    }
}

/// What taking a backup comes to, before any file is touched.
#[derive(Debug, Clone, Copy, PartialEq, Eq, Structural)]
pub enum BackupPlan {
    /// Nothing to do: the trigger is switched off, or no project is open.
    Skip,
    /// A backup is due but no backup directory can be determined; the user is
    /// told to set one.
    ReportMissingDirectory,
    /// Zip the project into the backup directory, then prune old backups.
    Run,
}

/// Decides whether a backup for `trigger` runs: silently skipped when the
/// trigger is disabled or no project is open, reported when there is no
/// backup directory, and run otherwise.
pub fn plan_backup(
    trigger: BackupTrigger,
    settings: &Settings,
    project_open: bool,
    backup_dir_known: bool,
) -> (plan: BackupPlan)
    ensures
        plan == (if !trigger.is_enabled_spec(settings) || !project_open {
            BackupPlan::Skip
        } else if !backup_dir_known {
            BackupPlan::ReportMissingDirectory
        } else {
            BackupPlan::Run
        }),
{
    if !trigger.is_enabled(settings) || !project_open {
        BackupPlan::Skip
    } else if !backup_dir_known {
        BackupPlan::ReportMissingDirectory
    } else {
        BackupPlan::Run
    }
}

/// Each backup trigger is on exactly when the master switch and that
/// trigger's own switch are both on, whatever the other triggers' switches
/// say: two settings that agree on the master switch and on a trigger's own
/// switch agree on whether that trigger backs up.
pub proof fn law_each_trigger_has_its_own_switch(s: Settings, t: Settings)
    ensures
        BackupTrigger::Open.is_enabled_spec(&s) == (s.backup_enabled && s.backup_on_open),
        BackupTrigger::Close.is_enabled_spec(&s) == (s.backup_enabled && s.backup_on_close),
        BackupTrigger::ManualSave.is_enabled_spec(&s) == (s.backup_enabled
            && s.backup_on_manual_save),
        s.backup_enabled == t.backup_enabled && s.backup_on_open == t.backup_on_open
            ==> BackupTrigger::Open.is_enabled_spec(&s) == BackupTrigger::Open.is_enabled_spec(&t),
        s.backup_enabled == t.backup_enabled && s.backup_on_close == t.backup_on_close
            ==> BackupTrigger::Close.is_enabled_spec(&s) == BackupTrigger::Close.is_enabled_spec(
            &t,
        ),
        s.backup_enabled == t.backup_enabled && s.backup_on_manual_save == t.backup_on_manual_save
            ==> BackupTrigger::ManualSave.is_enabled_spec(&s)
            == BackupTrigger::ManualSave.is_enabled_spec(&t),
        !s.backup_enabled ==> !BackupTrigger::Open.is_enabled_spec(&s)
            && !BackupTrigger::Close.is_enabled_spec(&s)
            && !BackupTrigger::ManualSave.is_enabled_spec(&s),
{
}

} // verus!
