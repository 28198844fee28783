//! Fixed user-facing texts: operation labels, status tooltips, and the
//! "blank field means unset" rule.

use vstd::prelude::*;

verus! {

/// Which of the two network-bound git actions is running.
#[derive(Debug, Clone, Copy, PartialEq, Eq, Structural)]
pub enum GitOperation {
    Push,
    Pull,
}

/// The operation's name as shown to the user.
pub open spec fn operation_name(op: GitOperation) -> Seq<char> {
    match op {
        GitOperation::Push => "Push"@,
        GitOperation::Pull => "Pull"@,
    }
}

impl GitOperation {
    /// The operation's name as shown to the user.
    pub fn label(self) -> (text: &'static str)
        ensures
            text@ == operation_name(self),
    {
        match self {
            GitOperation::Push => "Push",
            GitOperation::Pull => "Pull",
        }
    }
}

/// How the writing streak stands.
#[derive(Debug, Clone, Copy, PartialEq, Eq, Structural)]
pub enum StreakStatus {
    Disabled,
    InsufficientData,
    Green,
    Yellow,
    Red,
}

/// Hover tooltip for the status bar's compact streak glyph.
pub fn streak_status_hover_text(status: StreakStatus) -> (text: &'static str)
    ensures
        text@ == (match status {
            StreakStatus::Disabled => "Streak tracking is disabled"@,
            StreakStatus::InsufficientData => "Streak: not enough data yet"@,
            StreakStatus::Green => "Streak: on track"@,
            StreakStatus::Yellow => "Streak: off track this week"@,
            StreakStatus::Red => "Streak: off track for multiple weeks"@,
        }),
{
    match status {
        StreakStatus::Disabled => "Streak tracking is disabled",
        StreakStatus::InsufficientData => "Streak: not enough data yet",
        StreakStatus::Green => "Streak: on track",
        StreakStatus::Yellow => "Streak: off track this week",
        StreakStatus::Red => "Streak: off track for multiple weeks",
    }
}

/// The two inner tabs of the Streak panel.
#[derive(Debug, Clone, Copy, PartialEq, Eq, Structural)]
pub enum StreakSubTab {
    /// The live badge and progress.
    Streak,
    /// The tracking settings.
    Configure,
}

/// The Streak panel's tab on opening a project: the live view when tracking
/// is already on, the settings otherwise.
pub fn default_streak_sub_tab(streak_enabled: bool) -> (tab: StreakSubTab)
    ensures
        tab == (if streak_enabled {
            StreakSubTab::Streak
        } else {
            StreakSubTab::Configure
        }),
{
    if streak_enabled {
        StreakSubTab::Streak
    } else {
        StreakSubTab::Configure
    }
}

/// Whether `c` has the Unicode `White_Space` property, which is what
/// `str::trim` strips.
pub open spec fn is_white_space(c: char) -> bool {
    ('\u{9}' <= c && c <= '\u{D}') || c == ' ' || c == '\u{85}' || c == '\u{A0}' || c
        == '\u{1680}' || ('\u{2000}' <= c && c <= '\u{200A}') || c == '\u{2028}' || c
        == '\u{2029}' || c == '\u{202F}' || c == '\u{205F}' || c == '\u{3000}'
}

/// `s` without its leading white space.
pub open spec fn trim_start_spec(s: Seq<char>) -> Seq<char>
    decreases s.len(),
{
    if s.len() > 0 && is_white_space(s[0]) {
        trim_start_spec(s.drop_first())
    } else {
        s
    }
}

/// `s` without its trailing white space.
pub open spec fn trim_end_spec(s: Seq<char>) -> Seq<char>
    decreases s.len(),
{
    if s.len() > 0 && is_white_space(s.last()) {
        trim_end_spec(s.drop_last())
    } else {
        s
    }
}

/// `s` without leading and trailing white space.
pub open spec fn trim_spec(s: Seq<char>) -> Seq<char> {
    trim_end_spec(trim_start_spec(s))
}

/// `str::trim`, which std documents as removing leading and trailing white
/// space as defined by the Unicode `White_Space` property.
#[verifier::external_body]
fn trim(s: &str) -> (t: &str)
    ensures
        t@ == trim_spec(s@),
{
    s.trim()
}

/// `Some(s.trim())` unless that is empty: a blank field means "unset", not
/// an empty string.
pub fn non_empty(s: &str) -> (value: Option<String>)
    ensures
        value is None <==> trim_spec(s@).len() == 0,
        value matches Some(v) ==> v@ == trim_spec(s@),
{
    let trimmed = trim(s);
    if trimmed.is_empty() {
        None
    } else {
        Some(trimmed.to_owned())
    }
}

} // verus!
