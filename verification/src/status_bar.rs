//! The numbers behind the status bar's right-hand indicators: which of them
//! show, the Pomodoro countdown's minutes and seconds, and the words written
//! today that the streak percentage is taken from.

use vstd::prelude::*;

verus! {

/// Whether the right-hand cluster (Pomodoro countdown, streak glyph, draft
/// word count, binder color mode) has anything to show: a Pomodoro started
/// this session, a draft target set, streak tracking on, or a binder coloring
/// mode other than Off.
pub fn right_cluster_visible(
    pomodoro_started: bool,
    draft_target_set: bool,
    streak_enabled: bool,
    color_mode_on: bool,
) -> (visible: bool)
    ensures
        visible == (pomodoro_started || draft_target_set || streak_enabled || color_mode_on),
{
    pomodoro_started || draft_target_set || streak_enabled || color_mode_on
}

/// The Pomodoro countdown's `(minutes, seconds)` for `remaining_secs`
/// seconds left, shown as `mm:ss`.
pub fn countdown_parts(remaining_secs: u64) -> (parts: (u64, u64))
    ensures
        parts.0 == remaining_secs / 60,
        parts.1 == remaining_secs % 60,
        parts.1 < 60,
        parts.0 * 60 + parts.1 == remaining_secs,
{
    (remaining_secs / 60, remaining_secs % 60)
}

/// Words written today so far: the project's word count above the count it
/// had when the session started (none if it is lower), kept to its low 32
/// bits as a `u32`.
pub fn words_today(word_count: usize, session_baseline_words: usize) -> (words: u32)
    ensures
        words == (if word_count >= session_baseline_words {
            (word_count - session_baseline_words) as usize
        } else {
            0usize
        }) as u32,
{
    let above = if word_count >= session_baseline_words {
        word_count - session_baseline_words
    } else {
        0
    };
    above as u32
}

} // verus!
