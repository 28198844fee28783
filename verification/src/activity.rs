//! Per-frame writing activity: the characters-typed counter and the
//! "a save just happened" edge that triggers a word-count recompute.

use vstd::prelude::*;
use vstd::string::StrSliceExecFns;

use crate::doc_path::DocPath;
use crate::path_map::PathView;

verus! {

/// How far apart two lengths are.
pub open spec fn abs_diff(a: int, b: int) -> int {
    if a >= b {
        a - b
    } else {
        b - a
    }
}

/// The activity counter's abstract state.
pub struct ActivityView {
    pub char_activity: int,
    pub last_len: Option<int>,
    pub tracked_path: Option<PathView>,
}

/// One frame of activity tracking, given the open document (if any), the
/// length of its buffer in characters, and whether it counts toward the
/// project's word-count scope. Every changed character counts, typed or
/// deleted; a newly opened or switched-to document only sets the baseline.
pub open spec fn track_spec(
    s: ActivityView,
    open: Option<PathView>,
    current_len: int,
    is_tracked: bool,
) -> ActivityView {
    match open {
        None => ActivityView { char_activity: s.char_activity, last_len: None, tracked_path: None },
        Some(p) => if s.tracked_path != Some(p) {
            ActivityView {
                char_activity: s.char_activity,
                last_len: Some(current_len),
                tracked_path: Some(p),
            }
        } else {
            ActivityView {
                char_activity: match s.last_len {
                    Some(previous) => if is_tracked {
                        s.char_activity + abs_diff(current_len, previous)
                    } else {
                        s.char_activity
                    },
                    None => s.char_activity,
                },
                last_len: Some(current_len),
                tracked_path: Some(p),
            }
        },
    }
}

/// The word-count bookkeeping that changes frame by frame.
pub struct WordCountActivity {
    /// Whether the open document was dirty as of the previous frame.
    pub last_dirty: bool,
    /// Characters typed and deleted this session in tracked documents.
    pub char_activity: u64,
    /// The open document's length in characters as of the last frame.
    pub char_activity_last_len: Option<usize>,
    /// Which document `char_activity_last_len` was measured for.
    pub char_activity_tracked_path: Option<DocPath>,
}

impl View for WordCountActivity {
    type V = ActivityView;

    open spec fn view(&self) -> ActivityView {
        ActivityView {
            char_activity: self.char_activity as int,
            last_len: match self.char_activity_last_len {
                Some(n) => Some(n as int),
                None => None,
            },
            tracked_path: match self.char_activity_tracked_path {
                Some(p) => Some(p@),
                None => None,
            },
        }
    }
}

impl WordCountActivity {
    /// A fresh session: nothing counted, nothing tracked, clean.
    pub fn new() -> (a: WordCountActivity)
        ensures
            !a.last_dirty,
            a@ == (ActivityView { char_activity: 0, last_len: None, tracked_path: None }),
    {
        WordCountActivity {
            last_dirty: false,
            char_activity: 0,
            char_activity_last_len: None,
            char_activity_tracked_path: None,
        }
    }

    /// Notices a completed save: the open document was dirty last frame and is
    /// clean now. Records `dirty` for the next frame.
    pub fn observe_dirty(&mut self, dirty: bool) -> (just_saved: bool)
        ensures
            just_saved == (old(self).last_dirty && !dirty),
            final(self).last_dirty == dirty,
            final(self)@ == old(self)@,
    {
        let just_saved = self.last_dirty && !dirty;
        self.last_dirty = dirty;
        just_saved
    }

    /// Updates the activity counter from the open document (if any) and its
    /// current buffer (see `track_spec`).
    pub fn track_char_activity(&mut self, open_path: Option<&DocPath>, buffer: &str, is_tracked: bool)
        requires
            ({
                let s = old(self)@;
                match (open_path, s.last_len) {
                    (Some(p), Some(previous)) => s.tracked_path == Some(p@) && is_tracked ==> s.char_activity
                        + abs_diff(buffer@.len() as int, previous) <= u64::MAX,
                    _ => true,
                }
            }),
        ensures
            final(self)@ == track_spec(
                old(self)@,
                match open_path {
                    Some(p) => Some(p@),
                    None => None,
                },
                buffer@.len() as int,
                is_tracked,
            ),
            final(self).last_dirty == old(self).last_dirty,
    {
        let open = match open_path {
            Some(p) => p,
            None => {
                self.char_activity_last_len = None;
                self.char_activity_tracked_path = None;
                return;
            },
        };
        let same = match &self.char_activity_tracked_path {
            Some(t) => t.same_as(open),
            None => false,
        };
        if !same {
            self.char_activity_tracked_path = Some(open.duplicate());
            self.char_activity_last_len = Some(buffer.unicode_len());
            return;
        }
        let current_len = buffer.unicode_len();
        if let Some(previous_len) = self.char_activity_last_len {
            if is_tracked {
                let diff = if current_len >= previous_len {
                    current_len - previous_len
                } else {
                    previous_len - current_len
                };
                self.char_activity = self.char_activity + diff as u64;
            }
        }
        self.char_activity_last_len = Some(current_len);
    }

    /// Zeroes the session's activity counter.
    pub fn reset_session(&mut self)
        ensures
            final(self)@ == (ActivityView { char_activity: 0, ..old(self)@ }),
            final(self).last_dirty == old(self).last_dirty,
    {
        self.char_activity = 0;
    }
}

/// Activity never goes down from one frame to the next.
pub proof fn law_activity_never_decreases(
    s: ActivityView,
    open: Option<PathView>,
    current_len: int,
    is_tracked: bool,
)
    ensures
        track_spec(s, open, current_len, is_tracked).char_activity >= s.char_activity,
{
}

/// Opening or switching to a document counts nothing, however much its
/// length differs from the previous document's; neither does editing a
/// document outside the tracked scope, nor having no document open.
pub proof fn law_switching_and_untracked_edits_count_nothing(
    s: ActivityView,
    open: Option<PathView>,
    current_len: int,
    is_tracked: bool,
)
    requires
        open is None || s.tracked_path != open || !is_tracked,
    ensures
        track_spec(s, open, current_len, is_tracked).char_activity == s.char_activity,
{
}

/// Typing and then deleting in a tracked document counts both directions:
/// going from length `a` to `b` and back to `c` adds `|b - a| + |c - b|`, not
/// the net change.
pub proof fn law_typing_and_deleting_both_count(
    s: ActivityView,
    p: PathView,
    a: int,
    b: int,
    c: int,
)
    requires
        s.tracked_path == Some(p),
        s.last_len == Some(a),
    ensures
        track_spec(track_spec(s, Some(p), b, true), Some(p), c, true).char_activity
            == s.char_activity + abs_diff(b, a) + abs_diff(c, b),
{
}

} // verus!
