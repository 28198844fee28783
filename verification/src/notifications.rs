//! Error toasts and the status-bar message: both clear themselves once they
//! have been shown for their configured duration. Times are milliseconds on
//! one monotonic clock.

use vstd::prelude::*;

verus! {

/// An error-severity notification and when it was shown.
pub struct Toast {
    pub message: String,
    pub shown_at_ms: u64,
}

/// How long a toast shown at `shown_at` has been on screen at `now` (zero if
/// `now` is earlier).
pub open spec fn age(shown_at: u64, now: u64) -> int {
    if now >= shown_at {
        now - shown_at
    } else {
        0
    }
}

/// The toasts of `s` that are younger than `duration` at `now`, in order.
pub open spec fn fresh(s: Seq<(Seq<char>, u64)>, now: u64, duration: u64) -> Seq<(Seq<char>, u64)>
    decreases s.len(),
{
    if s.len() == 0 {
        Seq::empty()
    } else if age(s.last().1, now) < duration {
        fresh(s.drop_last(), now, duration).push(s.last())
    } else {
        fresh(s.drop_last(), now, duration)
    }
}

/// The toasts on screen, oldest first.
pub struct ToastQueue {
    pub toasts: Vec<Toast>,
}

impl View for ToastQueue {
    type V = Seq<(Seq<char>, u64)>;

    open spec fn view(&self) -> Seq<(Seq<char>, u64)> {
        self.toasts@.map_values(|t: Toast| (t.message@, t.shown_at_ms))
    }
}

impl ToastQueue {
    /// No toasts.
    pub fn new() -> (q: ToastQueue)
        ensures
            q@ == Seq::<(Seq<char>, u64)>::empty(),
    {
        let q = ToastQueue { toasts: Vec::new() };
        assert(q@ =~= Seq::<(Seq<char>, u64)>::empty());
        q
    }

    /// Shows `message` as a new toast at `now`.
    pub fn push(&mut self, message: String, now_ms: u64)
        ensures
            final(self)@ == old(self)@.push((message@, now_ms)),
    {
        let ghost before = self@;
        self.toasts.push(Toast { message, shown_at_ms: now_ms });
        assert(self@ =~= before.push((message@, now_ms)));
    }

    /// Drops every toast that has been shown for `duration_ms` or longer.
    pub fn expire(&mut self, now_ms: u64, duration_ms: u64)
        ensures
            final(self)@ == fresh(old(self)@, now_ms, duration_ms),
    {
        let ghost all = self@;
        let mut rest: Vec<Toast> = Vec::new();
        std::mem::swap(&mut rest, &mut self.toasts);
        let ghost n = all.len() as int;
        let mut kept: Vec<Toast> = Vec::new();
        while rest.len() > 0
            invariant
                n == all.len(),
                rest@.len() <= n,
                forall|j: int|
                    0 <= j < rest@.len() ==> ((#[trigger] rest@[j]).message@, rest@[j].shown_at_ms)
                        == all[n - rest@.len() + j],
                kept@.map_values(|t: Toast| (t.message@, t.shown_at_ms)) == fresh(
                    all.take(n - rest@.len()),
                    now_ms,
                    duration_ms,
                ),
            decreases rest@.len(),
        {
            let ghost done = n - rest@.len();
            let ghost before = kept@.map_values(|t: Toast| (t.message@, t.shown_at_ms));
            assert(((rest@[0]).message@, rest@[0].shown_at_ms) == all[done]);
            let toast = rest.remove(0);
            assert(all.take(done + 1).drop_last() =~= all.take(done));
            let age = if now_ms >= toast.shown_at_ms {
                now_ms - toast.shown_at_ms
            } else {
                0
            };
            if age < duration_ms {
                kept.push(toast);
                assert(kept@.map_values(|t: Toast| (t.message@, t.shown_at_ms)) =~= before.push(
                    all[done],
                ));
            }
            proof {
                assert forall|j: int| 0 <= j < rest@.len() implies ((#[trigger] rest@[j]).message@,
                    rest@[j].shown_at_ms) == all[n - rest@.len() + j] by {
                    let k = j + 1;
                    assert(k < rest@.len() + 1);
                }
            }
        }
        assert(all.take(n) =~= all);
        self.toasts = kept;
    }

    /// Dismisses the toast at `index` (its close button was clicked).
    pub fn dismiss(&mut self, index: usize)
        requires
            index < old(self)@.len(),
        ensures
            final(self)@ == old(self)@.remove(index as int),
    {
        let ghost before = self@;
        self.toasts.remove(index);
        assert(self@ =~= before.remove(index as int));
    }

    /// Whether no toast is showing.
    pub fn is_empty(&self) -> (empty: bool)
        ensures
            empty == (self@.len() == 0),
    {
        self.toasts.len() == 0
    }
}

/// Every toast left after expiring is younger than the duration, and every
/// one that is younger stays.
pub proof fn law_expire_keeps_exactly_the_fresh(s: Seq<(Seq<char>, u64)>, now: u64, duration: u64)
    ensures
        forall|i: int|
            0 <= i < fresh(s, now, duration).len() ==> age(
                (#[trigger] fresh(s, now, duration)[i]).1,
                now,
            ) < duration,
        fresh(s, now, duration).len() <= s.len(),
        (forall|i: int| 0 <= i < s.len() ==> age((#[trigger] s[i]).1, now) < duration) ==> fresh(
            s,
            now,
            duration,
        ) == s,
    decreases s.len(),
{
    if s.len() > 0 {
        let d = s.drop_last();
        law_expire_keeps_exactly_the_fresh(d, now, duration);
        let f = fresh(s, now, duration);
        let fd = fresh(d, now, duration);
        assert forall|i: int| 0 <= i < f.len() implies age((#[trigger] f[i]).1, now) < duration by {
            if i < fd.len() {
                assert(f[i] == fd[i]);
            }
        }
        if forall|i: int| 0 <= i < s.len() ==> age((#[trigger] s[i]).1, now) < duration {
            assert forall|i: int| 0 <= i < d.len() implies age((#[trigger] d[i]).1, now) < duration by {
                assert(d[i] == s[i]);
            }
            assert(age(s[s.len() - 1].1, now) < duration);
            assert(f =~= s);
        }
    } else {
        assert(fresh(s, now, duration) =~= s);
    }
}

/// What to do about the status-bar message this frame.
#[derive(Debug, Clone, Copy, PartialEq, Eq, Structural)]
pub enum StatusExpiry {
    /// No message is showing.
    Nothing,
    /// The message has been up for its whole duration: clear it.
    Clear,
    /// Check again after this many milliseconds.
    RepaintAfter(u64),
}

/// Decides whether the status message, shown `elapsed_ms` ago (if one is
/// showing), has expired after `duration_ms`.
pub fn status_message_expiry(elapsed_ms: Option<u64>, duration_ms: u64) -> (e: StatusExpiry)
    ensures
        e == (match elapsed_ms {
            None => StatusExpiry::Nothing,
            Some(elapsed) => if elapsed >= duration_ms {
                StatusExpiry::Clear
            } else {
                StatusExpiry::RepaintAfter((duration_ms - elapsed) as u64)
            },
        }),
{
    match elapsed_ms {
        None => StatusExpiry::Nothing,
        Some(elapsed) => if elapsed >= duration_ms {
            StatusExpiry::Clear
        } else {
            StatusExpiry::RepaintAfter(duration_ms - elapsed)
        },
    }
}

/// Feedback for the user: a routine status-bar message, or an error toast.
#[derive(Debug, Clone, PartialEq, Eq)]
pub enum Notice {
    Status(String),
    Error(String),
}

/// The text of a notice, whichever kind it is.
pub open spec fn notice_text(n: Notice) -> Seq<char> {
    match n {
        Notice::Status(t) => t@,
        Notice::Error(t) => t@,
    }
}

} // verus!
