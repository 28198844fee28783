//! Moving between documents: what the history records around each switch,
//! and where the cursor lands in the document switched to.

use vstd::prelude::*;

use crate::doc_path::DocPath;
use crate::document_history::{
    current_of, go_back_spec, go_forward_spec, history_wf, next_of, previous_of, visit_spec,
    DocumentHistory, HistoryView,
};
use crate::path_map::PathView;

verus! {

/// `h` with `offset` remembered as the cursor position in `p`.
pub open spec fn record_spec(h: HistoryView, p: PathView, offset: usize) -> HistoryView {
    HistoryView { cursors: h.cursors.insert(p, offset), ..h }
}

/// Where the cursor goes in a document being opened: its remembered position,
/// or the start.
pub open spec fn arrival_spec(h: HistoryView, p: PathView) -> usize {
    if h.cursors.contains_key(p) {
        h.cursors[p]
    } else {
        0
    }
}

/// Before the editor switches away from the open document (if any), remember
/// where its cursor was.
pub fn record_departure(history: &mut DocumentHistory, open_path: Option<&DocPath>, cursor_byte: usize)
    requires
        old(history).wf(),
    ensures
        final(history).wf(),
        final(history)@ == match open_path {
            Some(p) => record_spec(old(history)@, p@, cursor_byte),
            None => old(history)@,
        },
{
    if let Some(p) = open_path {
        history.record_cursor(p, cursor_byte);
    }
}

/// Where to put the cursor once the editor has opened `path`.
pub fn arrival_cursor(history: &DocumentHistory, path: &DocPath) -> (offset: usize)
    ensures
        offset == arrival_spec(history@, path@),
{
    match history.cursor_for(path) {
        Some(offset) => offset,
        None => 0,
    }
}

/// Back: the document to load, with the history already stepped back to it;
/// `None` (and no change) when there is nothing behind the current position.
pub fn step_back(history: &mut DocumentHistory) -> (target: Option<DocPath>)
    requires
        old(history).wf(),
    ensures
        final(history).wf(),
        final(history)@ == go_back_spec(old(history)@),
        target matches Some(t) ==> Some(t@) == previous_of(old(history)@),
        target is None <==> previous_of(old(history)@) is None,
{
    let target = match history.previous() {
        Some(p) => p.duplicate(),
        None => return None,
    };
    history.go_back();
    Some(target)
}

/// Forward: the document to load, with the history already stepped forward
/// to it; `None` (and no change) when there is nothing ahead.
pub fn step_forward(history: &mut DocumentHistory) -> (target: Option<DocPath>)
    requires
        old(history).wf(),
    ensures
        final(history).wf(),
        final(history)@ == go_forward_spec(old(history)@),
        target matches Some(t) ==> Some(t@) == next_of(old(history)@),
        target is None <==> next_of(old(history)@) is None,
{
    let target = match history.next() {
        Some(p) => p.duplicate(),
        None => return None,
    };
    history.go_forward();
    Some(target)
}

/// Going back restores the cursor position last left in that document: with
/// `a` current and its cursor left at `x`, opening a different document `b`
/// (its cursor later left at `y`) and then going back lands on `a` with the
/// cursor at `x`; going forward again lands on `b` with the cursor at `y`.
pub proof fn law_going_back_restores_the_cursor(
    h: HistoryView,
    a: PathView,
    x: usize,
    b: PathView,
    y: usize,
)
    requires
        history_wf(h),
        current_of(h) == Some(a),
        a != b,
    ensures
        ({
            let opened_b = visit_spec(record_spec(h, a, x), b);
            let left_b = record_spec(opened_b, b, y);
            let back = go_back_spec(left_b);
            &&& previous_of(left_b) == Some(a)
            &&& current_of(back) == Some(a)
            &&& arrival_spec(back, a) == x
            &&& current_of(go_forward_spec(back)) == Some(b)
            &&& arrival_spec(go_forward_spec(back), b) == y
        }),
{
    let r = record_spec(h, a, x);
    let i = r.position->0;
    let kept = r.entries.take(i + 1);
    assert(kept.push(b)[kept.len() - 1] == r.entries[i]);
}

/// Opening the same document again does not grow the history: the history
/// after reopening the current document differs only in the remembered cursor.
pub proof fn law_reopening_does_not_grow_the_history(h: HistoryView, a: PathView, x: usize)
    requires
        history_wf(h),
        current_of(h) == Some(a),
    ensures
        visit_spec(record_spec(h, a, x), a).entries == h.entries,
        visit_spec(record_spec(h, a, x), a).position == h.position,
{
}

} // verus!
