//! Chronological history of the documents opened in the editor, with Back and
//! Forward navigation like a browser's history stack, plus the last known
//! cursor position within every document ever visited.

use vstd::prelude::*;

use crate::doc_path::{is_prefix_of, rebase_spec, std_path_join, DocPath};
use crate::path_map::{outside_of, rebased_from, PathMap, PathView};

verus! {

/// The abstract state of a `DocumentHistory`.
pub struct HistoryView {
    /// Visited documents in order (a document may occur more than once).
    pub entries: Seq<PathView>,
    /// Index into `entries` of the document currently considered "here".
    pub position: Option<int>,
    /// The last known cursor byte offset of every document ever visited.
    pub cursors: Map<PathView, usize>,
}

/// `position` is `None` exactly when there are no entries, and otherwise
/// indexes one.
pub open spec fn history_wf(h: HistoryView) -> bool {
    match h.position {
        Some(i) => 0 <= i < h.entries.len(),
        None => h.entries.len() == 0,
    }
}

/// The document currently considered "here".
pub open spec fn current_of(h: HistoryView) -> Option<PathView> {
    match h.position {
        Some(i) => Some(h.entries[i]),
        None => None,
    }
}

/// The document Back would move to.
pub open spec fn previous_of(h: HistoryView) -> Option<PathView> {
    match h.position {
        Some(i) => if i > 0 {
            Some(h.entries[i - 1])
        } else {
            None
        },
        None => None,
    }
}

/// The document Forward would move to.
pub open spec fn next_of(h: HistoryView) -> Option<PathView> {
    match h.position {
        Some(i) => if i + 1 < h.entries.len() {
            Some(h.entries[i + 1])
        } else {
            None
        },
        None => None,
    }
}

/// Opening `p` as a fresh navigation: a no-op if `p` is already current;
/// otherwise every entry after the current one is discarded and `p` becomes
/// the new, last, current entry.
pub open spec fn visit_spec(h: HistoryView, p: PathView) -> HistoryView {
    if current_of(h) == Some(p) {
        h
    } else {
        let kept = match h.position {
            Some(i) => h.entries.take(i + 1),
            None => Seq::empty(),
        };
        HistoryView { entries: kept.push(p), position: Some(kept.len() as int), cursors: h.cursors }
    }
}

/// One step back, or nothing if there is no earlier entry.
pub open spec fn go_back_spec(h: HistoryView) -> HistoryView {
    match h.position {
        Some(i) => if i > 0 {
            HistoryView { position: Some(i - 1), ..h }
        } else {
            h
        },
        None => h,
    }
}

/// One step forward, or nothing if there is no later entry.
pub open spec fn go_forward_spec(h: HistoryView) -> HistoryView {
    match h.position {
        Some(i) => if i + 1 < h.entries.len() {
            HistoryView { position: Some(i + 1), ..h }
        } else {
            h
        },
        None => h,
    }
}

/// The entries of `entries` that do not lie under `root`, in order.
pub open spec fn outside(entries: Seq<PathView>, root: PathView) -> Seq<PathView>
    decreases entries.len(),
{
    if entries.len() == 0 {
        Seq::empty()
    } else {
        let rest = outside(entries.drop_last(), root);
        if is_prefix_of(root, entries.last()) {
            rest
        } else {
            rest.push(entries.last())
        }
    }
}

/// Dropping every entry and cursor for `root` or anything under it. The
/// position moves to the last surviving entry at or before the old one, or to
/// the first survivor if none survived before it, or to nothing if no entry
/// survived.
pub open spec fn remove_subtree_spec(h: HistoryView, root: PathView) -> HistoryView {
    let cursors = h.cursors.restrict(outside_of(root));
    match h.position {
        None => HistoryView { cursors, ..h },
        Some(old) => {
            let entries = outside(h.entries, root);
            let before = outside(h.entries.take(old + 1), root).len();
            let position = if before > 0 {
                Some(before - 1)
            } else if entries.len() > 0 {
                Some(0)
            } else {
                None
            };
            HistoryView { entries, position, cursors }
        },
    }
}

/// Every entry equal to `from` becomes `to`, and `from`'s remembered cursor (if
/// any) moves to `to`.
pub open spec fn rename_spec(h: HistoryView, from: PathView, to: PathView) -> HistoryView {
    let entries = h.entries.map_values(|e: PathView| if e == from { to } else { e });
    let cursors = if h.cursors.contains_key(from) {
        h.cursors.remove(from).insert(to, h.cursors[from])
    } else {
        h.cursors
    };
    HistoryView { entries, position: h.position, cursors }
}

/// Every entry under `old_root` moved to its place under `new_root`.
pub open spec fn rebase_entries(entries: Seq<PathView>, old_root: PathView, new_root: PathView) -> Seq<
    PathView,
> {
    entries.map_values(
        |e: PathView|
            match rebase_spec(e, old_root, new_root) {
                Some(r) => r,
                None => e,
            },
    )
}

/// The history of opened documents.
pub struct DocumentHistory {
    entries: Vec<DocPath>,
    position: Option<usize>,
    cursor_positions: PathMap<usize>,
}

impl View for DocumentHistory {
    type V = HistoryView;

    closed spec fn view(&self) -> HistoryView {
        HistoryView {
            entries: self.entries@.map_values(|p: DocPath| p@),
            position: match self.position {
                Some(i) => Some(i as int),
                None => None,
            },
            cursors: self.cursor_positions@,
        }
    }
}

impl Default for DocumentHistory {
    fn default() -> (h: DocumentHistory)
        ensures
            h.wf(),
            h@.entries.len() == 0,
            h@.position is None,
            h@.cursors == Map::<PathView, usize>::empty(),
    {
        DocumentHistory::new()
    }
}

impl DocumentHistory {
    /// The history's internal consistency (see `history_wf`).
    pub closed spec fn wf(&self) -> bool {
        history_wf(self@)
    }

    /// An empty history.
    pub fn new() -> (h: DocumentHistory)
        ensures
            h.wf(),
            h@.entries.len() == 0,
            h@.position is None,
            h@.cursors == Map::<PathView, usize>::empty(),
    {
        let h = DocumentHistory { entries: Vec::new(), position: None, cursor_positions: PathMap::new() };
        assert(h@.entries =~= Seq::<PathView>::empty());
        h
    }

    /// The document currently considered "here".
    pub fn current(&self) -> (p: Option<&DocPath>)
        requires
            self.wf(),
        ensures
            p is Some <==> current_of(self@) is Some,
            p matches Some(q) ==> Some(q@) == current_of(self@),
    {
        match self.position {
            Some(index) => Some(&self.entries[index]),
            None => None,
        }
    }

    /// Records that `path` was just opened as a fresh navigation (not a
    /// Back/Forward step): it becomes the entry after the current one and
    /// every later entry is discarded. A no-op if `path` is already current.
    pub fn visit(&mut self, path: &DocPath)
        requires
            old(self).wf(),
        ensures
            final(self).wf(),
            final(self)@ == visit_spec(old(self)@, path@),
    {
        let ghost h = self@;
        assert(h.entries.len() == self.entries@.len());
        if let Some(index) = self.position {
            if self.entries[index].same_as(path) {
                return;
            }
        }
        let next_position = match self.position {
            Some(index) => {
                assert(self@.position == Some(index as int));
                assert(history_wf(self@));
                let len = self.entries.len();
                assert(index < len);
                self.entries.truncate(index + 1);
                index + 1
            },
            None => 0,
        };
        self.entries.push(path.duplicate());
        self.position = Some(next_position);
        proof {
            let kept = match h.position {
                Some(i) => h.entries.take(i + 1),
                None => Seq::empty(),
            };
            assert(self@.entries =~= kept.push(path@));
            assert(self@ == visit_spec(h, path@));
        }
    }

    /// The document Back would move to, without moving there.
    pub fn previous(&self) -> (p: Option<&DocPath>)
        requires
            self.wf(),
        ensures
            p is Some <==> previous_of(self@) is Some,
            p matches Some(q) ==> Some(q@) == previous_of(self@),
    {
        match self.position {
            Some(index) => if index > 0 {
                Some(&self.entries[index - 1])
            } else {
                None
            },
            None => None,
        }
    }

    /// The document Forward would move to, without moving there.
    pub fn next(&self) -> (p: Option<&DocPath>)
        requires
            self.wf(),
        ensures
            p is Some <==> next_of(self@) is Some,
            p matches Some(q) ==> Some(q@) == next_of(self@),
    {
        assert(self@.entries.len() == self.entries@.len());
        match self.position {
            Some(index) => if {
                assert(self@.position == Some(index as int));
                assert(history_wf(self@));
                let len = self.entries.len();
                assert(index < len);
                index + 1 < len
            } {
                Some(&self.entries[index + 1])
            } else {
                None
            },
            None => None,
        }
    }

    /// Whether Back has somewhere to go.
    pub fn can_go_back(&self) -> (b: bool)
        requires
            self.wf(),
        ensures
            b == previous_of(self@) is Some,
    {
        self.previous().is_some()
    }

    /// Whether Forward has somewhere to go.
    pub fn can_go_forward(&self) -> (b: bool)
        requires
            self.wf(),
        ensures
            b == next_of(self@) is Some,
    {
        self.next().is_some()
    }

    /// Moves one step back; a no-op when `previous()` is `None`.
    pub fn go_back(&mut self)
        requires
            old(self).wf(),
        ensures
            final(self).wf(),
            final(self)@ == go_back_spec(old(self)@),
    {
        if let Some(index) = self.position {
            if index > 0 {
                self.position = Some(index - 1);
            }
        }
    }

    /// Moves one step forward; a no-op when `next()` is `None`.
    pub fn go_forward(&mut self)
        requires
            old(self).wf(),
        ensures
            final(self).wf(),
            final(self)@ == go_forward_spec(old(self)@),
    {
        assert(self@.entries.len() == self.entries@.len());
        if let Some(index) = self.position {
            assert(self@.position == Some(index as int));
            assert(history_wf(self@));
            let len = self.entries.len();
            assert(index < len);
            if index + 1 < len {
                self.position = Some(index + 1);
            }
        }
    }

    /// Remembers `byte_offset` as the cursor position in `path`.
    pub fn record_cursor(&mut self, path: &DocPath, byte_offset: usize)
        requires
            old(self).wf(),
        ensures
            final(self).wf(),
            final(self)@ == (HistoryView {
                cursors: old(self)@.cursors.insert(path@, byte_offset),
                ..old(self)@
            }),
    {
        self.cursor_positions.insert(path.duplicate(), byte_offset);
    }

    /// The cursor position last remembered for `path`.
    pub fn cursor_for(&self, path: &DocPath) -> (offset: Option<usize>)
        ensures
            offset == (if self@.cursors.contains_key(path@) {
                Some(self@.cursors[path@])
            } else {
                None
            }),
    {
        match self.cursor_positions.get(path) {
            Some(offset) => Some(*offset),
            None => None,
        }
    }

    /// Drops every entry and remembered cursor for `path` or anything inside
    /// it, keeping the position on the same surviving entry (or the nearest
    /// one, if the current entry itself was removed).
    pub fn remove_subtree(&mut self, path: &DocPath)
        requires
            old(self).wf(),
        ensures
            final(self).wf(),
            final(self)@ == remove_subtree_spec(old(self)@, path@),
    {
        let ghost h = self@;
        self.cursor_positions.retain_outside(path);
        let old_position = match self.position {
            Some(p) => p,
            None => {
                assert(self@ == remove_subtree_spec(h, path@));
                return;
            },
        };
        let ghost es = h.entries;
        let mut new_position: Option<usize> = None;
        let mut kept: Vec<DocPath> = Vec::new();
        let mut index: usize = 0;
        while index < self.entries.len()
            invariant
                index <= self.entries@.len(),
                es == self.entries@.map_values(|p: DocPath| p@),
                old_position < es.len(),
                kept@.map_values(|p: DocPath| p@) == outside(es.take(index as int), path@),
                new_position == ({
                    let c = outside(
                        es.take(if index <= old_position { index as int } else { old_position + 1 }),
                        path@,
                    ).len();
                    if c > 0 {
                        Some((c - 1) as usize)
                    } else {
                        None::<usize>
                    }
                }),
            decreases self.entries@.len() - index,
        {
            let ghost before = kept@.map_values(|p: DocPath| p@);
            proof {
                lemma_outside_len(es.take(index as int), path@);
            }
            assert(es.take(index + 1).drop_last() =~= es.take(index as int));
            assert(es.take(index + 1).last() == es[index as int]);
            if !self.entries[index].starts_with(path) {
                if index <= old_position {
                    new_position = Some(kept.len());
                }
                kept.push(self.entries[index].duplicate());
                assert(kept@.map_values(|p: DocPath| p@) =~= before.push(es[index as int]));
            }
            index = index + 1;
        }
        assert(es.take(index as int) =~= es);
        self.entries = kept;
        self.position = match new_position {
            Some(p) => Some(p),
            None => if self.entries.len() == 0 {
                None
            } else {
                Some(0)
            },
        };
        proof {
            lemma_outside_prefix(es, old_position + 1, path@);
            lemma_outside_len(es.take(old_position + 1), path@);
            let r = remove_subtree_spec(h, path@);
            assert(h.position == Some(old_position as int));
            assert(self@.entries == r.entries);
            assert(self@.cursors == r.cursors);
            assert(self@.position == r.position);
            assert(self@ == r);
        }
    }

    /// Replaces every entry equal to `from` with `to`, and moves `from`'s
    /// remembered cursor (if any) to `to`.
    pub fn rename_path(&mut self, from: &DocPath, to: &DocPath)
        requires
            old(self).wf(),
        ensures
            final(self).wf(),
            final(self)@ == rename_spec(old(self)@, from@, to@),
    {
        let ghost h = self@;
        let ghost old_position = self.position;
        let ghost old_cursors = self.cursor_positions@;
        let mut index: usize = 0;
        while index < self.entries.len()
            invariant
                index <= self.entries@.len(),
                self.entries@.len() == h.entries.len(),
                self.position == old_position,
                self.cursor_positions@ == old_cursors,
                old_cursors == h.cursors,
                h == old(self)@,
                forall|k: int|
                    0 <= k < self.entries@.len() ==> #[trigger] self.entries@[k]@ == (if k < index
                        && h.entries[k] == from@ {
                        to@
                    } else {
                        h.entries[k]
                    }),
            decreases self.entries@.len() - index,
        {
            if self.entries[index].same_as(from) {
                self.entries.set(index, to.duplicate());
            }
            index = index + 1;
        }
        if let Some(cursor) = self.cursor_positions.remove(from) {
            self.cursor_positions.insert(to.duplicate(), cursor);
        }
        proof {
            let r = rename_spec(h, from@, to@);
            assert(self@.entries =~= r.entries);
            assert(self@.cursors =~= r.cursors);
        }
    }

    /// Moves every entry and remembered cursor under `old_root` to its place
    /// under `new_root` (a file or folder was moved).
    pub fn rebase_subtree(&mut self, old_root: &DocPath, new_root: &DocPath)
        requires
            old(self).wf(),
        ensures
            final(self).wf(),
            final(self)@.entries == rebase_entries(old(self)@.entries, old_root@, new_root@),
            final(self)@.position == old(self)@.position,
            rebased_from(old(self)@.cursors, final(self)@.cursors, old_root@, new_root@),
    {
        let ghost h = self@;
        let ghost old_position = self.position;
        let ghost old_cursors = self.cursor_positions@;
        let mut index: usize = 0;
        while index < self.entries.len()
            invariant
                index <= self.entries@.len(),
                self.entries@.len() == h.entries.len(),
                self.position == old_position,
                self.cursor_positions@ == old_cursors,
                old_cursors == h.cursors,
                h == old(self)@,
                forall|k: int|
                    0 <= k < self.entries@.len() ==> #[trigger] self.entries@[k]@ == (if k < index {
                        match rebase_spec(h.entries[k], old_root@, new_root@) {
                            Some(r) => r,
                            None => h.entries[k],
                        }
                    } else {
                        h.entries[k]
                    }),
            decreases self.entries@.len() - index,
        {
            if let Some(rebased) = self.entries[index].rebase(old_root, new_root) {
                self.entries.set(index, rebased);
            }
            index = index + 1;
        }
        self.cursor_positions.rebase(old_root, new_root);
        assert(self@.entries =~= rebase_entries(h.entries, old_root@, new_root@));
    }
}

/// Filtering a prefix of `entries` gives a prefix of the filtered `entries`.
proof fn lemma_outside_prefix(entries: Seq<PathView>, n: int, root: PathView)
    requires
        0 <= n <= entries.len(),
    ensures
        outside(entries.take(n), root).len() <= outside(entries, root).len(),
        outside(entries, root).take(outside(entries.take(n), root).len() as int) == outside(
            entries.take(n),
            root,
        ),
    decreases entries.len(),
{
    if n == entries.len() {
        assert(entries.take(n) =~= entries);
        assert(outside(entries, root).take(outside(entries, root).len() as int) =~= outside(
            entries,
            root,
        ));
    } else {
        let d = entries.drop_last();
        assert(entries.take(n) =~= d.take(n));
        lemma_outside_prefix(d, n, root);
        let a = outside(d.take(n), root);
        let b = outside(d, root);
        let c = outside(entries, root);
        assert(c.take(b.len() as int) =~= b);
        assert(c.take(a.len() as int) =~= b.take(a.len() as int));
    }
}

/// `outside` never grows a sequence, and keeps its last element when that one
/// survives.
proof fn lemma_outside_len(entries: Seq<PathView>, root: PathView)
    ensures
        outside(entries, root).len() <= entries.len(),
    decreases entries.len(),
{
    if entries.len() > 0 {
        lemma_outside_len(entries.drop_last(), root);
    }
}

/// Nothing that `outside` keeps lies under `root`.
proof fn lemma_outside_excludes(entries: Seq<PathView>, root: PathView)
    ensures
        forall|i: int|
            0 <= i < outside(entries, root).len() ==> !is_prefix_of(
                root,
                #[trigger] outside(entries, root)[i],
            ),
    decreases entries.len(),
{
    if entries.len() > 0 {
        let d = entries.drop_last();
        lemma_outside_excludes(d, root);
        let o = outside(entries, root);
        let od = outside(d, root);
        assert forall|i: int| 0 <= i < o.len() implies !is_prefix_of(root, #[trigger] o[i]) by {
            if i < od.len() {
                assert(o[i] == od[i]);
            }
        }
    }
}

/// After `visit(p)`, `p` is the current document, and the history is still
/// consistent.
pub proof fn law_visit_makes_current(h: HistoryView, p: PathView)
    requires
        history_wf(h),
    ensures
        history_wf(visit_spec(h, p)),
        current_of(visit_spec(h, p)) == Some(p),
{
}

/// Visiting the same document twice in a row is the same as visiting it once:
/// revisiting the current document never grows the history.
pub proof fn law_visit_is_idempotent(h: HistoryView, p: PathView)
    requires
        history_wf(h),
    ensures
        visit_spec(visit_spec(h, p), p) == visit_spec(h, p),
{
}

/// Visiting a new document leaves the one that was current as the target of
/// Back, and leaves nothing for Forward: visiting after going back discards
/// the forward entries.
pub proof fn law_visit_links_back_to_previous_current(h: HistoryView, p: PathView)
    requires
        history_wf(h),
        current_of(h) is Some,
        current_of(h) != Some(p),
    ensures
        previous_of(visit_spec(h, p)) == current_of(h),
        next_of(visit_spec(h, p)) is None,
{
    let i = h.position->0;
    let kept = h.entries.take(i + 1);
    assert(kept.push(p)[kept.len() - 1] == h.entries[i]);
}

/// Going back and then forward again returns to exactly the same state, when
/// there was somewhere to go back to: Back and Forward never lose entries.
pub proof fn law_back_then_forward_restores(h: HistoryView)
    requires
        history_wf(h),
        previous_of(h) is Some,
    ensures
        go_forward_spec(go_back_spec(h)) == h,
{
}

/// Going forward and then back again returns to exactly the same state, when
/// there was somewhere to go forward to.
pub proof fn law_forward_then_back_restores(h: HistoryView)
    requires
        history_wf(h),
        next_of(h) is Some,
    ensures
        go_back_spec(go_forward_spec(h)) == h,
{
}

/// Back and Forward change only the position: the entries and the remembered
/// cursors stay as they were, and each is a no-op at its end of the history.
pub proof fn law_navigation_only_moves_the_position(h: HistoryView)
    requires
        history_wf(h),
    ensures
        go_back_spec(h).entries == h.entries,
        go_back_spec(h).cursors == h.cursors,
        go_forward_spec(h).entries == h.entries,
        go_forward_spec(h).cursors == h.cursors,
        history_wf(go_back_spec(h)),
        history_wf(go_forward_spec(h)),
        previous_of(h) is None ==> go_back_spec(h) == h,
        next_of(h) is None ==> go_forward_spec(h) == h,
{
}

/// After `remove_subtree(root)`, no entry and no remembered cursor lies under
/// `root`, the history is still consistent, and if the current document was
/// not removed it is still the current document.
pub proof fn law_remove_subtree_forgets_the_subtree(h: HistoryView, root: PathView)
    requires
        history_wf(h),
    ensures
        history_wf(remove_subtree_spec(h, root)),
        forall|i: int|
            0 <= i < remove_subtree_spec(h, root).entries.len() ==> !is_prefix_of(
                root,
                #[trigger] remove_subtree_spec(h, root).entries[i],
            ),
        forall|k: PathView| #[trigger]
            remove_subtree_spec(h, root).cursors.contains_key(k) ==> !is_prefix_of(root, k),
        forall|k: PathView|
            #![trigger h.cursors.contains_key(k)]
            h.cursors.contains_key(k) && !is_prefix_of(root, k) ==> remove_subtree_spec(
                h,
                root,
            ).cursors.contains_key(k) && remove_subtree_spec(h, root).cursors[k] == h.cursors[k],
        (current_of(h) matches Some(c) && !is_prefix_of(root, c)) ==> current_of(
            remove_subtree_spec(h, root),
        ) == current_of(h),
{
    let r = remove_subtree_spec(h, root);
    match h.position {
        None => {},
        Some(old) => {
            lemma_outside_excludes(h.entries, root);
            lemma_outside_prefix(h.entries, old + 1, root);
            let c = h.entries[old];
            if !is_prefix_of(root, c) {
                let t = h.entries.take(old + 1);
                assert(t.drop_last() =~= h.entries.take(old));
                assert(t.last() == c);
                let o = outside(t, root);
                assert(o == outside(t.drop_last(), root).push(c));
                assert(r.entries[o.len() - 1] == o[o.len() - 1]);
            }
        },
    }
}

/// Renaming `from` to a different path `to` leaves no entry equal to `from`,
/// keeps the position, and moves `from`'s remembered cursor to `to`.
pub proof fn law_rename_follows_the_document(h: HistoryView, from: PathView, to: PathView)
    requires
        history_wf(h),
        from != to,
    ensures
        history_wf(rename_spec(h, from, to)),
        forall|i: int|
            0 <= i < rename_spec(h, from, to).entries.len() ==> #[trigger] rename_spec(
                h,
                from,
                to,
            ).entries[i] != from,
        current_of(h) == Some(from) ==> current_of(rename_spec(h, from, to)) == Some(to),
        !rename_spec(h, from, to).cursors.contains_key(from),
        h.cursors.contains_key(from) ==> rename_spec(h, from, to).cursors.contains_key(to)
            && rename_spec(h, from, to).cursors[to] == h.cursors[from],
{
}

/// Moving a subtree keeps the number of entries and the position, so the
/// history stays consistent.
pub proof fn law_rebase_keeps_the_shape(h: HistoryView, old_root: PathView, new_root: PathView)
    requires
        history_wf(h),
    ensures
        history_wf(
            HistoryView { entries: rebase_entries(h.entries, old_root, new_root), ..h },
        ),
        forall|i: int|
            0 <= i < h.entries.len() && !is_prefix_of(old_root, #[trigger] h.entries[i])
                ==> rebase_entries(h.entries, old_root, new_root)[i] == h.entries[i],
{
}

/// Filtering keeps the entries that survive: one that does not lie under
/// `root` is kept, and the prefix up to and including it filters to a
/// sequence ending in it.
proof fn lemma_outside_last_survivor(entries: Seq<PathView>, root: PathView, j: int, n: int)
    requires
        0 <= j < n <= entries.len(),
        !is_prefix_of(root, entries[j]),
        forall|k: int| j < k < n ==> is_prefix_of(root, #[trigger] entries[k]),
    ensures
        outside(entries.take(n), root) == outside(entries.take(j + 1), root),
        outside(entries.take(j + 1), root).len() > 0,
        outside(entries.take(j + 1), root).last() == entries[j],
    decreases n - j,
{
    let t = entries.take(j + 1);
    assert(t.drop_last() =~= entries.take(j));
    assert(t.last() == entries[j]);
    if n > j + 1 {
        let tn = entries.take(n);
        assert(tn.drop_last() =~= entries.take(n - 1));
        assert(tn.last() == entries[n - 1]);
        assert(is_prefix_of(root, entries[n - 1]));
        lemma_outside_last_survivor(entries, root, j, n - 1);
    }
}

/// Every prefix of removed entries filters to nothing.
proof fn lemma_outside_all_removed(entries: Seq<PathView>, root: PathView, n: int)
    requires
        0 <= n <= entries.len(),
        forall|k: int| 0 <= k < n ==> is_prefix_of(root, #[trigger] entries[k]),
    ensures
        outside(entries.take(n), root).len() == 0,
    decreases n,
{
    if n > 0 {
        let t = entries.take(n);
        assert(t.drop_last() =~= entries.take(n - 1));
        assert(t.last() == entries[n - 1]);
        lemma_outside_all_removed(entries, root, n - 1);
    }
}

/// When the current document is removed, the history falls back to the
/// nearest surviving entry before it: if `j` is the last entry at or before
/// the old position that does not lie under `root`, it becomes current, placed
/// right after the survivors that came before it (so Back leads to the
/// nearest of those). If nothing at or before the old position survives, the
/// first survivor after it becomes current.
pub proof fn law_remove_subtree_falls_back_to_the_nearest_survivor(
    h: HistoryView,
    root: PathView,
    j: int,
)
    requires
        history_wf(h),
        h.position matches Some(old) && 0 <= j < h.entries.len() && !is_prefix_of(
            root,
            h.entries[j],
        ) && (if j <= old {
            forall|k: int| j < k <= old ==> is_prefix_of(root, #[trigger] h.entries[k])
        } else {
            forall|k: int| 0 <= k < j ==> is_prefix_of(root, #[trigger] h.entries[k])
        }),
    ensures
        current_of(remove_subtree_spec(h, root)) == Some(h.entries[j]),
        remove_subtree_spec(h, root).position == Some(outside(h.entries.take(j), root).len() as int),
{
    let old = h.position->0;
    let r = remove_subtree_spec(h, root);
    lemma_outside_prefix(h.entries, old + 1, root);
    lemma_outside_prefix(h.entries, j + 1, root);
    let t = h.entries.take(j + 1);
    assert(t.drop_last() =~= h.entries.take(j));
    assert(t.last() == h.entries[j]);
    let oj = outside(t, root);
    assert(oj == outside(h.entries.take(j), root).push(h.entries[j]));
    if j <= old {
        lemma_outside_last_survivor(h.entries, root, j, old + 1);
        assert(r.entries[oj.len() - 1] == oj[oj.len() - 1]);
    } else {
        lemma_outside_all_removed(h.entries, root, old + 1);
        lemma_outside_all_removed(h.entries, root, j);
        assert(r.entries.len() > 0);
        assert(r.entries[0] == oj[0]);
    }
}

/// Moving a subtree rewrites every entry lying under `old_root`, the root
/// itself included, to its place under `new_root` (the rest of its path
/// joined onto `new_root`), and leaves every other entry as it was; so the
/// current entry follows a moved open document.
pub proof fn law_rebase_moves_every_entry_under_the_root(
    h: HistoryView,
    old_root: PathView,
    new_root: PathView,
)
    requires
        history_wf(h),
    ensures
        forall|i: int|
            0 <= i < h.entries.len() && is_prefix_of(old_root, #[trigger] h.entries[i])
                ==> rebase_entries(h.entries, old_root, new_root)[i] == std_path_join(
                new_root,
                h.entries[i].skip(old_root.len() as int),
            ),
        match current_of(h) {
            Some(c) => is_prefix_of(old_root, c) ==> current_of(
                HistoryView { entries: rebase_entries(h.entries, old_root, new_root), ..h },
            ) == Some(std_path_join(new_root, c.skip(old_root.len() as int))),
            None => true,
        },
{
}

} // verus!
