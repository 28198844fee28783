//! The cache of each closed document's frontmatter-derived fields, read from
//! disk at most once per path until it is invalidated.

use vstd::prelude::*;

use crate::doc_path::DocPath;
use crate::path_map::{PathMap, PathView};

verus! {

/// One closed document's cached fields, all read together from a single read
/// of the file.
pub struct CachedDocumentRow {
    pub status: Option<String>,
    pub pov: Option<String>,
    pub word_count_target: Option<u32>,
    pub word_count: usize,
    pub line_count: usize,
    pub char_count: usize,
}

impl CachedDocumentRow {
    /// The `(word_count, word_count_target)` pair that word-count-progress
    /// coloring needs.
    pub fn word_count_progress(&self) -> (progress: (usize, Option<u32>))
        ensures
            progress == (self.word_count, self.word_count_target),
    {
        (self.word_count, self.word_count_target)
    }

    /// The `(line_count, word_count, char_count)` readout shown on binder rows.
    pub fn document_stats(&self) -> (stats: (usize, usize, usize))
        ensures
            stats == (self.line_count, self.word_count, self.char_count),
    {
        (self.line_count, self.word_count, self.char_count)
    }
}

/// How one lookup of `path` changes the cache: a path that has a row keeps it
/// and nothing is read; otherwise the row that `read` returned is stored.
pub open spec fn fetched<F: FnOnce() -> CachedDocumentRow>(
    before: Map<PathView, CachedDocumentRow>,
    after: Map<PathView, CachedDocumentRow>,
    path: PathView,
    read: F,
) -> bool {
    if before.contains_key(path) {
        after == before
    } else {
        &&& after == before.insert(path, after[path])
        &&& call_ensures(read, (), after[path])
    }
}

/// A copy of an optional text.
fn copy_text(text: &Option<String>) -> (copy: Option<String>)
    ensures
        copy == *text,
{
    match text {
        Some(t) => Some(t.clone()),
        None => None,
    }
}

/// The cache: each looked-up path's row, until invalidated.
pub struct DocumentStatusCache {
    rows: PathMap<CachedDocumentRow>,
}

impl View for DocumentStatusCache {
    type V = Map<PathView, CachedDocumentRow>;

    closed spec fn view(&self) -> Map<PathView, CachedDocumentRow> {
        self.rows@
    }
}

impl DocumentStatusCache {
    /// An empty cache.
    pub fn new() -> (c: DocumentStatusCache)
        ensures
            c@ == Map::<PathView, CachedDocumentRow>::empty(),
    {
        DocumentStatusCache { rows: PathMap::new() }
    }

    /// Makes sure `path` has a row: a cached one is kept as it is (`read` is
    /// not called), otherwise `read` reads the file and its row is stored.
    fn ensure_cached<F: FnOnce() -> CachedDocumentRow>(&mut self, path: &DocPath, read: F)
        requires
            call_requires(read, ()),
        ensures
            fetched(old(self)@, final(self)@, path@, read),
    {
        if self.rows.get(path).is_none() {
            let row = read();
            self.rows.insert(path.duplicate(), row);
        }
    }

    /// The cached row of `path` after a lookup, for a caller that has just
    /// made sure there is one.
    fn row_of(&self, path: &DocPath) -> (row: &CachedDocumentRow)
        requires
            self@.contains_key(path@),
        ensures
            *row == self@[path@],
    {
        self.rows.get(path).unwrap()
    }

    /// `path`'s status, from its cached row; the file is read (by `read`) only
    /// on the first lookup of `path` since it was last invalidated.
    pub fn status<F: FnOnce() -> CachedDocumentRow>(&mut self, path: &DocPath, read: F) -> (status: Option<String>)
        requires
            call_requires(read, ()),
        ensures
            fetched(old(self)@, final(self)@, path@, read),
            status == final(self)@[path@].status,
    {
        self.ensure_cached(path, read);
        copy_text(&self.row_of(path).status)
    }

    /// `path`'s point-of-view character, from the same cached row as `status`.
    pub fn pov<F: FnOnce() -> CachedDocumentRow>(&mut self, path: &DocPath, read: F) -> (pov: Option<String>)
        requires
            call_requires(read, ()),
        ensures
            fetched(old(self)@, final(self)@, path@, read),
            pov == final(self)@[path@].pov,
    {
        self.ensure_cached(path, read);
        copy_text(&self.row_of(path).pov)
    }

    /// `(word_count, word_count_target)` of `path`, from its cached row.
    pub fn word_count_progress<F: FnOnce() -> CachedDocumentRow>(&mut self, path: &DocPath, read: F) -> (progress: (usize, Option<u32>))
        requires
            call_requires(read, ()),
        ensures
            fetched(old(self)@, final(self)@, path@, read),
            progress == (final(self)@[path@].word_count, final(self)@[path@].word_count_target),
    {
        self.ensure_cached(path, read);
        self.row_of(path).word_count_progress()
    }

    /// `(line_count, word_count, char_count)` of `path`, from its cached row.
    pub fn document_stats<F: FnOnce() -> CachedDocumentRow>(&mut self, path: &DocPath, read: F) -> (stats: (usize, usize, usize))
        requires
            call_requires(read, ()),
        ensures
            fetched(old(self)@, final(self)@, path@, read),
            stats == (final(self)@[path@].line_count, final(self)@[path@].word_count, final(self)@[path@].char_count),
    {
        self.ensure_cached(path, read);
        self.row_of(path).document_stats()
    }

    /// Drops `path`'s row so the next lookup reads it afresh.
    pub fn invalidate(&mut self, path: &DocPath)
        ensures
            final(self)@ == old(self)@.remove(path@),
    {
        self.rows.remove(path);
    }

    /// Drops every row.
    pub fn clear(&mut self)
        ensures
            final(self)@ == Map::<PathView, CachedDocumentRow>::empty(),
    {
        self.rows.clear();
    }
}

/// Each path is read from disk at most once between invalidations: after a
/// lookup the path has a row; a path that already had one keeps it and is
/// not read again; a lookup leaves every other path's row as it was; and
/// after `invalidate` (or `clear`) the next lookup reads the file afresh.
pub proof fn law_each_path_is_read_once_per_invalidation<F: FnOnce() -> CachedDocumentRow>(
    before: Map<PathView, CachedDocumentRow>,
    after: Map<PathView, CachedDocumentRow>,
    path: PathView,
    read: F,
    other: PathView,
)
    requires
        fetched(before, after, path, read),
    ensures
        after.contains_key(path),
        before.contains_key(path) ==> after[path] == before[path],
        !before.contains_key(path) ==> call_ensures(read, (), after[path]),
        other != path ==> after.contains_key(other) == before.contains_key(other),
        other != path && before.contains_key(other) ==> after[other] == before[other],
        fetched(after, after, path, read),
        !before.remove(path).contains_key(path),
        !Map::<PathView, CachedDocumentRow>::empty().contains_key(path),
{
}

} // verus!
