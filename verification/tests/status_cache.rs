use std::cell::{Cell, RefCell};

use smaragd::doc_path::DocPath;
use smaragd::status_cache::{CachedDocumentRow, DocumentStatusCache};

/// A stand-in for one document file: what its frontmatter and body say now,
/// and how many times it has been read.
struct FakeFile {
    status: RefCell<Option<String>>,
    pov: RefCell<Option<String>>,
    target: Cell<Option<u32>>,
    body: RefCell<String>,
    reads: Cell<usize>,
}

impl FakeFile {
    fn new(status: Option<&str>, pov: Option<&str>, target: Option<u32>, body: &str) -> FakeFile {
        FakeFile {
            status: RefCell::new(status.map(|s| s.to_string())),
            pov: RefCell::new(pov.map(|s| s.to_string())),
            target: Cell::new(target),
            body: RefCell::new(body.to_string()),
            reads: Cell::new(0),
        }
    }

    fn rewrite(&self, status: Option<&str>, pov: Option<&str>, target: Option<u32>, body: &str) {
        *self.status.borrow_mut() = status.map(|s| s.to_string());
        *self.pov.borrow_mut() = pov.map(|s| s.to_string());
        self.target.set(target);
        *self.body.borrow_mut() = body.to_string();
    }

    fn read(&self) -> CachedDocumentRow {
        self.reads.set(self.reads.get() + 1);
        let body = self.body.borrow();
        CachedDocumentRow {
            status: self.status.borrow().clone(),
            pov: self.pov.borrow().clone(),
            word_count_target: self.target.get(),
            word_count: body.split_whitespace().count(),
            line_count: body.lines().count(),
            char_count: body.chars().count(),
        }
    }
}

#[test]
fn status_reads_from_disk_only_once_per_path() {
    let path = DocPath::new("/project/Scene.md");
    let file = FakeFile::new(Some("draft"), None, None, "Body.");
    let mut cache = DocumentStatusCache::new();

    assert_eq!(cache.status(&path, || file.read()), Some("draft".to_string()));

    file.rewrite(Some("final"), None, None, "Body.");
    assert_eq!(
        cache.status(&path, || file.read()),
        Some("draft".to_string()),
        "a second lookup without invalidation should return the cached value"
    );
    assert_eq!(file.reads.get(), 1);
}

#[test]
fn invalidate_forces_a_fresh_read() {
    let path = DocPath::new("/project/Scene.md");
    let file = FakeFile::new(Some("draft"), None, None, "Body.");
    let mut cache = DocumentStatusCache::new();
    cache.status(&path, || file.read());

    file.rewrite(Some("final"), None, None, "Body.");
    cache.invalidate(&path);

    assert_eq!(cache.status(&path, || file.read()), Some("final".to_string()));
    assert_eq!(file.reads.get(), 2);
}

#[test]
fn clear_forces_a_fresh_read_for_every_path() {
    let path = DocPath::new("/project/Scene.md");
    let file = FakeFile::new(Some("draft"), None, None, "Body.");
    let mut cache = DocumentStatusCache::new();
    cache.status(&path, || file.read());

    file.rewrite(Some("final"), None, None, "Body.");
    cache.clear();

    assert_eq!(cache.status(&path, || file.read()), Some("final".to_string()));
}

#[test]
fn pov_and_word_count_are_cached_from_a_single_read() {
    let path = DocPath::new("/project/Scene.md");
    let file = FakeFile::new(None, Some("Alice"), Some(100), "one two three");
    let mut cache = DocumentStatusCache::new();

    assert_eq!(cache.pov(&path, || file.read()), Some("Alice".to_string()));
    assert_eq!(cache.word_count_progress(&path, || file.read()), (3, Some(100)));

    file.rewrite(None, Some("Bob"), None, "something else entirely");
    assert_eq!(cache.pov(&path, || file.read()), Some("Alice".to_string()));
    assert_eq!(cache.word_count_progress(&path, || file.read()), (3, Some(100)));
    assert_eq!(file.reads.get(), 1);
}

#[test]
fn pov_is_none_for_a_document_with_no_pov_frontmatter() {
    let path = DocPath::new("/project/Scene.md");
    let file = FakeFile::new(None, None, None, "Just a plain document.");
    let mut cache = DocumentStatusCache::new();

    assert_eq!(cache.pov(&path, || file.read()), None);
}

#[test]
fn invalidate_drops_the_cached_pov_and_word_count_too() {
    let path = DocPath::new("/project/Scene.md");
    let file = FakeFile::new(None, Some("Alice"), None, "one two");
    let mut cache = DocumentStatusCache::new();
    cache.pov(&path, || file.read());

    file.rewrite(None, Some("Bob"), None, "one two three");
    cache.invalidate(&path);

    assert_eq!(cache.pov(&path, || file.read()), Some("Bob".to_string()));
    assert_eq!(cache.word_count_progress(&path, || file.read()), (3, None));
}

#[test]
fn document_stats_come_from_the_same_row() {
    let path = DocPath::new("/project/Scene.md");
    let file = FakeFile::new(None, None, None, "one two\nthree");
    let mut cache = DocumentStatusCache::new();

    assert_eq!(cache.document_stats(&path, || file.read()), (2, 3, 13));
    assert_eq!(file.reads.get(), 1);
}

#[test]
fn each_path_has_its_own_row() {
    let first = DocPath::new("/project/First.md");
    let second = DocPath::new("/project/Second.md");
    let one = FakeFile::new(Some("draft"), None, None, "");
    let two = FakeFile::new(Some("final"), None, None, "");
    let mut cache = DocumentStatusCache::new();

    assert_eq!(cache.status(&first, || one.read()), Some("draft".to_string()));
    assert_eq!(cache.status(&second, || two.read()), Some("final".to_string()));
    cache.invalidate(&first);
    assert_eq!(cache.status(&second, || two.read()), Some("final".to_string()));
    assert_eq!(two.reads.get(), 1);
}
