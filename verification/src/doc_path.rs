//! Filesystem paths as the editor sees them: a sequence of path components.
//!
//! Two paths are equal exactly when their components are (the same rule as
//! `std::path::Path`'s `==`), one path lies under another when the other's
//! components are a prefix of its own, and paths are ordered component by
//! component (the root before `.`, `.` before `..`, `..` before any named
//! component, and named components by their UTF-8 bytes).

use vstd::prelude::*;
use vstd::utf8::encode_utf8;

verus! {

/// A path, held as the text of each of its components in order (`"/"` for the
/// root, `"."` and `".."` for the current and parent directory).
#[derive(Debug, Clone, PartialEq, Eq)]
pub struct DocPath {
    pub components: Vec<String>,
}

/// The texts of a list of component strings.
pub open spec fn component_texts(parts: Seq<String>) -> Seq<Seq<char>> {
    parts.map_values(|c: String| c@)
}

impl View for DocPath {
    type V = Seq<Seq<char>>;

    open spec fn view(&self) -> Seq<Seq<char>> {
        component_texts(self.components@)
    }
}

/// The component texts that `std::path::Path::components` yields for `text`.
pub uninterp spec fn std_path_components(text: Seq<char>) -> Seq<Seq<char>>;

/// The components of `base.join(rest)` (`std::path::PathBuf::join`), where
/// `base` and `rest` are paths with the given components.
pub uninterp spec fn std_path_join(base: Seq<Seq<char>>, rest: Seq<Seq<char>>) -> Seq<Seq<char>>;

/// Splits `text` with `std::path::Path::components`. The contract claims only
/// that the result is `std_path_components` of the text: the splitting rules
/// themselves (separators, `.` handling, the root) are std's and not restated.
#[verifier::external_body]
fn path_components(text: &str) -> (parts: Vec<String>)
    ensures
        component_texts(parts@) == std_path_components(text@),
{
    std::path::Path::new(text).components().map(
        |c| c.as_os_str().to_string_lossy().into_owned(),
    ).collect()
}

/// Joins two paths with `std::path::PathBuf::join`, after rebuilding each from
/// its components. The contract claims only that the result's components are
/// `std_path_join` of the two inputs' components.
#[verifier::external_body]
fn path_join(base: &DocPath, rest: &DocPath) -> (joined: DocPath)
    ensures
        joined@ == std_path_join(base@, rest@),
{
    let mut b = std::path::PathBuf::new();
    for c in &base.components {
        b.push(c);
    }
    let mut r = std::path::PathBuf::new();
    for c in &rest.components {
        r.push(c);
    }
    let parts = b.join(r).components().map(
        |c| c.as_os_str().to_string_lossy().into_owned(),
    ).collect();
    DocPath { components: parts }
}

/// `prefix` is a whole-component prefix of `path`.
pub open spec fn is_prefix_of(prefix: Seq<Seq<char>>, path: Seq<Seq<char>>) -> bool {
    prefix.len() <= path.len() && path.take(prefix.len() as int) == prefix
}

/// The components of `path` below `root`, if `path` lies under `root`.
pub open spec fn strip_prefix_spec(path: Seq<Seq<char>>, root: Seq<Seq<char>>) -> Option<
    Seq<Seq<char>>,
> {
    if is_prefix_of(root, path) {
        Some(path.skip(root.len() as int))
    } else {
        None
    }
}

/// Where `path` moves when everything under `old_root` moves to `new_root`:
/// the part of `path` below `old_root`, joined onto `new_root` (nothing, if
/// `path` does not lie under `old_root`).
pub open spec fn rebase_spec(path: Seq<Seq<char>>, old_root: Seq<Seq<char>>, new_root: Seq<Seq<char>>) -> Option<
    Seq<Seq<char>>,
> {
    match strip_prefix_spec(path, old_root) {
        Some(rest) => Some(std_path_join(new_root, rest)),
        None => None,
    }
}

/// The path without its last component (`std::path::Path::parent`): nothing
/// for the empty path or one that ends in the root.
pub open spec fn parent_spec(path: Seq<Seq<char>>) -> Option<Seq<Seq<char>>> {
    if path.len() == 0 || component_rank(encode_utf8(path.last())) == 0 {
        None
    } else {
        Some(path.drop_last())
    }
}

/// Lexicographic "less than" on byte strings (a proper prefix is smaller).
pub open spec fn bytes_lt(a: Seq<u8>, b: Seq<u8>) -> bool
    decreases a.len(),
{
    if a.len() == 0 {
        b.len() > 0
    } else if b.len() == 0 {
        false
    } else if a[0] != b[0] {
        a[0] < b[0]
    } else {
        bytes_lt(a.drop_first(), b.drop_first())
    }
}

/// The kind of a component given its UTF-8 bytes: root, current directory,
/// parent directory, or a named component, in that order.
pub open spec fn component_rank(bytes: Seq<u8>) -> int {
    if bytes == seq![47u8] {
        0
    } else if bytes == seq![46u8] {
        1
    } else if bytes == seq![46u8, 46u8] {
        2
    } else {
        3
    }
}

/// The order of two components: by kind first, then named components by their
/// UTF-8 bytes.
pub open spec fn component_lt(a: Seq<char>, b: Seq<char>) -> bool {
    let ea = encode_utf8(a);
    let eb = encode_utf8(b);
    component_rank(ea) < component_rank(eb) || (component_rank(ea) == 3 && component_rank(eb)
        == 3 && bytes_lt(ea, eb))
}

/// Lexicographic "less than" on paths, component by component.
pub open spec fn path_lt(p: Seq<Seq<char>>, q: Seq<Seq<char>>) -> bool
    decreases p.len(),
{
    if p.len() == 0 {
        q.len() > 0
    } else if q.len() == 0 {
        false
    } else if p[0] != q[0] {
        component_lt(p[0], q[0])
    } else {
        path_lt(p.drop_first(), q.drop_first())
    }
}

/// The kind of `c` (see `component_rank`).
fn component_rank_of(c: &String) -> (rank: u8)
    ensures
        rank as int == component_rank(encode_utf8(c@)),
{
    let bytes = c.as_str().as_bytes();
    let ghost e = encode_utf8(c@);
    assert(bytes@ == e);
    if bytes.len() == 1 && bytes[0] == 47u8 {
        assert(e =~= seq![47u8]);
        0
    } else if bytes.len() == 1 && bytes[0] == 46u8 {
        assert(e =~= seq![46u8]);
        assert(e != seq![47u8]);
        1
    } else if bytes.len() == 2 && bytes[0] == 46u8 && bytes[1] == 46u8 {
        assert(e =~= seq![46u8, 46u8]);
        2
    } else {
        assert(e != seq![47u8]) by {
            if e == seq![47u8] {
                assert(e.len() == 1 && e[0] == 47u8);
            }
        }
        assert(e != seq![46u8]) by {
            if e == seq![46u8] {
                assert(e.len() == 1 && e[0] == 46u8);
            }
        }
        assert(e != seq![46u8, 46u8]) by {
            if e == seq![46u8, 46u8] {
                assert(e.len() == 2 && e[0] == 46u8 && e[1] == 46u8);
            }
        }
        3
    }
}

/// `bytes_lt` on two byte slices.
fn bytes_less(a: &[u8], b: &[u8]) -> (less: bool)
    ensures
        less == bytes_lt(a@, b@),
{
    let mut i: usize = 0;
    assert(a@.skip(0) =~= a@);
    assert(b@.skip(0) =~= b@);
    while i < a.len() && i < b.len()
        invariant
            i <= a@.len(),
            i <= b@.len(),
            bytes_lt(a@, b@) == bytes_lt(a@.skip(i as int), b@.skip(i as int)),
        decreases a@.len() - i,
    {
        let x = a[i];
        let y = b[i];
        assert(a@.skip(i as int)[0] == x);
        assert(b@.skip(i as int)[0] == y);
        if x != y {
            return x < y;
        }
        assert(a@.skip(i as int).drop_first() =~= a@.skip(i + 1));
        assert(b@.skip(i as int).drop_first() =~= b@.skip(i + 1));
        i = i + 1;
    }
    assert(a@.skip(i as int).len() == a@.len() - i);
    assert(b@.skip(i as int).len() == b@.len() - i);
    a.len() < b.len()
}

/// `component_lt` on two component strings.
fn component_less(a: &String, b: &String) -> (less: bool)
    ensures
        less == component_lt(a@, b@),
{
    let ra = component_rank_of(a);
    let rb = component_rank_of(b);
    if ra != rb {
        ra < rb
    } else if ra == 3 {
        bytes_less(a.as_str().as_bytes(), b.as_str().as_bytes())
    } else {
        false
    }
}

impl DocPath {
    /// The path that `text` names, split into components by
    /// `std::path::Path::components`.
    pub fn new(text: &str) -> (path: DocPath)
        ensures
            path@ == std_path_components(text@),
    {
        DocPath { components: path_components(text) }
    }

    /// A path with exactly the given components.
    pub fn from_components(components: Vec<String>) -> (path: DocPath)
        ensures
            path@ == component_texts(components@),
    {
        DocPath { components }
    }

    /// A copy of this path.
    pub fn duplicate(&self) -> (copy: DocPath)
        ensures
            copy@ == self@,
    {
        let mut parts: Vec<String> = Vec::new();
        let mut i: usize = 0;
        while i < self.components.len()
            invariant
                i <= self.components@.len(),
                parts@.len() == i,
                forall|k: int| 0 <= k < i ==> parts@[k]@ == self.components@[k]@,
            decreases self.components@.len() - i,
        {
            parts.push(self.components[i].clone());
            i = i + 1;
        }
        let copy = DocPath { components: parts };
        assert(copy@ =~= self@);
        copy
    }

    /// Whether the two paths have the same components.
    pub fn same_as(&self, other: &DocPath) -> (same: bool)
        ensures
            same == (self@ == other@),
    {
        if self.components.len() != other.components.len() {
            assert(self@.len() != other@.len());
            return false;
        }
        let mut i: usize = 0;
        while i < self.components.len()
            invariant
                i <= self.components@.len(),
                self.components@.len() == other.components@.len(),
                forall|k: int| 0 <= k < i ==> self@[k] == other@[k],
            decreases self.components@.len() - i,
        {
            if self.components[i] != other.components[i] {
                assert(self@[i as int] != other@[i as int]);
                return false;
            }
            i = i + 1;
        }
        assert(self@ =~= other@);
        true
    }

    /// Whether every component of `base` is, in order, a leading component of
    /// this path (`std::path::Path::starts_with`: whole components only).
    pub fn starts_with(&self, base: &DocPath) -> (starts: bool)
        ensures
            starts == is_prefix_of(base@, self@),
    {
        if base.components.len() > self.components.len() {
            return false;
        }
        let mut i: usize = 0;
        while i < base.components.len()
            invariant
                i <= base.components@.len(),
                base.components@.len() <= self.components@.len(),
                forall|k: int| 0 <= k < i ==> self@[k] == base@[k],
            decreases base.components@.len() - i,
        {
            if self.components[i] != base.components[i] {
                assert(self@.take(base@.len() as int)[i as int] != base@[i as int]);
                return false;
            }
            i = i + 1;
        }
        assert(self@.take(base@.len() as int) =~= base@);
        true
    }

    /// The part of this path below `base`, if it lies under `base`
    /// (`std::path::Path::strip_prefix`).
    pub fn strip_prefix(&self, base: &DocPath) -> (rest: Option<DocPath>)
        ensures
            rest matches Some(r) ==> Some(r@) == strip_prefix_spec(self@, base@),
            rest is None <==> strip_prefix_spec(self@, base@) is None,
    {
        if !self.starts_with(base) {
            return None;
        }
        let mut parts: Vec<String> = Vec::new();
        let mut i: usize = base.components.len();
        while i < self.components.len()
            invariant
                base.components@.len() <= i <= self.components@.len(),
                parts@.len() == i - base.components@.len(),
                forall|k: int|
                    0 <= k < parts@.len() ==> parts@[k]@ == self.components@[k
                        + base.components@.len()]@,
            decreases self.components@.len() - i,
        {
            parts.push(self.components[i].clone());
            i = i + 1;
        }
        let rest = DocPath { components: parts };
        assert(rest@ =~= self@.skip(base@.len() as int));
        Some(rest)
    }

    /// This path with `rest` appended (`std::path::PathBuf::join`).
    pub fn join(&self, rest: &DocPath) -> (joined: DocPath)
        ensures
            joined@ == std_path_join(self@, rest@),
    {
        path_join(self, rest)
    }

    /// Where this path moves when everything under `old_root` moves to
    /// `new_root` (see `rebase_spec`).
    pub fn rebase(&self, old_root: &DocPath, new_root: &DocPath) -> (moved: Option<DocPath>)
        ensures
            moved matches Some(m) ==> Some(m@) == rebase_spec(self@, old_root@, new_root@),
            moved is None <==> rebase_spec(self@, old_root@, new_root@) is None,
    {
        match self.strip_prefix(old_root) {
            Some(rest) => Some(new_root.join(&rest)),
            None => None,
        }
    }

    /// The directory containing this path (see `parent_spec`).
    pub fn parent(&self) -> (dir: Option<DocPath>)
        ensures
            dir matches Some(d) ==> Some(d@) == parent_spec(self@),
            dir is None <==> parent_spec(self@) is None,
    {
        let n = self.components.len();
        if n == 0 {
            return None;
        }
        if component_rank_of(&self.components[n - 1]) == 0 {
            return None;
        }
        let mut parts: Vec<String> = Vec::new();
        let mut i: usize = 0;
        while i + 1 < n
            invariant
                n == self.components@.len(),
                n > 0,
                i < n,
                parts@.len() == i,
                forall|k: int| 0 <= k < i ==> parts@[k]@ == self.components@[k]@,
            decreases n - i,
        {
            parts.push(self.components[i].clone());
            i = i + 1;
        }
        let dir = DocPath { components: parts };
        assert(dir@ =~= self@.drop_last());
        Some(dir)
    }

    /// Whether this path sorts before `other` (`std::path::Path`'s order).
    pub fn less_than(&self, other: &DocPath) -> (less: bool)
        ensures
            less == path_lt(self@, other@),
    {
        let mut i: usize = 0;
        assert(self@.skip(0) =~= self@);
        assert(other@.skip(0) =~= other@);
        while i < self.components.len() && i < other.components.len()
            invariant
                i <= self@.len(),
                i <= other@.len(),
                path_lt(self@, other@) == path_lt(self@.skip(i as int), other@.skip(i as int)),
            decreases self@.len() - i,
        {
            assert(self@.skip(i as int)[0] == self.components@[i as int]@);
            assert(other@.skip(i as int)[0] == other.components@[i as int]@);
            if self.components[i] != other.components[i] {
                return component_less(&self.components[i], &other.components[i]);
            }
            assert(self@.skip(i as int).drop_first() =~= self@.skip(i + 1));
            assert(other@.skip(i as int).drop_first() =~= other@.skip(i + 1));
            i = i + 1;
        }
        assert(self@.skip(i as int).len() == self@.len() - i);
        assert(other@.skip(i as int).len() == other@.len() - i);
        self.components.len() < other.components.len()
    }
}

} // verus!
