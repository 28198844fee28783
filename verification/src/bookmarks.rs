//! Bookmark navigation: stepping to the next or previous bookmark with
//! wraparound, and the line arithmetic between byte offsets and 1-based
//! logical lines that bookmarks are stored in.

use vstd::prelude::*;
use vstd::string::StringSliceAdditionalSpecFns;
use vstd::utf8::{
    is_char_boundary, length_of_first_scalar, pop_first_scalar, valid_utf8,
};

use crate::doc_path::{path_lt, DocPath};
use crate::path_map::PathView;

verus! {

broadcast use vstd::utf8::encode_utf8_valid_utf8;

/// Number of `\n` bytes in `bytes`.
pub open spec fn newline_count(bytes: Seq<u8>) -> nat
    decreases bytes.len(),
{
    if bytes.len() == 0 {
        0
    } else {
        newline_count(bytes.drop_last()) + if bytes.last() == 10u8 {
            1nat
        } else {
            0nat
        }
    }
}

/// The 1-based line containing byte offset `byte` of `bytes`, the offset being
/// clamped to the end of the text.
pub open spec fn line_at_byte_spec(bytes: Seq<u8>, byte: int) -> nat {
    let b = if byte < bytes.len() {
        byte
    } else {
        bytes.len() as int
    };
    newline_count(bytes.take(b)) + 1
}

/// The byte offset at which 1-based `line` starts: just after the
/// `(line - 1)`-th `\n`, or the end of the text if there are fewer newlines.
pub open spec fn line_start_spec(bytes: Seq<u8>, line: int) -> int
    decreases bytes.len(),
{
    if line <= 1 {
        0
    } else if bytes.len() > 0 && newline_count(bytes.drop_last()) >= line - 1 {
        line_start_spec(bytes.drop_last(), line)
    } else {
        bytes.len() as int
    }
}

proof fn lemma_newline_count_take(bytes: Seq<u8>, i: int)
    requires
        0 <= i < bytes.len(),
    ensures
        newline_count(bytes.take(i + 1)) == newline_count(bytes.take(i)) + if bytes[i] == 10u8 {
            1nat
        } else {
            0nat
        },
        newline_count(bytes.take(i)) <= i,
{
    assert(bytes.take(i + 1).drop_last() =~= bytes.take(i));
    lemma_newline_count_le_len(bytes.take(i));
}

proof fn lemma_newline_count_le_len(bytes: Seq<u8>)
    ensures
        newline_count(bytes) <= bytes.len(),
    decreases bytes.len(),
{
    if bytes.len() > 0 {
        lemma_newline_count_le_len(bytes.drop_last());
    }
}

/// Counting newlines over a longer prefix never gives fewer.
proof fn lemma_newline_count_monotone(bytes: Seq<u8>, i: int, j: int)
    requires
        0 <= i <= j <= bytes.len(),
    ensures
        newline_count(bytes.take(i)) <= newline_count(bytes.take(j)),
    decreases j - i,
{
    if i < j {
        lemma_newline_count_monotone(bytes, i, j - 1);
        lemma_newline_count_take(bytes, j - 1);
    }
}

/// When the `(line - 1)`-th newline is the byte at `i`, every prefix that
/// reaches past it has its `line` starting right after `i`.
proof fn lemma_line_start_found(bytes: Seq<u8>, line: int, i: int, n: int)
    requires
        line > 1,
        0 <= i < n <= bytes.len(),
        bytes[i] == 10u8,
        newline_count(bytes.take(i)) == line - 2,
    ensures
        line_start_spec(bytes.take(n), line) == i + 1,
    decreases n,
{
    lemma_newline_count_take(bytes, i);
    let t = bytes.take(n);
    if n == i + 1 {
        assert(t.drop_last() =~= bytes.take(i));
    } else {
        assert(t.drop_last() =~= bytes.take(n - 1));
        lemma_newline_count_monotone(bytes, i + 1, n - 1);
        lemma_line_start_found(bytes, line, i, n - 1);
    }
}

/// With fewer than `line - 1` newlines, `line` starts at the end of the text.
proof fn lemma_line_start_missing(bytes: Seq<u8>, line: int)
    requires
        line > 1,
        newline_count(bytes) < line - 1,
    ensures
        line_start_spec(bytes, line) == bytes.len(),
{
    if bytes.len() > 0 {
        assert(newline_count(bytes.drop_last()) <= newline_count(bytes));
    }
}

/// In valid UTF-8, the position right after an ASCII byte is a character
/// boundary.
proof fn lemma_boundary_after_ascii(bytes: Seq<u8>, i: int)
    requires
        valid_utf8(bytes),
        0 <= i < bytes.len(),
        bytes[i] < 0x80,
    ensures
        is_char_boundary(bytes, i + 1),
    decreases bytes.len(),
{
    let k = length_of_first_scalar(bytes);
    let rest = pop_first_scalar(bytes);
    assert(rest.len() == bytes.len() - k);
    if i < k {
        assert(i == 0);
        assert(k == 1);
        assert(is_char_boundary(rest, 0));
    } else {
        assert(rest[i - k] == bytes[i]);
        lemma_boundary_after_ascii(rest, i - k);
    }
}

/// In valid UTF-8, the end of the text is a character boundary.
proof fn lemma_boundary_at_end(bytes: Seq<u8>)
    requires
        valid_utf8(bytes),
    ensures
        is_char_boundary(bytes, bytes.len() as int),
    decreases bytes.len(),
{
    if bytes.len() > 0 {
        let rest = pop_first_scalar(bytes);
        assert(rest.len() == bytes.len() - length_of_first_scalar(bytes));
        lemma_boundary_at_end(rest);
    }
}

/// The 1-based logical line containing byte offset `byte` of `text`; `byte` is
/// clamped to the end of the text.
pub fn line_at_byte(text: &str, byte: usize) -> (line: usize)
    requires
        byte >= text.spec_bytes().len() || is_char_boundary(text.spec_bytes(), byte as int),
        text.spec_bytes().len() < usize::MAX,
    ensures
        line == line_at_byte_spec(text.spec_bytes(), byte as int),
{
    let bytes = text.as_bytes();
    let end = if byte < bytes.len() {
        byte
    } else {
        bytes.len()
    };
    let mut count: usize = 0;
    let mut i: usize = 0;
    while i < end
        invariant
            end <= bytes@.len(),
            bytes@.len() < usize::MAX,
            i <= end,
            count == newline_count(bytes@.take(i as int)),
            count <= i,
        decreases end - i,
    {
        proof {
            lemma_newline_count_take(bytes@, i as int);
        }
        if bytes[i] == 10u8 {
            count = count + 1;
        }
        i = i + 1;
    }
    count + 1
}

/// The byte offset at which 1-based `line` starts in `text`, or the end of the
/// text when it has fewer lines. The offset is always a character boundary.
pub fn line_start_byte_offset(text: &str, line: usize) -> (offset: usize)
    ensures
        offset == line_start_spec(text.spec_bytes(), line as int),
        is_char_boundary(text.spec_bytes(), offset as int),
{
    if line <= 1 {
        return 0;
    }
    let bytes = text.as_bytes();
    let ghost all = bytes@;
    let mut count: usize = 0;
    let mut i: usize = 0;
    while i < bytes.len()
        invariant
            all == bytes@,
            all == text.spec_bytes(),
            valid_utf8(all),
            line > 1,
            i <= all.len(),
            count == newline_count(all.take(i as int)),
            count < line - 1,
        decreases all.len() - i,
    {
        proof {
            lemma_newline_count_take(all, i as int);
        }
        if bytes[i] == 10u8 {
            count = count + 1;
            if count == line - 1 {
                proof {
                    lemma_line_start_found(all, line as int, i as int, all.len() as int);
                    assert(all.take(all.len() as int) =~= all);
                    lemma_boundary_after_ascii(all, i as int);
                }
                return i + 1;
            }
        }
        i = i + 1;
    }
    proof {
        assert(all.take(i as int) =~= all);
        lemma_line_start_missing(all, line as int);
        lemma_boundary_at_end(all);
    }
    bytes.len()
}

/// Reading the line of the offset at which `line` starts gives `line` back,
/// for every line the text has.
pub proof fn law_line_start_round_trips(bytes: Seq<u8>, line: int)
    requires
        1 <= line <= newline_count(bytes) + 1,
    ensures
        line_at_byte_spec(bytes, line_start_spec(bytes, line)) == line,
{
    if line == 1 {
        assert(bytes.take(0) =~= Seq::<u8>::empty());
    } else {
        let i = lemma_find_newline(bytes, line - 2);
        lemma_line_start_found(bytes, line, i, bytes.len() as int);
        assert(bytes.take(bytes.len() as int) =~= bytes);
        lemma_newline_count_take(bytes, i);
    }
}

/// The position of the newline that comes after exactly `k` others.
proof fn lemma_find_newline(bytes: Seq<u8>, k: int) -> (i: int)
    requires
        0 <= k < newline_count(bytes),
    ensures
        0 <= i < bytes.len(),
        bytes[i] == 10u8,
        newline_count(bytes.take(i)) == k,
    decreases bytes.len(),
{
    let d = bytes.drop_last();
    if newline_count(d) > k {
        let i = lemma_find_newline(d, k);
        assert(d.take(i) =~= bytes.take(i));
        i
    } else {
        assert(bytes.take(bytes.len() - 1) =~= d);
        (bytes.len() - 1) as int
    }
}

#[verifier::external_type_specification]
#[verifier::external_body]
pub struct ExUuid(uuid::Uuid);

/// A bookmark with the document it lies in resolved.
pub struct ResolvedBookmark {
    pub id: uuid::Uuid,
    pub path: DocPath,
    /// The 1-based line the bookmark marks.
    pub line: usize,
    /// The stem of the bookmarked document's file name, or `None` for a
    /// dangling bookmark whose document no longer exists.
    pub document_stem: Option<String>,
}

/// The position `(path, line)` that orders bookmarks.
pub open spec fn bookmark_key(b: ResolvedBookmark) -> (PathView, int) {
    (b.path@, b.line as int)
}

/// The keys of a list of bookmarks.
pub open spec fn bookmark_keys(s: Seq<ResolvedBookmark>) -> Seq<(PathView, int)> {
    s.map_values(|b: ResolvedBookmark| bookmark_key(b))
}

/// The order on positions: by path first, then by line.
pub open spec fn key_lt(a: (PathView, int), b: (PathView, int)) -> bool {
    path_lt(a.0, b.0) || (a.0 == b.0 && a.1 < b.1)
}

/// The first index whose key is after `c`, or -1 if none is.
pub open spec fn first_after(keys: Seq<(PathView, int)>, c: (PathView, int)) -> int
    decreases keys.len(),
{
    if keys.len() == 0 {
        -1
    } else if key_lt(c, keys[0]) {
        0
    } else {
        let r = first_after(keys.drop_first(), c);
        if r < 0 {
            -1
        } else {
            r + 1
        }
    }
}

/// The last index whose key is before `c`, or -1 if none is.
pub open spec fn last_before(keys: Seq<(PathView, int)>, c: (PathView, int)) -> int
    decreases keys.len(),
{
    if keys.len() == 0 {
        -1
    } else if key_lt(keys.last(), c) {
        keys.len() - 1
    } else {
        last_before(keys.drop_last(), c)
    }
}

/// Which index stepping forward (or backward) from `current` lands on: the
/// first bookmark after `current` (the last one before it), wrapping to the
/// first (last) bookmark when there is none, or when there is no `current`.
pub open spec fn step_index_spec(
    keys: Seq<(PathView, int)>,
    current: Option<(PathView, int)>,
    forward: bool,
) -> int {
    let found = match current {
        Some(c) => if forward {
            first_after(keys, c)
        } else {
            last_before(keys, c)
        },
        None => -1,
    };
    if found >= 0 {
        found
    } else if forward {
        0
    } else {
        keys.len() - 1
    }
}

proof fn lemma_step_index_in_range(
    keys: Seq<(PathView, int)>,
    current: Option<(PathView, int)>,
    forward: bool,
)
    requires
        keys.len() > 0,
    ensures
        0 <= step_index_spec(keys, current, forward) < keys.len(),
{
    if let Some(c) = current {
        lemma_first_after_range(keys, c);
        lemma_last_before_range(keys, c);
    }
}

proof fn lemma_first_after_range(keys: Seq<(PathView, int)>, c: (PathView, int))
    ensures
        -1 <= first_after(keys, c) < keys.len(),
    decreases keys.len(),
{
    if keys.len() > 0 {
        lemma_first_after_range(keys.drop_first(), c);
    }
}

proof fn lemma_last_before_range(keys: Seq<(PathView, int)>, c: (PathView, int))
    ensures
        -1 <= last_before(keys, c) < keys.len(),
    decreases keys.len(),
{
    if keys.len() > 0 {
        lemma_last_before_range(keys.drop_last(), c);
    }
}

proof fn lemma_first_after(keys: Seq<(PathView, int)>, c: (PathView, int), i: int)
    requires
        0 <= i <= keys.len(),
        forall|j: int| 0 <= j < i ==> !key_lt(c, #[trigger] keys[j]),
    ensures
        first_after(keys, c) == (if first_after(keys.skip(i), c) < 0 {
            -1
        } else {
            first_after(keys.skip(i), c) + i
        }),
    decreases i,
{
    if i == 0 {
        assert(keys.skip(0) =~= keys);
    } else {
        lemma_first_after(keys.drop_first(), c, i - 1);
        assert(keys.drop_first().skip(i - 1) =~= keys.skip(i));
        assert(keys[0] == keys[0]);
    }
}

proof fn lemma_last_before(keys: Seq<(PathView, int)>, c: (PathView, int), n: int)
    requires
        0 <= n <= keys.len(),
        forall|j: int| n <= j < keys.len() ==> !key_lt(#[trigger] keys[j], c),
    ensures
        last_before(keys, c) == last_before(keys.take(n), c),
    decreases keys.len() - n,
{
    if n == keys.len() {
        assert(keys.take(n) =~= keys);
    } else {
        let d = keys.drop_last();
        lemma_last_before(d, c, n);
        assert(d.take(n) =~= keys.take(n));
    }
}

/// Whether position `(p, l)` comes after position `(q, m)`.
fn key_after(p: &DocPath, l: usize, q: &DocPath, m: usize) -> (after: bool)
    ensures
        after == key_lt((q@, m as int), (p@, l as int)),
{
    q.less_than(p) || (q.same_as(p) && m < l)
}

/// Which index into `bookmarks` stepping forward (or backward) from `current`
/// (the open document and cursor line, if any) lands on, wrapping around at
/// either end (see `step_index_spec`).
pub fn step_bookmark_index(
    bookmarks: &Vec<ResolvedBookmark>,
    current: Option<(&DocPath, usize)>,
    forward: bool,
) -> (index: usize)
    requires
        bookmarks@.len() > 0,
    ensures
        index == step_index_spec(
            bookmark_keys(bookmarks@),
            match current {
                Some((p, l)) => Some((p@, l as int)),
                None => None,
            },
            forward,
        ),
{
    let ghost keys = bookmark_keys(bookmarks@);
    let n = bookmarks.len();
    match current {
        None => {
            if forward {
                0
            } else {
                n - 1
            }
        },
        Some((path, line)) => {
            let ghost c = (path@, line as int);
            if forward {
                let mut i: usize = 0;
                while i < n
                    invariant
                        n == bookmarks@.len(),
                        keys == bookmark_keys(bookmarks@),
                        c == (path@, line as int),
                        i <= n,
                        forward,
                        current == Some((path, line)),
                        forall|j: int| 0 <= j < i ==> !key_lt(c, #[trigger] keys[j]),
                    decreases n - i,
                {
                    proof {
                        assert(keys[i as int] == bookmark_key(bookmarks@[i as int]));
                    }
                    if key_after(&bookmarks[i].path, bookmarks[i].line, path, line) {
                        proof {
                            lemma_first_after(keys, c, i as int);
                            assert(keys[i as int] == bookmark_key(bookmarks@[i as int]));
                            assert(keys.skip(i as int)[0] == keys[i as int]);
                            assert(first_after(keys.skip(i as int), c) == 0);
                            assert(first_after(keys, c) == i);
                            assert(step_index_spec(keys, Some(c), forward) == i);
                        }
                        return i;
                    }
                    i = i + 1;
                }
                proof {
                    lemma_first_after(keys, c, n as int);
                    assert(keys.skip(n as int).len() == 0);
                }
                0
            } else {
                let mut i: usize = n;
                while i > 0
                    invariant
                        n == bookmarks@.len(),
                        keys == bookmark_keys(bookmarks@),
                        c == (path@, line as int),
                        i <= n,
                        !forward,
                        current == Some((path, line)),
                        forall|j: int| i <= j < n ==> !key_lt(#[trigger] keys[j], c),
                    decreases i,
                {
                    proof {
                        assert(keys[i - 1] == bookmark_key(bookmarks@[i - 1]));
                    }
                    if key_after(path, line, &bookmarks[i - 1].path, bookmarks[i - 1].line) {
                        proof {
                            lemma_last_before(keys, c, i as int);
                            assert(keys[i - 1] == bookmark_key(bookmarks@[i - 1]));
                            assert(keys.take(i as int).last() == keys[i - 1]);
                            assert(last_before(keys.take(i as int), c) == i - 1);
                            assert(last_before(keys, c) == i - 1);
                            assert(step_index_spec(keys, Some(c), forward) == i - 1);
                        }
                        return i - 1;
                    }
                    i = i - 1;
                }
                proof {
                    lemma_last_before(keys, c, 0);
                }
                n - 1
            }
        },
    }
}

/// The bookmarks that still resolve to a document, in order.
pub open spec fn linked(s: Seq<ResolvedBookmark>) -> Seq<ResolvedBookmark>
    decreases s.len(),
{
    if s.len() == 0 {
        Seq::empty()
    } else if s.last().document_stem is Some {
        linked(s.drop_last()).push(s.last())
    } else {
        linked(s.drop_last())
    }
}

/// Where "next bookmark" (`forward`) or "previous bookmark" jumps: the
/// document and line of the bookmark that `step_bookmark_index` picks among
/// the bookmarks that still resolve to a document, stepping from the open
/// document at the line of its cursor. `None` when no bookmark resolves.
pub fn step_bookmark_target(
    bookmarks: &Vec<ResolvedBookmark>,
    open: Option<(&DocPath, &str, usize)>,
    forward: bool,
) -> (target: Option<(DocPath, usize)>)
    requires
        open matches Some((p, text, cursor)) ==> (cursor >= text.spec_bytes().len()
            || is_char_boundary(text.spec_bytes(), cursor as int)) && text.spec_bytes().len()
            < usize::MAX,
    ensures
        target is None <==> linked(bookmarks@).len() == 0,
        target matches Some((p, l)) ==> {
            let keys = bookmark_keys(linked(bookmarks@));
            let current = match open {
                Some((q, text, cursor)) => Some(
                    (q@, line_at_byte_spec(text.spec_bytes(), cursor as int) as int),
                ),
                None => None,
            };
            (p@, l as int) == keys[step_index_spec(keys, current, forward)]
        },
{
    let mut resolved: Vec<ResolvedBookmark> = Vec::new();
    let mut i: usize = 0;
    while i < bookmarks.len()
        invariant
            i <= bookmarks@.len(),
            bookmark_keys(resolved@) == bookmark_keys(linked(bookmarks@.take(i as int))),
            resolved@.len() == linked(bookmarks@.take(i as int)).len(),
        decreases bookmarks@.len() - i,
    {
        let ghost before = resolved@;
        assert(bookmarks@.take(i + 1).drop_last() =~= bookmarks@.take(i as int));
        let b = &bookmarks[i];
        if b.document_stem.is_some() {
            let stem = match &b.document_stem {
                Some(s) => Some(s.clone()),
                None => None,
            };
            resolved.push(
                ResolvedBookmark { id: b.id, path: b.path.duplicate(), line: b.line, document_stem: stem },
            );
            assert(bookmark_keys(resolved@) =~= bookmark_keys(before).push(bookmark_key(bookmarks@[i as int])));
            assert(bookmark_keys(linked(bookmarks@.take(i + 1))) =~= bookmark_keys(linked(bookmarks@.take(i as int))).push(bookmark_key(bookmarks@[i as int])));
        }
        i = i + 1;
    }
    assert(bookmarks@.take(i as int) =~= bookmarks@);
    if resolved.len() == 0 {
        return None;
    }
    let current = match open {
        Some((path, text, cursor)) => Some((path, line_at_byte(text, cursor))),
        None => None,
    };
    let index = step_bookmark_index(&resolved, current, forward);
    proof {
        let ghost cur = match current {
            Some((p, l)) => Some((p@, l as int)),
            None => None,
        };
        lemma_step_index_in_range(bookmark_keys(resolved@), cur, forward);
        assert(bookmark_keys(resolved@)[index as int] == bookmark_key(resolved@[index as int]));
    }
    Some((resolved[index].path.duplicate(), resolved[index].line))
}

} // verus!
