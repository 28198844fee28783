//! What follows a binder operation (create, delete, rename, empty Trash) for
//! the rest of the editor's state: which folder a new item goes into, and
//! whether the open document, the selection and the folder being edited in
//! the metadata panel are affected.

use vstd::prelude::*;
use vstd::string::StringExecFns;

use crate::doc_path::{is_prefix_of, parent_spec, DocPath};
use crate::path_map::PathView;

verus! {

/// The folder a new file or folder goes into: the selected document's parent
/// folder, or the project root when nothing is selected (or the selection
/// has no parent).
pub open spec fn new_item_parent_spec(root: PathView, selected: Option<PathView>) -> PathView {
    match selected {
        Some(s) => match parent_spec(s) {
            Some(p) => p,
            None => root,
        },
        None => root,
    }
}

/// The folder a new file or folder created from the keyboard goes into (see
/// `new_item_parent_spec`).
pub fn new_item_parent(root: &DocPath, selected: Option<&DocPath>) -> (parent: DocPath)
    ensures
        parent@ == new_item_parent_spec(root@, opt_view(selected)),
{
    match selected {
        Some(s) => match s.parent() {
            Some(p) => p,
            None => root.duplicate(),
        },
        None => root.duplicate(),
    }
}

/// The view of an optional path.
pub open spec fn opt_view(p: Option<&DocPath>) -> Option<PathView> {
    match p {
        Some(d) => Some(d@),
        None => None,
    }
}

/// Whether `p` is `removed` or lies inside it (compared component by
/// component, so `Drafts2` is not inside `Drafts`).
pub open spec fn inside_spec(removed: PathView, p: Option<PathView>) -> bool {
    match p {
        Some(q) => is_prefix_of(removed, q),
        None => false,
    }
}

/// What deleting (or emptying into oblivion) `removed` means for the rest of
/// the state.
#[derive(Debug, Clone, Copy, PartialEq, Eq, Structural)]
pub struct RemovalFollowUp {
    /// The selected document was removed: close it and clear the selection.
    pub close_editor: bool,
    /// The folder shown in the metadata panel was removed: go back to
    /// editing the document's metadata.
    pub reset_folder_target: bool,
}

/// Which parts of the state a deletion of `removed` touches, given the
/// selected document and the folder the metadata panel edits (if any).
pub fn removal_follow_up(
    removed: &DocPath,
    selected: Option<&DocPath>,
    folder_target: Option<&DocPath>,
) -> (f: RemovalFollowUp)
    ensures
        f.close_editor == inside_spec(removed@, opt_view(selected)),
        f.reset_folder_target == inside_spec(removed@, opt_view(folder_target)),
{
    let close_editor = match selected {
        Some(s) => s.starts_with(removed),
        None => false,
    };
    let reset_folder_target = match folder_target {
        Some(t) => t.starts_with(removed),
        None => false,
    };
    RemovalFollowUp { close_editor, reset_folder_target }
}

/// What to do about the open document after a rename.
#[derive(Debug, Clone, Copy, PartialEq, Eq, Structural)]
pub enum AfterRename {
    /// The renamed item was the selected document: reopen it under its new
    /// name (the same document, so its history entry follows it).
    ReopenRenamed,
    /// Another document is open and clean: reload it, since the rename may
    /// have rewritten a wikilink in it on disk.
    ReloadOpen,
    /// Leave the editor alone (nothing open, or unsaved edits that a reload
    /// would clobber).
    Nothing,
}

/// What the editor does after renaming `old` (see `AfterRename`), given the
/// selection, whether a document is open, and whether it is dirty.
pub open spec fn after_rename_spec(
    old: PathView,
    selected: Option<PathView>,
    document_open: bool,
    dirty: bool,
) -> AfterRename {
    if selected == Some(old) {
        AfterRename::ReopenRenamed
    } else if !dirty && document_open {
        AfterRename::ReloadOpen
    } else {
        AfterRename::Nothing
    }
}

/// What the editor does after renaming `old` (see `after_rename_spec`), and
/// whether the metadata panel, if it edits the renamed folder, must follow it
/// to its new name.
pub fn rename_follow_up(
    old: &DocPath,
    selected: Option<&DocPath>,
    document_open: bool,
    dirty: bool,
    folder_target: Option<&DocPath>,
) -> (f: (AfterRename, bool))
    ensures
        f.0 == after_rename_spec(old@, opt_view(selected), document_open, dirty),
        f.1 == (opt_view(folder_target) == Some(old@)),
{
    let selected_is_old = match selected {
        Some(s) => s.same_as(old),
        None => false,
    };
    let after = if selected_is_old {
        AfterRename::ReopenRenamed
    } else if !dirty && document_open {
        AfterRename::ReloadOpen
    } else {
        AfterRename::Nothing
    };
    let retarget = match folder_target {
        Some(t) => t.same_as(old),
        None => false,
    };
    (after, retarget)
}

/// Whether the open document must be saved before `target` is renamed: it
/// is the one being renamed and has unsaved edits (saving afterwards would
/// write to the old, vanished path).
pub fn save_before_rename(open_path: Option<&DocPath>, target: &DocPath, dirty: bool) -> (save: bool)
    ensures
        save == (opt_view(open_path) == Some(target@) && dirty),
{
    match open_path {
        Some(p) => p.same_as(target) && dirty,
        None => false,
    }
}

/// The confirmation asked before deleting the item shown as `shown`: its
/// title and question, worded for a move into Trash or for a removal that
/// cannot be undone.
pub fn delete_confirmation(to_trash: bool, shown: &str) -> (texts: (&'static str, String))
    ensures
        texts.0@ == (if to_trash {
            "Move to Trash"@
        } else {
            "Delete"@
        }),
        texts.1@ == (if to_trash {
            "Move \""@ + shown@ + "\" to Trash?"@
        } else {
            "Delete \""@ + shown@ + "\"? This cannot be undone."@
        }),
{
    if to_trash {
        let mut question = "Move \"".to_owned();
        question.append(shown);
        question.append("\" to Trash?");
        ("Move to Trash", question)
    } else {
        let mut question = "Delete \"".to_owned();
        question.append(shown);
        question.append("\"? This cannot be undone.");
        ("Delete", question)
    }
}

/// A removal touches the removed item itself and, through nested folders,
/// everything inside it; with nothing selected it touches nothing.
pub proof fn law_removal_closes_exactly_what_was_inside(removed: PathView, p: PathView, q: PathView)
    ensures
        inside_spec(removed, Some(removed)),
        inside_spec(removed, Some(p)) && inside_spec(p, Some(q)) ==> inside_spec(removed, Some(q)),
        !inside_spec(removed, None),
{
    if is_prefix_of(removed, p) && is_prefix_of(p, q) {
        assert(q.take(removed.len() as int) =~= p.take(removed.len() as int));
    }
    assert(removed.take(removed.len() as int) =~= removed);
}

} // verus!
