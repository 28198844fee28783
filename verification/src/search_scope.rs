//! Which documents a find/replace covers.

use vstd::prelude::*;

use crate::doc_path::{parent_spec, DocPath};
use crate::path_map::PathView;

verus! {

/// The extent of a find/replace.
#[derive(Debug, Clone, Copy, PartialEq, Eq, Structural)]
pub enum SearchScope {
    CurrentFile,
    CurrentDirectory,
    ModifiedFiles,
    AllFiles,
}

/// The paths of `paths` whose directory is `dir`, in order.
pub open spec fn children_of(paths: Seq<PathView>, dir: PathView) -> Seq<PathView>
    decreases paths.len(),
{
    if paths.len() == 0 {
        Seq::empty()
    } else if parent_spec(paths.last()) == Some(dir) {
        children_of(paths.drop_last(), dir).push(paths.last())
    } else {
        children_of(paths.drop_last(), dir)
    }
}

/// The views of a list of paths.
pub open spec fn views(paths: Seq<DocPath>) -> Seq<PathView> {
    paths.map_values(|p: DocPath| p@)
}

/// The documents `scope` covers: nothing without an open project; the open
/// document; the documents in the open document's directory; the documents
/// with unsaved changes; or every document of the project.
pub open spec fn scope_spec(
    scope: SearchScope,
    project_open: bool,
    open_path: Option<PathView>,
    document_paths: Seq<PathView>,
    modified_paths: Seq<PathView>,
) -> Seq<PathView> {
    if !project_open {
        Seq::empty()
    } else {
        match scope {
            SearchScope::CurrentFile => match open_path {
                Some(p) => seq![p],
                None => Seq::empty(),
            },
            SearchScope::CurrentDirectory => match open_path {
                Some(p) => match parent_spec(p) {
                    Some(dir) => children_of(document_paths, dir),
                    None => Seq::empty(),
                },
                None => Seq::empty(),
            },
            SearchScope::ModifiedFiles => modified_paths,
            SearchScope::AllFiles => document_paths,
        }
    }
}

/// A copy of a list of paths.
fn copy_paths(paths: &Vec<DocPath>) -> (copy: Vec<DocPath>)
    ensures
        views(copy@) == views(paths@),
{
    let mut copy: Vec<DocPath> = Vec::new();
    let mut i: usize = 0;
    while i < paths.len()
        invariant
            i <= paths@.len(),
            views(copy@) == views(paths@.take(i as int)),
        decreases paths@.len() - i,
    {
        let ghost before = views(copy@);
        copy.push(paths[i].duplicate());
        assert(views(copy@) =~= before.push(paths@[i as int]@));
        assert(views(paths@.take(i + 1)) =~= views(paths@.take(i as int)).push(paths@[i as int]@));
        i = i + 1;
    }
    assert(paths@.take(i as int) =~= paths@);
    copy
}

/// The documents a find/replace with `scope` covers right now (see
/// `scope_spec`), given the project's documents and the ones with unsaved
/// changes.
pub fn search_scope_paths(
    scope: SearchScope,
    project_open: bool,
    open_path: Option<&DocPath>,
    document_paths: &Vec<DocPath>,
    modified_paths: &Vec<DocPath>,
) -> (paths: Vec<DocPath>)
    ensures
        views(paths@) == scope_spec(
            scope,
            project_open,
            match open_path {
                Some(p) => Some(p@),
                None => None,
            },
            views(document_paths@),
            views(modified_paths@),
        ),
{
    if !project_open {
        let empty: Vec<DocPath> = Vec::new();
        assert(views(empty@) =~= Seq::<PathView>::empty());
        return empty;
    }
    match scope {
        SearchScope::CurrentFile => {
            let mut one: Vec<DocPath> = Vec::new();
            if let Some(p) = open_path {
                one.push(p.duplicate());
                assert(views(one@) =~= seq![p@]);
            } else {
                assert(views(one@) =~= Seq::<PathView>::empty());
            }
            one
        },
        SearchScope::CurrentDirectory => {
            let dir = match open_path {
                Some(p) => p.parent(),
                None => None,
            };
            let mut inside: Vec<DocPath> = Vec::new();
            let dir = match dir {
                Some(d) => d,
                None => {
                    assert(views(inside@) =~= Seq::<PathView>::empty());
                    return inside;
                },
            };
            let ghost all = views(document_paths@);
            let mut i: usize = 0;
            while i < document_paths.len()
                invariant
                    i <= document_paths@.len(),
                    all == views(document_paths@),
                    views(inside@) == children_of(all.take(i as int), dir@),
                decreases document_paths@.len() - i,
            {
                let ghost before = views(inside@);
                assert(all.take(i + 1).drop_last() =~= all.take(i as int));
                assert(all.take(i + 1).last() == document_paths@[i as int]@);
                let is_child = match document_paths[i].parent() {
                    Some(parent) => parent.same_as(&dir),
                    None => false,
                };
                if is_child {
                    inside.push(document_paths[i].duplicate());
                    assert(views(inside@) =~= before.push(document_paths@[i as int]@));
                }
                i = i + 1;
            }
            assert(all.take(i as int) =~= all);
            inside
        },
        SearchScope::ModifiedFiles => copy_paths(modified_paths),
        SearchScope::AllFiles => copy_paths(document_paths),
    }
}

/// What `children_of` keeps: exactly the paths whose parent directory is
/// `dir`.
proof fn lemma_children_of(paths: Seq<PathView>, dir: PathView)
    ensures
        forall|i: int|
            0 <= i < children_of(paths, dir).len() ==> parent_spec(
                #[trigger] children_of(paths, dir)[i],
            ) == Some(dir) && paths.contains(children_of(paths, dir)[i]),
        forall|q: PathView|
            #[trigger] paths.contains(q) && parent_spec(q) == Some(dir) ==> children_of(
                paths,
                dir,
            ).contains(q),
    decreases paths.len(),
{
    if paths.len() > 0 {
        let d = paths.drop_last();
        lemma_children_of(d, dir);
        let c = children_of(paths, dir);
        let cd = children_of(d, dir);
        assert forall|i: int| 0 <= i < c.len() implies parent_spec(#[trigger] c[i]) == Some(dir)
            && paths.contains(c[i]) by {
            if i < cd.len() {
                assert(c[i] == cd[i]);
                let j = choose|j: int| 0 <= j < d.len() && d[j] == cd[i];
                assert(paths[j] == d[j]);
            } else {
                assert(c[i] == paths.last());
                assert(paths[paths.len() - 1] == paths.last());
            }
        }
        assert forall|q: PathView| #[trigger]
            paths.contains(q) && parent_spec(q) == Some(dir) implies c.contains(q) by {
            let j = choose|j: int| 0 <= j < paths.len() && paths[j] == q;
            if j < paths.len() - 1 {
                assert(d[j] == q);
                assert(d.contains(q));
                let k = choose|k: int| 0 <= k < cd.len() && cd[k] == q;
                assert(c[k] == cd[k]);
            } else {
                assert(c[c.len() - 1] == q);
            }
        }
    }
}

/// What each scope covers, stated by what the returned documents are:
/// nothing without a project; the open document alone; the project's
/// documents whose own parent directory is the open document's directory
/// (so a document in a subfolder of it is never included); the documents with
/// unsaved changes; or every document.
pub proof fn law_scope_covers_the_right_documents(
    scope: SearchScope,
    project_open: bool,
    open_path: Option<PathView>,
    document_paths: Seq<PathView>,
    modified_paths: Seq<PathView>,
    q: PathView,
)
    ensures
        !project_open ==> scope_spec(scope, project_open, open_path, document_paths, modified_paths).len() == 0,
        project_open && scope == SearchScope::CurrentFile ==> scope_spec(
            scope,
            project_open,
            open_path,
            document_paths,
            modified_paths,
        ) == (match open_path {
            Some(o) => seq![o],
            None => Seq::<PathView>::empty(),
        }),
        project_open && scope == SearchScope::ModifiedFiles ==> scope_spec(
            scope,
            project_open,
            open_path,
            document_paths,
            modified_paths,
        ) == modified_paths,
        project_open && scope == SearchScope::AllFiles ==> scope_spec(
            scope,
            project_open,
            open_path,
            document_paths,
            modified_paths,
        ) == document_paths,
        project_open && scope == SearchScope::CurrentDirectory ==> {
            let r = scope_spec(scope, project_open, open_path, document_paths, modified_paths);
            &&& forall|i: int|
                0 <= i < r.len() ==> (open_path matches Some(o) && parent_spec(#[trigger] r[i])
                    == parent_spec(o) && parent_spec(o) is Some && document_paths.contains(r[i]))
            &&& (open_path matches Some(o) && parent_spec(o) is Some && document_paths.contains(q)
                && parent_spec(q) == parent_spec(o)) ==> r.contains(q)
        },
{
    if project_open && scope == SearchScope::CurrentDirectory {
        match open_path {
            Some(o) => match parent_spec(o) {
                Some(dir) => {
                    lemma_children_of(document_paths, dir);
                },
                None => {},
            },
            None => {},
        }
    }
}

} // verus!
