use smaragd::binder_ops::{
    delete_confirmation, new_item_parent, removal_follow_up, rename_follow_up, save_before_rename,
    AfterRename, RemovalFollowUp,
};
use smaragd::doc_path::DocPath;

#[test]
fn new_items_go_next_to_the_selection_or_into_the_root() {
    let root = DocPath::new("/novel");
    let selected = DocPath::new("/novel/Part One/Scene.md");
    assert_eq!(new_item_parent(&root, Some(&selected)), DocPath::new("/novel/Part One"));
    assert_eq!(new_item_parent(&root, None), root);
}

#[test]
fn deleting_a_folder_closes_the_document_inside_it() {
    let folder = DocPath::new("/novel/Drafts");
    let inside = DocPath::new("/novel/Drafts/Scene.md");
    let beside = DocPath::new("/novel/Drafts2/Scene.md");
    assert_eq!(
        removal_follow_up(&folder, Some(&inside), Some(&folder)),
        RemovalFollowUp { close_editor: true, reset_folder_target: true }
    );
    assert_eq!(
        removal_follow_up(&folder, Some(&beside), None),
        RemovalFollowUp { close_editor: false, reset_folder_target: false }
    );
    assert_eq!(
        removal_follow_up(&inside, Some(&inside), Some(&folder)),
        RemovalFollowUp { close_editor: true, reset_folder_target: false }
    );
}

#[test]
fn renaming_the_selected_document_reopens_it_under_its_new_name() {
    let old = DocPath::new("/novel/Scene.md");
    let other = DocPath::new("/novel/Other.md");
    assert_eq!(rename_follow_up(&old, Some(&old), true, true, None), (AfterRename::ReopenRenamed, false));
    assert_eq!(rename_follow_up(&old, Some(&other), true, false, None), (AfterRename::ReloadOpen, false));
    assert_eq!(rename_follow_up(&old, Some(&other), true, true, None), (AfterRename::Nothing, false));
    assert_eq!(rename_follow_up(&old, None, false, false, Some(&old)), (AfterRename::Nothing, true));
}

#[test]
fn a_dirty_document_is_saved_before_it_is_renamed() {
    let doc = DocPath::new("/novel/Scene.md");
    let other = DocPath::new("/novel/Other.md");
    assert!(save_before_rename(Some(&doc), &doc, true));
    assert!(!save_before_rename(Some(&doc), &doc, false));
    assert!(!save_before_rename(Some(&other), &doc, true));
    assert!(!save_before_rename(None, &doc, true));
}

#[test]
fn delete_confirmations_say_whether_it_can_be_undone() {
    assert_eq!(
        delete_confirmation(true, "/novel/Scene.md"),
        ("Move to Trash", "Move \"/novel/Scene.md\" to Trash?".to_string())
    );
    assert_eq!(
        delete_confirmation(false, "/novel/Scene.md"),
        ("Delete", "Delete \"/novel/Scene.md\"? This cannot be undone.".to_string())
    );
}
