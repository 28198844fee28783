//! What a `:` command-prompt command does, decided from the command and the
//! state it depends on, before any of it is carried out.

use vstd::prelude::*;
use vstd::string::StringExecFns;

use crate::binder_ops::{new_item_parent, new_item_parent_spec, opt_view};
use crate::doc_path::{parent_spec, DocPath};

verus! {

/// The light/dark appearance the user picked.
#[derive(Debug, Clone, Copy, PartialEq, Eq, Structural)]
pub enum ThemeChoice {
    Dark,
    Light,
    System,
}

/// A git subcommand of the command prompt.
#[derive(Debug, Clone, PartialEq, Eq)]
pub enum GitCommand {
    Enable,
    Commit(Option<String>),
    Push,
    Pull,
    /// Commit, then push.
    Backup(Option<String>),
}

/// A command parsed from the `:` command prompt.
#[derive(Debug, Clone, PartialEq, Eq)]
pub enum Command {
    Save,
    Quit,
    SaveAndQuit,
    /// Open the document whose file stem is this title.
    Open(String),
    /// Create a document with this title.
    New(String),
    DarkMode(ThemeChoice),
    /// Apply a color theme by id, or clear it.
    ColorTheme(Option<String>),
    Git(GitCommand),
    Find(String),
    Tag(String),
    /// A plugin command: its name and argument.
    Plugin(String, String),
}

/// What carrying out a command comes to.
#[derive(Debug, Clone, PartialEq, Eq)]
pub enum CommandAction {
    Save,
    Quit,
    /// Save, and quit only if the save succeeded.
    SaveThenQuit,
    /// Show this error toast and do nothing else.
    Error(String),
    /// Look up the document with this stem and open it.
    OpenByStem(String),
    /// Create a document with this title next to the selected one (or at the
    /// project root).
    CreateDocument(String),
    SetTheme(ThemeChoice),
    SetColorTheme(Option<String>),
    GitEnable,
    /// Commit with this message (or ask for one), pushing afterwards if
    /// `push_after`.
    GitCommit { message: Option<String>, push_after: bool },
    GitPush,
    GitPull,
    /// Open the find/replace panel, first setting its query if one is given.
    OpenFind { query: Option<String> },
    /// Set the tag search text if one is given, and open the Tags tab unless
    /// it is already open.
    ShowTags { search: Option<String>, open_tab: bool },
    RunPlugin { name: String, arg: String },
}

/// The error shown when a command needs an open project.
pub open spec fn no_project_message() -> Seq<char> {
    "No project open"@
}

/// The error shown when a git command is given with git integration off.
pub open spec fn git_disabled_message() -> Seq<char> {
    "Git integration is disabled — enable it in Settings > History"@
}

/// A non-empty text as `Some`, an empty one as `None`.
pub open spec fn given(text: String) -> Option<String> {
    if text@.len() == 0 {
        None
    } else {
        Some(text)
    }
}

/// What `command` does, given whether a project is open, whether git
/// integration is on, and whether the Tags tab is already open.
pub open spec fn command_action_spec(
    command: Command,
    project_open: bool,
    git_enabled: bool,
    tags_tab_open: bool,
) -> CommandAction {
    match command {
        Command::Save => CommandAction::Save,
        Command::Quit => CommandAction::Quit,
        Command::SaveAndQuit => CommandAction::SaveThenQuit,
        Command::Open(title) => if project_open {
            CommandAction::OpenByStem(title)
        } else {
            CommandAction::Error(arbitrary())
        },
        Command::New(title) => if project_open {
            CommandAction::CreateDocument(title)
        } else {
            CommandAction::Error(arbitrary())
        },
        Command::DarkMode(choice) => CommandAction::SetTheme(choice),
        Command::ColorTheme(id) => CommandAction::SetColorTheme(id),
        Command::Git(git) => if !git_enabled {
            CommandAction::Error(arbitrary())
        } else {
            match git {
                GitCommand::Enable => CommandAction::GitEnable,
                GitCommand::Commit(message) => CommandAction::GitCommit {
                    message,
                    push_after: false,
                },
                GitCommand::Push => CommandAction::GitPush,
                GitCommand::Pull => CommandAction::GitPull,
                GitCommand::Backup(message) => CommandAction::GitCommit { message, push_after: true },
            }
        },
        Command::Find(query) => CommandAction::OpenFind { query: given(query) },
        Command::Tag(query) => CommandAction::ShowTags { search: given(query), open_tab: !tags_tab_open },
        Command::Plugin(name, arg) => CommandAction::RunPlugin { name, arg },
    }
}

/// The message of an error action.
pub open spec fn error_text(a: CommandAction) -> Seq<char> {
    match a {
        CommandAction::Error(m) => m@,
        _ => Seq::empty(),
    }
}

/// Decides what a command-prompt command does (see `command_action_spec`):
/// opening or creating a document needs an open project, and every git
/// command needs git integration; otherwise the command is refused with an
/// error toast.
pub fn plan_command(command: Command, project_open: bool, git_enabled: bool, tags_tab_open: bool) -> (action: CommandAction)
    ensures
        !(action is Error) ==> action == command_action_spec(
            command,
            project_open,
            git_enabled,
            tags_tab_open,
        ),
        action is Error <==> command_action_spec(command, project_open, git_enabled, tags_tab_open) is Error,
        action is Error && command is Git ==> error_text(action) == git_disabled_message(),
        action is Error && !(command is Git) ==> error_text(action) == no_project_message(),
{
    match command {
        Command::Save => CommandAction::Save,
        Command::Quit => CommandAction::Quit,
        Command::SaveAndQuit => CommandAction::SaveThenQuit,
        Command::Open(title) => if project_open {
            CommandAction::OpenByStem(title)
        } else {
            CommandAction::Error("No project open".to_owned())
        },
        Command::New(title) => if project_open {
            CommandAction::CreateDocument(title)
        } else {
            CommandAction::Error("No project open".to_owned())
        },
        Command::DarkMode(choice) => CommandAction::SetTheme(choice),
        Command::ColorTheme(id) => CommandAction::SetColorTheme(id),
        Command::Git(git) => if !git_enabled {
            CommandAction::Error(
                "Git integration is disabled — enable it in Settings > History".to_owned(),
            )
        } else {
            match git {
                GitCommand::Enable => CommandAction::GitEnable,
                GitCommand::Commit(message) => CommandAction::GitCommit {
                    message,
                    push_after: false,
                },
                GitCommand::Push => CommandAction::GitPush,
                GitCommand::Pull => CommandAction::GitPull,
                GitCommand::Backup(message) => CommandAction::GitCommit { message, push_after: true },
            }
        },
        Command::Find(query) => {
            let query = if query.as_str().is_empty() {
                None
            } else {
                Some(query)
            };
            CommandAction::OpenFind { query }
        },
        Command::Tag(query) => {
            let search = if query.as_str().is_empty() {
                None
            } else {
                Some(query)
            };
            CommandAction::ShowTags { search, open_tab: !tags_tab_open }
        },
        Command::Plugin(name, arg) => CommandAction::RunPlugin { name, arg },
    }
}

/// A git action bound to a keyboard shortcut.
#[derive(Debug, Clone, Copy, PartialEq, Eq, Structural)]
pub enum GitShortcut {
    Commit,
    Push,
}

/// What a git keyboard shortcut does: with git integration off it does nothing
/// at all (no error toast, unlike the `:git` commands); otherwise Commit asks
/// for a message and commits without pushing, and Push pushes.
pub fn plan_git_shortcut(shortcut: GitShortcut, git_enabled: bool) -> (action: Option<CommandAction>)
    ensures
        !git_enabled ==> action is None,
        git_enabled ==> action == Some(
            match shortcut {
                GitShortcut::Commit => CommandAction::GitCommit { message: None, push_after: false },
                GitShortcut::Push => CommandAction::GitPush,
            },
        ),
{
    if !git_enabled {
        return None;
    }
    match shortcut {
        GitShortcut::Commit => Some(CommandAction::GitCommit { message: None, push_after: false }),
        GitShortcut::Push => Some(CommandAction::GitPush),
    }
}

/// Whether exiting now would lose something: the open document has unsaved
/// edits, or a card editor holds a draft that was neither saved nor
/// discarded.
pub fn has_unsaved_changes(editor_dirty: bool, card_draft_open: bool) -> (unsaved: bool)
    ensures
        unsaved == (editor_dirty || card_draft_open),
{
    editor_dirty || card_draft_open
}

/// The error shown when `:open` names no document: `No note found for
/// "title"`.
pub fn no_note_found_message(title: &str) -> (message: String)
    ensures
        message@ == "No note found for \""@ + title@ + "\""@,
{
    let mut message = "No note found for \"".to_owned();
    message.append(title);
    message.append("\"");
    message
}

/// The shortcut that toggles dark mode: from dark (or a system appearance that
/// is currently dark) to light, and from anything else to dark.
pub fn toggled_theme(current: ThemeChoice, system_is_dark: bool) -> (next: ThemeChoice)
    ensures
        next == (if (match current {
            ThemeChoice::Dark => true,
            ThemeChoice::Light => false,
            ThemeChoice::System => system_is_dark,
        }) {
            ThemeChoice::Light
        } else {
            ThemeChoice::Dark
        }),
{
    let is_dark = match current {
        ThemeChoice::Dark => true,
        ThemeChoice::Light => false,
        ThemeChoice::System => system_is_dark,
    };
    if is_dark {
        ThemeChoice::Light
    } else {
        ThemeChoice::Dark
    }
}

/// What activating a `[[wikilink]]` does.
#[derive(Debug, Clone, PartialEq, Eq)]
pub enum WikilinkAction {
    /// Open the document the link names.
    Open,
    /// Create the linked document in this folder, then open it.
    Create(DocPath),
    /// Show this error toast.
    Error(String),
}

/// The folder a missing link target is created in: that of the document the
/// link was activated from.
pub open spec fn link_folder(open_document: Option<&DocPath>) -> Option<Seq<Seq<char>>> {
    match open_document {
        Some(d) => parent_spec(d@),
        None => None,
    }
}

/// Decides what activating the wikilink `[[target]]` does, given whether a
/// project is open, whether a document with that file stem was found, whether
/// creating a missing one was asked for (Ctrl/Cmd held), and the document the
/// link was activated from: a missing target is created next to that
/// document.
pub fn plan_wikilink(
    target: &str,
    project_open: bool,
    found: bool,
    force_create: bool,
    open_document: Option<&DocPath>,
) -> (action: WikilinkAction)
    ensures
        !project_open ==> (action matches WikilinkAction::Error(m) && m@
            == "No project open — can't resolve [["@ + target@ + "]]"@),
        project_open && found ==> action is Open,
        project_open && !found && !force_create ==> (action matches WikilinkAction::Error(m) && m@
            == "No note found for [["@ + target@ + "]]"@),
        project_open && !found && force_create ==> (match link_folder(open_document) {
            Some(p) => (action matches WikilinkAction::Create(dir) && dir@ == p),
            None => (action matches WikilinkAction::Error(m) && m@ == "Couldn't create a note for [["@
                + target@ + "]]: no document is open"@),
        }),
{
    if !project_open {
        let mut m = "No project open — can't resolve [[".to_owned();
        m.append(target);
        m.append("]]");
        return WikilinkAction::Error(m);
    }
    if found {
        return WikilinkAction::Open;
    }
    if !force_create {
        let mut m = "No note found for [[".to_owned();
        m.append(target);
        m.append("]]");
        return WikilinkAction::Error(m);
    }
    let parent = match open_document {
        Some(d) => d.parent(),
        None => None,
    };
    match parent {
        Some(dir) => WikilinkAction::Create(dir),
        None => {
            let mut m = "Couldn't create a note for [[".to_owned();
            m.append(target);
            m.append("]]: no document is open");
            WikilinkAction::Error(m)
        },
    }
}

/// The refusal, if any, of turning Focus Mode on or off: it cannot be entered
/// with no document open (it hides everything else, so there would be
/// nothing to show); leaving it is always allowed.
pub fn focus_mode_refusal(enable: bool, document_open: bool) -> (refusal: Option<&'static str>)
    ensures
        refusal is Some <==> (enable && !document_open),
        refusal matches Some(m) ==> m@ == "Open a document before entering Focus Mode."@,
{
    if enable && !document_open {
        Some("Open a document before entering Focus Mode.")
    } else {
        None
    }
}

/// What the dark-mode shortcut does: the theme it switches to (see
/// `toggled_theme`), and whether an active color theme must be cleared. A
/// color theme is built for one base (dark or light) only, so leaving that
/// base drops it rather than leaving it claimed but not shown.
pub fn dark_mode_shortcut(current: ThemeChoice, system_is_dark: bool, color_theme_active: bool) -> (toggle: (
    ThemeChoice,
    bool,
))
    ensures
        toggle.0 == (if (match current {
            ThemeChoice::Dark => true,
            ThemeChoice::Light => false,
            ThemeChoice::System => system_is_dark,
        }) {
            ThemeChoice::Light
        } else {
            ThemeChoice::Dark
        }),
        toggle.1 == color_theme_active,
{
    (toggled_theme(current, system_is_dark), color_theme_active)
}

/// A keyboard shortcut whose effect depends on the open project and the
/// selected document.
#[derive(Debug, Clone, Copy, PartialEq, Eq, Structural)]
pub enum ContextShortcut {
    /// Ask for a document to open by name.
    OpenDocument,
    NewFile,
    NewFolder,
    Rename,
    Delete,
    /// Move the selected item out of Trash, back where it came from.
    Restore,
}

/// What a context-dependent shortcut does.
#[derive(Debug, Clone, PartialEq, Eq)]
pub enum ShortcutStep {
    /// Nothing (the binder item it would act on is not there).
    Nothing,
    /// Show this error toast.
    Error(String),
    /// Open the "open document by name" prompt.
    OpenDocumentPrompt,
    /// Ask for the name of a new file (or folder, if `folder`) in `parent`.
    NewItemPrompt { folder: bool, parent: DocPath },
    /// Ask for the new name of this item.
    Rename(DocPath),
    /// Confirm and delete this item.
    Delete(DocPath),
    /// Restore this item from Trash.
    Restore(DocPath),
}

/// Decides what a context-dependent shortcut does, given the open project's
/// root (if any), the selected document (if any) and whether the selection
/// lies in Trash with a known origin. Rename, Delete and Restore act on the
/// selection, as the binder's right-click menu would, and do nothing without
/// one (Restore also needs it to be trashed); New File/Folder go next to the
/// selection (or into the root) and need a project; Open Document without a
/// project says so.
pub fn plan_context_shortcut(
    shortcut: ContextShortcut,
    project_root: Option<&DocPath>,
    selected: Option<&DocPath>,
    selection_trashed: bool,
) -> (step: ShortcutStep)
    ensures
        shortcut == ContextShortcut::OpenDocument ==> (if project_root is Some {
            step is OpenDocumentPrompt
        } else {
            step matches ShortcutStep::Error(m) && m@ == "No project open"@
        }),
        (shortcut == ContextShortcut::NewFile || shortcut == ContextShortcut::NewFolder) ==> (
        match project_root {
            Some(root) => step matches ShortcutStep::NewItemPrompt { folder, parent } && folder == (
            shortcut == ContextShortcut::NewFolder) && parent@ == new_item_parent_spec(
                root@,
                opt_view(selected),
            ),
            None => step is Nothing,
        }),
        shortcut == ContextShortcut::Rename ==> (match selected {
            Some(s) => step matches ShortcutStep::Rename(p) && p@ == s@,
            None => step is Nothing,
        }),
        shortcut == ContextShortcut::Delete ==> (match selected {
            Some(s) => step matches ShortcutStep::Delete(p) && p@ == s@,
            None => step is Nothing,
        }),
        shortcut == ContextShortcut::Restore ==> (match selected {
            Some(s) => if selection_trashed {
                step matches ShortcutStep::Restore(p) && p@ == s@
            } else {
                step is Nothing
            },
            None => step is Nothing,
        }),
{
    match shortcut {
        ContextShortcut::OpenDocument => match project_root {
            Some(_) => ShortcutStep::OpenDocumentPrompt,
            None => ShortcutStep::Error("No project open".to_owned()),
        },
        ContextShortcut::NewFile | ContextShortcut::NewFolder => match project_root {
            Some(root) => ShortcutStep::NewItemPrompt {
                folder: match shortcut {
                    ContextShortcut::NewFolder => true,
                    _ => false,
                },
                parent: new_item_parent(root, selected),
            },
            None => ShortcutStep::Nothing,
        },
        ContextShortcut::Rename => match selected {
            Some(s) => ShortcutStep::Rename(s.duplicate()),
            None => ShortcutStep::Nothing,
        },
        ContextShortcut::Delete => match selected {
            Some(s) => ShortcutStep::Delete(s.duplicate()),
            None => ShortcutStep::Nothing,
        },
        ContextShortcut::Restore => match selected {
            Some(s) => if selection_trashed {
                ShortcutStep::Restore(s.duplicate())
            } else {
                ShortcutStep::Nothing
            },
            None => ShortcutStep::Nothing,
        },
    }
}

/// Whether a request to close the window is vetoed, so that the
/// Save/Discard/Cancel dialog can open instead: only with unsaved changes (see
/// `has_unsaved_changes`), and only while that dialog is not already open (so
/// the close is vetoed once, not every frame).
pub fn veto_close(editor_dirty: bool, card_draft_open: bool, confirm_open: bool) -> (veto: bool)
    ensures
        veto == ((editor_dirty || card_draft_open) && !confirm_open),
{
    has_unsaved_changes(editor_dirty, card_draft_open) && !confirm_open
}

/// The answer given in the exit confirmation dialog.
#[derive(Debug, Clone, Copy, PartialEq, Eq, Structural)]
pub enum ExitChoice {
    Save,
    Discard,
    Cancel,
}

/// What the exit confirmation dialog's answer leads to.
#[derive(Debug, Clone, Copy, PartialEq, Eq, Structural)]
pub enum ExitPlan {
    /// Save the document (if `save_document`) and the card draft (if
    /// `save_card_draft`), then close, unless the document's save failed.
    SaveThenClose { save_document: bool, save_card_draft: bool },
    /// Drop the unsaved edits and the card draft, then close.
    DiscardAndClose,
    /// Keep the window open and change nothing.
    StayOpen,
}

/// Decides what the exit dialog's answer does: Save saves only what is
/// unsaved (the dirty document, an open card draft) before closing, Discard
/// closes without saving, Cancel keeps everything open.
pub fn exit_plan(choice: ExitChoice, editor_dirty: bool, card_draft_open: bool) -> (plan: ExitPlan)
    ensures
        plan == (match choice {
            ExitChoice::Save => ExitPlan::SaveThenClose {
                save_document: editor_dirty,
                save_card_draft: card_draft_open,
            },
            ExitChoice::Discard => ExitPlan::DiscardAndClose,
            ExitChoice::Cancel => ExitPlan::StayOpen,
        }),
{
    match choice {
        ExitChoice::Save => ExitPlan::SaveThenClose {
            save_document: editor_dirty,
            save_card_draft: card_draft_open,
        },
        ExitChoice::Discard => ExitPlan::DiscardAndClose,
        ExitChoice::Cancel => ExitPlan::StayOpen,
    }
}

/// A command carries its own argument into its action unchanged, and the
/// commands that need neither a project nor git do not depend on either
/// (nor on the Tags tab): `:theme id` sets exactly the color theme `id`
/// (clearing it only for `None`), `:dark`/`:light`/`:system` set exactly that
/// appearance, a plugin command runs with exactly its name and argument,
/// `:open`/`:new` use exactly the given title, and a git commit or backup
/// uses exactly the given message.
pub proof fn law_commands_carry_their_arguments(
    command: Command,
    project_open: bool,
    git_enabled: bool,
    tags_tab_open: bool,
    other_project_open: bool,
    other_git_enabled: bool,
    other_tags_tab_open: bool,
)
    ensures
        command matches Command::ColorTheme(id) ==> command_action_spec(
            command,
            project_open,
            git_enabled,
            tags_tab_open,
        ) == CommandAction::SetColorTheme(id),
        command matches Command::DarkMode(choice) ==> command_action_spec(
            command,
            project_open,
            git_enabled,
            tags_tab_open,
        ) == CommandAction::SetTheme(choice),
        command matches Command::Plugin(name, arg) ==> command_action_spec(
            command,
            project_open,
            git_enabled,
            tags_tab_open,
        ) == (CommandAction::RunPlugin { name, arg }),
        command matches Command::Open(title) ==> (project_open ==> command_action_spec(
            command,
            project_open,
            git_enabled,
            tags_tab_open,
        ) == CommandAction::OpenByStem(title)),
        command matches Command::New(title) ==> (project_open ==> command_action_spec(
            command,
            project_open,
            git_enabled,
            tags_tab_open,
        ) == CommandAction::CreateDocument(title)),
        command matches Command::Git(GitCommand::Commit(message)) ==> (git_enabled
            ==> command_action_spec(command, project_open, git_enabled, tags_tab_open) == (
        CommandAction::GitCommit { message, push_after: false })),
        command matches Command::Git(GitCommand::Backup(message)) ==> (git_enabled
            ==> command_action_spec(command, project_open, git_enabled, tags_tab_open) == (
        CommandAction::GitCommit { message, push_after: true })),
        (command is Save || command is Quit || command is SaveAndQuit || command is DarkMode
            || command is ColorTheme || command is Find || command is Plugin) ==> command_action_spec(
            command,
            project_open,
            git_enabled,
            tags_tab_open,
        ) == command_action_spec(command, other_project_open, other_git_enabled, other_tags_tab_open),
{
}

} // verus!
