//! The decisions around a live collaboration session: when hosting or
//! joining may start, what happens to a session when the user switches
//! documents, and what each event from the peer tells the user. The network
//! session itself is the caller's.

use vstd::prelude::*;
use vstd::string::StringExecFns;

use crate::notifications::{notice_text, Notice};

verus! {

/// Which side of a session this app is on.
#[derive(Debug, Clone, Copy, PartialEq, Eq, Structural)]
pub enum CollabRole {
    Host,
    Joiner,
}

/// What the session slot holds this frame.
#[derive(Debug, Clone, Copy, PartialEq, Eq, Structural)]
pub enum SessionCheck {
    NoSession,
    /// Connected, or still trying to reconnect.
    Live,
    /// Over for good (reconnection exhausted, or a fatal error): end it and
    /// clear the slot, so a new Host or Join is not refused as "already
    /// active".
    EndedClear,
}

/// Whether the session slot (if it holds a session, whether that session has
/// ended) holds a live session.
pub fn session_check(has_session: bool, session_ended: bool) -> (check: SessionCheck)
    ensures
        check == (if !has_session {
            SessionCheck::NoSession
        } else if session_ended {
            SessionCheck::EndedClear
        } else {
            SessionCheck::Live
        }),
{
    if !has_session {
        SessionCheck::NoSession
    } else if session_ended {
        SessionCheck::EndedClear
    } else {
        SessionCheck::Live
    }
}

/// Refusal while a session is live.
pub open spec fn already_active_text() -> Seq<char> {
    "A collaboration session is already active"@
}

/// Whether hosting may start.
pub open spec fn hosting_allowed(live: bool, document_open: bool) -> bool {
    !live && document_open
}

/// Whether joining may start.
pub open spec fn joining_allowed(live: bool, document_open: bool) -> bool {
    !live && !document_open
}

/// Whether hosting may start, and the status shown if it does. Hosting
/// shares the open document, so one must be open; only one session at a
/// time.
pub fn start_hosting(live: bool, document_open: bool) -> (start: Result<String, String>)
    ensures
        start is Ok <==> hosting_allowed(live, document_open),
        live ==> (start matches Err(e) && e@ == already_active_text()),
        !live && !document_open ==> (start matches Err(e) && e@
            == "Open a document before hosting a collaboration session"@),
        !live && document_open ==> (start matches Ok(s) && s@ == "Hosting collaboration session…"@),
{
    if live {
        Err("A collaboration session is already active".to_owned())
    } else if !document_open {
        Err("Open a document before hosting a collaboration session".to_owned())
    } else {
        Ok("Hosting collaboration session…".to_owned())
    }
}

/// Whether joining may start, and the status shown if it does. A joiner gets
/// the host's document, tied to none of its own files, so nothing may be
/// open; only one session at a time.
pub fn start_joining(live: bool, document_open: bool) -> (start: Result<String, String>)
    ensures
        start is Ok <==> joining_allowed(live, document_open),
        live ==> (start matches Err(e) && e@ == already_active_text()),
        !live && document_open ==> (start matches Err(e) && e@
            == "Close the current document before joining a collaboration session"@),
        !live && !document_open ==> (start matches Ok(s) && s@ == "Joining collaboration session…"@),
{
    if live {
        Err("A collaboration session is already active".to_owned())
    } else if document_open {
        Err("Close the current document before joining a collaboration session".to_owned())
    } else {
        Ok("Joining collaboration session…".to_owned())
    }
}

/// Whether switching to another document may go ahead.
#[derive(Debug, Clone, Copy, PartialEq, Eq, Structural)]
pub enum LeaveCheck {
    /// Go ahead: no session, or this app hosts it (the joiner follows along).
    Proceed,
    /// A joiner's session cannot survive the switch: ask before ending it.
    AskToEnd,
}

/// What switching documents means for the session, given this app's role in
/// it (if any).
pub fn leave_session_check(role: Option<CollabRole>) -> (check: LeaveCheck)
    ensures
        check == (if role == Some(CollabRole::Joiner) {
            LeaveCheck::AskToEnd
        } else {
            LeaveCheck::Proceed
        }),
{
    match role {
        Some(CollabRole::Joiner) => LeaveCheck::AskToEnd,
        _ => LeaveCheck::Proceed,
    }
}

/// Why a session ends.
#[derive(Debug, Clone, Copy, PartialEq, Eq, Structural)]
pub enum EndCause {
    /// The user chose "End Session".
    Requested,
    ProjectClosed,
    DocumentClosed,
    /// A joiner confirmed switching to another document.
    SwitchedDocuments,
}

/// The status shown when a session ends for `cause`.
pub fn session_end_message(cause: EndCause) -> (text: &'static str)
    ensures
        text@ == (match cause {
            EndCause::Requested => "Collaboration session ended"@,
            EndCause::ProjectClosed => "Collaboration session ended: project closed"@,
            EndCause::DocumentClosed => "Collaboration session ended: document closed"@,
            EndCause::SwitchedDocuments => "Collaboration session ended: switched documents"@,
        }),
{
    match cause {
        EndCause::Requested => "Collaboration session ended",
        EndCause::ProjectClosed => "Collaboration session ended: project closed",
        EndCause::DocumentClosed => "Collaboration session ended: document closed",
        EndCause::SwitchedDocuments => "Collaboration session ended: switched documents",
    }
}

/// An event from the session, as far as the user is told about it.
#[derive(Debug, Clone, PartialEq, Eq)]
pub enum CollabUpdate {
    /// The shared text changed: `deleted_len` bytes were replaced at byte
    /// `pos`.
    TextChanged { pos: usize, deleted_len: usize },
    PeerConnected,
    Reconnecting,
    PeerDisconnected,
    Error(String),
}

/// Whether a remote change looks like the host switching documents: it
/// replaces the whole previous, non-empty buffer from its start. (An edit
/// that happens to replace everything looks the same; the first fill of an
/// empty buffer does not count.)
pub open spec fn looks_like_switch_spec(pos: int, deleted_len: int, old_len: int) -> bool {
    pos == 0 && deleted_len == old_len && old_len > 0
}

/// What the user is told about `update`, given the buffer's length in bytes
/// before the update.
pub fn collab_update_notice(update: CollabUpdate, old_len: usize) -> (notice: Option<Notice>)
    ensures
        update matches CollabUpdate::TextChanged { pos, deleted_len } ==> (if looks_like_switch_spec(
            pos as int,
            deleted_len as int,
            old_len as int,
        ) {
            notice matches Some(n) && n is Status && notice_text(n)
                == "Your collaborator switched documents"@
        } else {
            notice is None
        }),
        update is PeerConnected ==> (notice matches Some(n) && n is Status && notice_text(n)
            == "Collaborator connected"@),
        update is Reconnecting ==> (notice matches Some(n) && n is Error && notice_text(n)
            == "Lost connection to your collaborator — trying to reconnect…"@),
        update is PeerDisconnected ==> (notice matches Some(n) && n is Error && notice_text(n)
            == "Collaboration peer disconnected"@),
        update matches CollabUpdate::Error(m) ==> (notice matches Some(n) && n is Error
            && notice_text(n) == "Collaboration error: "@ + m@),
{
    match update {
        CollabUpdate::TextChanged { pos, deleted_len } => {
            if pos == 0 && deleted_len == old_len && old_len > 0 {
                Some(Notice::Status("Your collaborator switched documents".to_owned()))
            } else {
                None
            }
        },
        CollabUpdate::PeerConnected => Some(Notice::Status("Collaborator connected".to_owned())),
        CollabUpdate::Reconnecting => Some(
            Notice::Error("Lost connection to your collaborator — trying to reconnect…".to_owned()),
        ),
        CollabUpdate::PeerDisconnected => Some(
            Notice::Error("Collaboration peer disconnected".to_owned()),
        ),
        CollabUpdate::Error(message) => {
            let mut text = "Collaboration error: ".to_owned();
            text.append(message.as_str());
            Some(Notice::Error(text))
        },
    }
}

/// Hosting and joining are never both possible: hosting needs an open
/// document and joining needs none, and neither starts while a session is
/// live.
pub proof fn law_host_and_join_exclude_each_other(live: bool, document_open: bool)
    ensures
        !(hosting_allowed(live, document_open) && joining_allowed(live, document_open)),
        live ==> !hosting_allowed(live, document_open) && !joining_allowed(live, document_open),
{
}

} // verus!
