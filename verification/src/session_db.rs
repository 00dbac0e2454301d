//! The rules of the session store: which turn a new turn branches from, which
//! turns a session may use, how a session's root and current turn move, and
//! when a project or a title is written. The queries themselves are the
//! caller's: it hands their results to these functions and writes what they
//! decide.

use vstd::prelude::*;

use crate::model_spec::{copy_opt, opt_text};
use crate::models::{Project, Session};
use crate::text::{push_str, trim, trim_str};

verus! {

/// Errors of the session store.
#[derive(Debug)]
pub enum DbError {
    Io(String),
    Sqlite(String),
    Json(String),
    ProjectNotFound(String),
    SessionNotFound(String),
    TurnNotFound(String),
    TurnSessionMismatch { session_id: String, turn_id: String },
    ParentTurnSessionMismatch { session_id: String, parent_turn_id: String },
}

/// A project must exist (`exists`: what the store says).
pub fn check_project_exists(project_id: &str, exists: bool) -> (r: Result<(), DbError>)
    ensures
        exists ==> r is Ok,
        !exists ==> (r matches Err(DbError::ProjectNotFound(id)) && id@ == project_id@),
{
    if exists {
        Ok(())
    } else {
        Err(DbError::ProjectNotFound(project_id.to_owned()))
    }
}

/// A session must exist (`exists`: what the store says).
pub fn check_session_exists(session_id: &str, exists: bool) -> (r: Result<(), DbError>)
    ensures
        exists ==> r is Ok,
        !exists ==> (r matches Err(DbError::SessionNotFound(id)) && id@ == session_id@),
{
    if exists {
        Ok(())
    } else {
        Err(DbError::SessionNotFound(session_id.to_owned()))
    }
}

/// A turn must belong to the session. `owner` is the session the store
/// records for the turn (`None`: no such turn).
pub fn check_turn_owner(session_id: &str, turn_id: &str, owner: Option<String>) -> (r: Result<(), DbError>)
    ensures
        match owner {
            None => r matches Err(DbError::TurnNotFound(t)) && t@ == turn_id@,
            Some(o) => if o@ == session_id@ {
                r is Ok
            } else {
                r matches Err(DbError::TurnSessionMismatch { session_id: s, turn_id: t }) && s@ == session_id@ && t@
                    == turn_id@
            },
        },
{
    match owner {
        None => Err(DbError::TurnNotFound(turn_id.to_owned())),
        Some(o) => {
            let sid = session_id.to_owned();
            if o == sid {
                Ok(())
            } else {
                Err(DbError::TurnSessionMismatch { session_id: session_id.to_owned(), turn_id: turn_id.to_owned() })
            }
        },
    }
}

/// The turn a new turn branches from: the one asked for, else the
/// session's current turn. The session must exist (`None`: not found).
pub fn append_parent(session_id: &str, session: Option<&Session>, requested_parent: Option<String>) -> (r: Result<
    Option<String>,
    DbError,
>)
    ensures
        match session {
            None => r matches Err(DbError::SessionNotFound(id)) && id@ == session_id@,
            Some(s) => r matches Ok(p) && opt_text(p) == match requested_parent {
                Some(q) => Some(q@),
                None => opt_text(s.current_turn_id),
            },
        },
{
    match session {
        None => Err(DbError::SessionNotFound(session_id.to_owned())),
        Some(s) => match requested_parent {
            Some(q) => Ok(Some(q)),
            None => Ok(copy_opt(&s.current_turn_id)),
        },
    }
}

/// The parent of a new turn must be a turn of the same session. `owner` is
/// the session the store records for the parent (`None`: no such turn).
pub fn check_append_parent(session_id: &str, parent_turn_id: &str, owner: Option<String>) -> (r: Result<(), DbError>)
    ensures
        match owner {
            None => r matches Err(DbError::TurnNotFound(t)) && t@ == parent_turn_id@,
            Some(o) => if o@ == session_id@ {
                r is Ok
            } else {
                r matches Err(DbError::ParentTurnSessionMismatch { session_id: s, parent_turn_id: t }) && s@
                    == session_id@ && t@ == parent_turn_id@
            },
        },
{
    match check_turn_owner(session_id, parent_turn_id, owner) {
        Ok(()) => Ok(()),
        Err(DbError::TurnNotFound(_)) => Err(DbError::TurnNotFound(parent_turn_id.to_owned())),
        Err(DbError::TurnSessionMismatch { .. }) => Err(
            DbError::ParentTurnSessionMismatch {
                session_id: session_id.to_owned(),
                parent_turn_id: parent_turn_id.to_owned(),
            },
        ),
        Err(e) => Err(e),
    }
}

/// The session after a turn is appended at time `now`: its root is the new
/// turn if it had none, the new turn is current, and it was updated now.
pub fn session_after_append(session: Session, turn_id: &str, now_ms: i64) -> (s: Session)
    ensures
        s.id@ == session.id@,
        s.project_id@ == session.project_id@,
        opt_text(s.title) == opt_text(session.title),
        opt_text(s.root_turn_id) == match session.root_turn_id {
            Some(r) => Some(r@),
            None => Some(turn_id@),
        },
        opt_text(s.current_turn_id) == Some(turn_id@),
        s.created_at_ms == session.created_at_ms,
        s.updated_at_ms == now_ms,
{
    let root = match session.root_turn_id {
        Some(r) => Some(r),
        None => Some(turn_id.to_owned()),
    };
    Session {
        id: session.id,
        project_id: session.project_id,
        title: session.title,
        root_turn_id: root,
        current_turn_id: Some(turn_id.to_owned()),
        created_at_ms: session.created_at_ms,
        updated_at_ms: now_ms,
    }
}

/// The session after checking out one of its turns at time `now`.
pub fn session_after_checkout(session: Session, turn_id: &str, now_ms: i64) -> (s: Session)
    ensures
        s.id@ == session.id@,
        s.project_id@ == session.project_id@,
        opt_text(s.title) == opt_text(session.title),
        opt_text(s.root_turn_id) == opt_text(session.root_turn_id),
        opt_text(s.current_turn_id) == Some(turn_id@),
        s.created_at_ms == session.created_at_ms,
        s.updated_at_ms == now_ms,
{
    Session {
        id: session.id,
        project_id: session.project_id,
        title: session.title,
        root_turn_id: session.root_turn_id,
        current_turn_id: Some(turn_id.to_owned()),
        created_at_ms: session.created_at_ms,
        updated_at_ms: now_ms,
    }
}

/// Upserting a project found under its directory: a name given that
/// differs from the stored one renames it at time `now` (the flag says the
/// store must be written); otherwise it stays as stored.
pub fn project_after_upsert(project: Project, name: Option<String>, now_ms: i64) -> (r: (Project, bool))
    ensures
        r.0.id@ == project.id@,
        r.0.root_dir@ == project.root_dir@,
        r.0.created_at_ms == project.created_at_ms,
        r.1 == (name is Some && opt_text(name) != opt_text(project.name)),
        r.1 ==> opt_text(r.0.name) == opt_text(name) && r.0.updated_at_ms == now_ms,
        !r.1 ==> opt_text(r.0.name) == opt_text(project.name) && r.0.updated_at_ms == project.updated_at_ms,
{
    let differs = match (&name, &project.name) {
        (Some(n), Some(p)) => *n != *p,
        (Some(_), None) => true,
        (None, _) => false,
    };
    if differs {
        (
            Project {
                id: project.id,
                root_dir: project.root_dir,
                name,
                created_at_ms: project.created_at_ms,
                updated_at_ms: now_ms,
            },
            true,
        )
    } else {
        (project, false)
    }
}

/// A new project for a directory, created at time `now`.
pub fn new_project(id: String, root_dir: String, name: Option<String>, now_ms: i64) -> (p: Project)
    ensures
        p.id@ == id@,
        p.root_dir@ == root_dir@,
        opt_text(p.name) == opt_text(name),
        p.created_at_ms == now_ms,
        p.updated_at_ms == now_ms,
{
    Project { id, root_dir, name, created_at_ms: now_ms, updated_at_ms: now_ms }
}

/// The title to set on a session that has none: the given one, trimmed;
/// nothing when that is empty.
pub fn title_to_set(title: &str) -> (r: Option<String>)
    ensures
        match r {
            Some(t) => t@ == trim(title@) && t@.len() > 0,
            None => trim(title@).len() == 0,
        },
{
    let t = trim_str(title);
    if t.as_str().is_empty() {
        None
    } else {
        Some(t)
    }
}

/// A record identifier: the kind's prefix, `_`, and a random suffix.
pub fn format_id(prefix: &str, suffix: &str) -> (id: String)
    ensures
        id@ == prefix@ + "_"@ + suffix@,
{
    let mut id = String::new();
    push_str(&mut id, prefix);
    push_str(&mut id, "_");
    push_str(&mut id, suffix);
    proof {
        reveal_strlit("_");
    }
    id
}

} // verus!
