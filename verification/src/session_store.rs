//! Which session of the project the application works in. The session
//! records come from the store; the caller reads them and hands them over.

use vstd::prelude::*;

use crate::model_spec::opt_text;
use crate::models::{Project, Session};
use crate::text::push_str;

verus! {

/// The project the application serves and its active session.
pub struct SessionStore {
    project_id: String,
    active_session_id: Option<String>,
}

/// The project and the active session, as values.
pub struct SessionStoreView {
    pub project_id: Seq<char>,
    pub active: Option<Seq<char>>,
}

impl View for SessionStore {
    type V = SessionStoreView;

    closed spec fn view(&self) -> SessionStoreView {
        SessionStoreView { project_id: self.project_id@, active: opt_text(self.active_session_id) }
    }
}

impl SessionStore {
    /// The store of a project, with no session active.
    pub fn for_project(project: &Project) -> (s: SessionStore)
        ensures
            s@.project_id == project.id@,
            s@.active is None,
    {
        SessionStore { project_id: project.id.clone(), active_session_id: None }
    }

    /// The project's identifier.
    pub fn project_id(&self) -> (r: &str)
        ensures
            r@ == self@.project_id,
    {
        self.project_id.as_str()
    }

    /// The active session's identifier.
    pub fn active_session_id(&self) -> (r: Option<&str>)
        ensures
            match self@.active {
                Some(a) => r matches Some(x) && x@ == a,
                None => r is None,
            },
    {
        match &self.active_session_id {
            Some(a) => Some(a.as_str()),
            None => None,
        }
    }

    /// No session is active any more.
    pub fn clear_active_session(&mut self)
        ensures
            final(self)@ == (SessionStoreView { active: None, ..old(self)@ }),
    {
        self.active_session_id = None;
    }

    /// A session was created for the project: it becomes the active one.
    pub fn session_created(&mut self, session: &Session)
        ensures
            final(self)@ == (SessionStoreView { active: Some(session.id@), ..old(self)@ }),
    {
        self.active_session_id = Some(session.id.clone());
    }

    /// Whether a session must be created before a message is sent.
    pub fn needs_session(&self) -> (b: bool)
        ensures
            b == self@.active is None,
    {
        self.active_session_id.is_none()
    }

    /// Makes a session active. `found` is what the store holds under
    /// `session_id`; it must exist and belong to the project.
    pub fn activate(&mut self, session_id: &str, found: Option<&Session>) -> (r: Result<(), String>)
        ensures
            match found {
                None => final(self)@ == old(self)@ && (r matches Err(m) && m@ == "session not found: "@ + session_id@),
                Some(s) => if s.project_id@ == old(self)@.project_id {
                    r is Ok && final(self)@ == (SessionStoreView { active: Some(s.id@), ..old(self)@ })
                } else {
                    final(self)@ == old(self)@ && (r matches Err(m) && m@ == "session '"@ + session_id@
                        + "' does not belong to project '"@ + old(self)@.project_id + "'"@)
                },
            },
    {
        match found {
            None => {
                let mut m = String::new();
                push_str(&mut m, "session not found: ");
                push_str(&mut m, session_id);
                Err(m)
            },
            Some(s) => {
                if s.project_id != self.project_id {
                    let mut m = String::new();
                    push_str(&mut m, "session '");
                    push_str(&mut m, session_id);
                    push_str(&mut m, "' does not belong to project '");
                    push_str(&mut m, self.project_id.as_str());
                    push_str(&mut m, "'");
                    Err(m)
                } else {
                    self.active_session_id = Some(s.id.clone());
                    Ok(())
                }
            },
        }
    }

    /// The session a finished turn is saved to: the active one.
    pub fn persist_target(&self) -> (r: Result<String, String>)
        ensures
            match self@.active {
                Some(a) => r matches Ok(x) && x@ == a,
                None => r matches Err(m) && m@ == "no active session selected"@,
            },
    {
        match &self.active_session_id {
            Some(a) => Ok(a.clone()),
            None => Err("no active session selected".to_owned()),
        }
    }
}

} // verus!
