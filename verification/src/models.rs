//! Records kept by the session store.

use vstd::prelude::*;

verus! {

/// A project: a directory that sessions belong to.
#[derive(Debug, Clone)]
pub struct Project {
    pub id: String,
    pub root_dir: String,
    pub name: Option<String>,
    pub created_at_ms: i64,
    pub updated_at_ms: i64,
}

/// A conversation session of a project.
#[derive(Debug, Clone)]
pub struct Session {
    pub id: String,
    pub project_id: String,
    pub title: Option<String>,
    pub root_turn_id: Option<String>,
    pub current_turn_id: Option<String>,
    pub created_at_ms: i64,
    pub updated_at_ms: i64,
}

/// What creating a session needs.
#[derive(Debug, Clone)]
pub struct CreateSessionInput {
    pub project_id: String,
    pub title: Option<String>,
}

/// A stored credential of a provider.
#[derive(Debug, Clone)]
pub struct ProviderCredential {
    pub provider_id: String,
    pub credential_value: String,
    pub created_at_ms: i64,
    pub updated_at_ms: i64,
}

} // verus!
