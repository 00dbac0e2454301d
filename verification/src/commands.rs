//! Slash commands offered by the typeahead.

use vstd::prelude::*;

use crate::typeahead::{strings_view, TypeaheadItem};

verus! {

/// A command that `/` can complete.
#[derive(Debug, Clone, PartialEq, Eq)]
pub enum Command {
    NewSession,
}

impl TypeaheadItem for Command {
    open spec fn token_view(&self) -> Seq<char> {
        match self {
            Command::NewSession => "new"@,
        }
    }

    open spec fn terms_view(&self) -> Seq<Seq<char>> {
        match self {
            Command::NewSession => seq!["new"@, "session"@],
        }
    }

    fn token_text(&self) -> (s: String) {
        match self {
            Command::NewSession => "new".to_owned(),
        }
    }

    open spec fn description_view(&self) -> Option<Seq<char>> {
        match self {
            Command::NewSession => Some("Create a new session"@),
        }
    }

    fn description(&self) -> (d: Option<String>) {
        match self {
            Command::NewSession => Some("Create a new session".to_owned()),
        }
    }

    fn match_terms(&self) -> (v: Vec<String>) {
        match self {
            Command::NewSession => {
                let v = vec!["new".to_owned(), "session".to_owned()];
                assert(strings_view(v@) =~= seq!["new"@, "session"@]);
                v
            },
        }
    }
}

} // verus!
