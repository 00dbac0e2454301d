//! Where the application keeps its files.

use vstd::prelude::*;

use crate::text::{push_char, push_str, to_chars};

verus! {

/// `dir` joined with `name` as `Path::join` does for a relative name: a `/`
/// goes between them unless `dir` is empty or already ends with one.
pub open spec fn joined(dir: Seq<char>, name: Seq<char>) -> Seq<char> {
    if dir.len() == 0 || dir.last() == '/' {
        dir + name
    } else {
        dir + seq!['/'] + name
    }
}

/// The sessions database's path inside the user data directory.
pub fn session_db_path(data_dir: &str) -> (p: String)
    ensures
        p@ == joined(data_dir@, "sessions.sqlite3"@),
{
    let cs = to_chars(data_dir);
    let mut p = String::new();
    push_str(&mut p, data_dir);
    if cs.len() > 0 && cs[cs.len() - 1] != '/' {
        push_char(&mut p, '/');
    }
    push_str(&mut p, "sessions.sqlite3");
    p
}

} // verus!
