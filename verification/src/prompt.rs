//! The agent's system prompt and the workspace instructions added to it.
//! Reading the template and the instruction file is the caller's part.

use vstd::prelude::*;

use crate::text::{trim, trim_str};

verus! {

/// What `handlebars`, in strict mode, renders for a template with the
/// variables `cwd` and `workspace_root` (`None`: rendering fails).
pub uninterp spec fn rendered(template: Seq<char>, cwd: Seq<char>, workspace_root: Seq<char>) -> Option<Seq<char>>;

/// Calls `handlebars` (`Handlebars::new`, `set_strict_mode(true)`,
/// `render_template`) with the variables `cwd` and `workspace_root`.
#[verifier::external_body]
fn render_strict(template: &str, cwd: &str, workspace_root: &str) -> (r: Option<String>)
    ensures
        match rendered(template@, cwd@, workspace_root@) {
            Some(t) => r matches Some(x) && x@ == t,
            None => r is None,
        },
{
    let mut registry = handlebars::Handlebars::new();
    registry.set_strict_mode(true);
    let mut data = std::collections::BTreeMap::new();
    data.insert("cwd", cwd);
    data.insert("workspace_root", workspace_root);
    registry.render_template(template, &data).ok()
}

/// The system prompt: the template rendered with the working directory and
/// the workspace root, or the template itself where rendering fails.
pub fn system_prompt(template: &str, cwd: &str, workspace_root: &str) -> (p: String)
    ensures
        p@ == match rendered(template@, cwd@, workspace_root@) {
            Some(t) => t,
            None => template@,
        },
{
    match render_strict(template, cwd, workspace_root) {
        Some(t) => t,
        None => template.to_owned(),
    }
}

/// The first of the directories (nearest first) marked as holding a `.git`
/// entry.
pub open spec fn first_marked(dirs: Seq<(String, bool)>) -> Option<Seq<char>>
    decreases dirs.len(),
{
    if dirs.len() == 0 {
        None
    } else if dirs[0].1 {
        Some(dirs[0].0@)
    } else {
        first_marked(dirs.drop_first())
    }
}

/// The workspace root of a working directory, given its ancestors (itself
/// first) each with whether it holds a `.git` entry: the nearest that does,
/// else the working directory.
pub fn workspace_root(cwd: &str, ancestors: &Vec<(String, bool)>) -> (r: String)
    ensures
        r@ == match first_marked(ancestors@) {
            Some(d) => d,
            None => cwd@,
        },
{
    let mut i: usize = 0;
    assert(ancestors@.skip(0) == ancestors@);
    while i < ancestors.len()
        invariant
            i <= ancestors.len(),
            first_marked(ancestors@) == first_marked(ancestors@.skip(i as int)),
        decreases ancestors.len() - i,
    {
        assert(ancestors@.skip(i as int).drop_first() == ancestors@.skip(i + 1));
        if ancestors[i].1 {
            return ancestors[i].0.clone();
        }
        i = i + 1;
    }
    cwd.to_owned()
}

/// The workspace's instructions file, kept unless it holds only whitespace.
pub fn agents_md_content(content: String) -> (r: Option<String>)
    ensures
        trim(content@).len() == 0 ==> r is None,
        trim(content@).len() > 0 ==> (r matches Some(x) && x@ == content@),
{
    let t = trim_str(content.as_str());
    if t.as_str().is_empty() {
        None
    } else {
        Some(content)
    }
}

} // verus!
