//! `.gitignore` files: their lines as a reader sees them, the matchers the
//! `ignore` crate builds from them, and whether a stack of them (from the
//! project root down) ignores a path.

use vstd::prelude::*;

use crate::hashline::{split_lines, split_on_newlines, views};
use crate::mentions::{ignored_by, IgnoreVerdict};
use crate::text::{push_char, to_chars};

verus! {

#[verifier::external_type_specification]
#[verifier::external_body]
pub struct ExGitignore(ignore::gitignore::Gitignore);

/// What the `ignore` crate's matcher, built in directory `dir` from these
/// lines, says of a path.
pub uninterp spec fn gitignore_verdict(dir: Seq<char>, lines: Seq<Seq<char>>, path: Seq<char>, is_dir: bool) -> IgnoreVerdict;

/// Whether the `ignore` crate builds a matcher from these lines in `dir`.
pub uninterp spec fn gitignore_builds(dir: Seq<char>, lines: Seq<Seq<char>>) -> bool;

/// A `.gitignore`'s matcher, with the directory and lines it was built from.
pub struct GitignoreMatcher {
    dir: String,
    lines: Vec<String>,
    matcher: ignore::gitignore::Gitignore,
}

impl View for GitignoreMatcher {
    type V = (Seq<char>, Seq<Seq<char>>);

    closed spec fn view(&self) -> (Seq<char>, Seq<Seq<char>>) {
        (self.dir@, views(self.lines@))
    }
}

/// Builds the matcher of a `.gitignore` kept in `dir` from its lines, as
/// `ignore::gitignore::GitignoreBuilder` does (`new(dir)`, `add_line` for
/// each line, lines that are no valid glob being skipped, then `build`);
/// `None` when building fails. The matcher is held with the directory and
/// lines, which are what `gitignore_matched` states its verdicts over.
#[verifier::external_body]
pub fn build_gitignore(dir: &str, lines: Vec<String>) -> (r: Option<GitignoreMatcher>)
    ensures
        r is Some <==> gitignore_builds(dir@, views(lines@)),
        r matches Some(m) ==> m@ == (dir@, views(lines@)),
{
    let mut builder = ignore::gitignore::GitignoreBuilder::new(dir);
    for line in lines.iter() {
        let _ = builder.add_line(None, line.as_str());
    }
    match builder.build() {
        Ok(matcher) => Some(GitignoreMatcher { dir: dir.to_owned(), lines, matcher }),
        Err(_) => None,
    }
}

/// `Gitignore::matched` on a path: ignored, whitelisted, or no pattern
/// matches. The verdict is named by the directory and lines the matcher was
/// built from.
#[verifier::external_body]
fn gitignore_matched(m: &GitignoreMatcher, path: &str, is_dir: bool) -> (v: IgnoreVerdict)
    ensures
        v == gitignore_verdict(m@.0, m@.1, path@, is_dir),
{
    match m.matcher.matched(path, is_dir) {
        ignore::Match::Ignore(_) => IgnoreVerdict::Ignore,
        ignore::Match::Whitelist(_) => IgnoreVerdict::Whitelist,
        ignore::Match::None => IgnoreVerdict::NoMatch,
    }
}

/// The verdicts of a stack of matchers on a path.
pub open spec fn stack_verdicts(stack: Seq<GitignoreMatcher>, path: Seq<char>, is_dir: bool) -> Seq<IgnoreVerdict> {
    stack.map_values(|m: GitignoreMatcher| gitignore_verdict(m@.0, m@.1, path, is_dir))
}

/// Whether the stack of `.gitignore` matchers (from the root down) ignores
/// the path: the deepest one with a verdict decides.
pub fn path_ignored(stack: &Vec<GitignoreMatcher>, path: &str, is_dir: bool) -> (b: bool)
    ensures
        b == ignored_by(stack_verdicts(stack@, path@, is_dir)),
{
    let mut verdicts: Vec<IgnoreVerdict> = Vec::new();
    for i in 0..stack.len()
        invariant
            verdicts@ == stack_verdicts(stack@.take(i as int), path@, is_dir),
    {
        let v = gitignore_matched(&stack[i], path, is_dir);
        verdicts.push(v);
        assert(verdicts@ =~= stack_verdicts(stack@.take(i + 1), path@, is_dir));
    }
    assert(stack@.take(stack.len() as int) == stack@);
    crate::mentions::is_ignored_by_stack(&verdicts)
}

/// The line without one final `\r`.
pub open spec fn without_cr(l: Seq<char>) -> Seq<char> {
    if l.len() > 0 && l.last() == '\r' {
        l.drop_last()
    } else {
        l
    }
}

/// The text without the byte-order marks it starts with.
pub open spec fn without_bom(l: Seq<char>) -> Seq<char>
    decreases l.len(),
{
    if l.len() > 0 && l[0] == '\u{feff}' {
        without_bom(l.drop_first())
    } else {
        l
    }
}

/// The lines of a file as a line reader gives them (split at `\n`, a final
/// `\r` dropped, no empty line after a final `\n`), the first without its
/// leading byte-order marks.
pub open spec fn gitignore_lines_of(content: Seq<char>) -> Seq<Seq<char>> {
    let pieces = if content.len() == 0 {
        Seq::<Seq<char>>::empty()
    } else if content.last() == '\n' {
        split_lines(content).drop_last()
    } else {
        split_lines(content)
    };
    let ls = pieces.map_values(|l: Seq<char>| without_cr(l));
    if ls.len() > 0 {
        ls.update(0, without_bom(ls[0]))
    } else {
        ls
    }
}

/// The line without one final `\r`.
fn strip_cr(l: &String) -> (r: String)
    ensures
        r@ == without_cr(l@),
{
    let cs = to_chars(l.as_str());
    let n = if cs.len() > 0 && cs[cs.len() - 1] == '\r' { cs.len() - 1 } else { cs.len() };
    let mut r = String::new();
    for i in 0..n
        invariant
            n <= cs.len(),
            cs@ == l@,
            r@ == cs@.take(i as int),
    {
        push_char(&mut r, cs[i]);
        assert(r@ =~= cs@.take(i + 1));
    }
    assert(cs@.take(n as int) == without_cr(l@));
    r
}

/// The text without its leading byte-order marks.
fn strip_bom(l: &String) -> (r: String)
    ensures
        r@ == without_bom(l@),
{
    let cs = to_chars(l.as_str());
    let mut k: usize = 0;
    assert(cs@.skip(0) == cs@);
    while k < cs.len() && cs[k] == '\u{feff}'
        invariant
            k <= cs.len(),
            cs@ == l@,
            without_bom(l@) == without_bom(cs@.skip(k as int)),
        decreases cs.len() - k,
    {
        assert(cs@.skip(k as int).drop_first() == cs@.skip(k + 1));
        k = k + 1;
    }
    let mut r = String::new();
    for i in k..cs.len()
        invariant
            k <= cs.len(),
            cs@ == l@,
            r@ == cs@.subrange(k as int, i as int),
    {
        push_char(&mut r, cs[i]);
        assert(r@ =~= cs@.subrange(k as int, i + 1));
    }
    assert(cs@.subrange(k as int, cs.len() as int) == cs@.skip(k as int));
    r
}

/// The lines of a `.gitignore` file's text; see `gitignore_lines_of`.
pub fn gitignore_lines(content: &str) -> (r: Vec<String>)
    ensures
        views(r@) == gitignore_lines_of(content@),
{
    let cs = to_chars(content);
    if cs.len() == 0 {
        let r: Vec<String> = Vec::new();
        assert(views(r@) =~= gitignore_lines_of(content@));
        return r;
    }
    let mut pieces = split_on_newlines(&cs);
    proof {
        crate::hashline::lemma_split_lines_nonempty(cs@);
    }
    if cs[cs.len() - 1] == '\n' {
        let _ = pieces.pop();
        assert(views(pieces@) =~= split_lines(content@).drop_last());
    }
    let ghost ps = views(pieces@);
    let mut r: Vec<String> = Vec::new();
    for i in 0..pieces.len()
        invariant
            ps == views(pieces@),
            views(r@) == ps.take(i as int).map_values(|l: Seq<char>| without_cr(l)),
    {
        let line = strip_cr(&pieces[i]);
        let ghost before = r@;
        r.push(line);
        proof {
            crate::hashline::lemma_views_push(before, line);
            assert(ps[i as int] == pieces@[i as int]@);
        }
        assert(views(r@) =~= ps.take(i + 1).map_values(|l: Seq<char>| without_cr(l)));
    }
    assert(ps.take(ps.len() as int) == ps);
    if r.len() > 0 {
        let first = strip_bom(&r[0]);
        let ghost before = views(r@);
        r.set(0, first);
        assert(views(r@) =~= before.update(0, without_bom(before[0])));
    }
    r
}

} // verus!
