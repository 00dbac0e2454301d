//! The edit tool: hashline-anchored line edits and file-level operations,
//! applied in order to an in-memory copy of one file.

use vstd::prelude::*;

use crate::event::{DisplayBody, ToolCallDisplay, ToolOutput, ToolResultDisplay};
use crate::text::{
    decimal, push_char, push_str, push_successor, push_usize, string_from_range, to_chars, trim,
    trim_bounds,
};

use crate::hashline::{
    anchor_outcome, hashline_at, hashline_text, join, join_strings, lemma_views_push, lf, parsed_ending, parsed_lines, parsed_trailing, replacement_lines, replacement_lines_of, resolve_anchor, views,
    anchor_parts, law_anchor_resolves_to_unique_nearest_match, strictly_closest, AnchorError, FileLines,
};

verus! {

/// One edit operation.
pub enum EditOperation {
    /// Replace the anchored line with `content`.
    Replace { anchor: String, content: String },
    /// Insert `content` before the anchored line.
    InsertBefore { anchor: String, content: String },
    /// Insert `content` after the anchored line.
    InsertAfter { anchor: String, content: String },
    /// Delete the anchored line.
    Delete { anchor: String },
    /// Replace the lines from `start` to `end` (inclusive) with `content`.
    ReplaceRange { start: String, end: String, content: String },
    /// Delete the lines from `start` to `end` (inclusive).
    DeleteRange { start: String, end: String },
    /// Replace the whole file (creating it when missing).
    RewriteFile { content: String },
    /// Move the file to `to`.
    MoveFile { to: String },
    /// Delete the file.
    DeleteFile,
}

/// The name of an operation kind, as the tool's input spells it.
pub open spec fn kind_name(op: EditOperation) -> Seq<char> {
    match op {
        EditOperation::Replace { .. } => "replace"@,
        EditOperation::InsertBefore { .. } => "insert_before"@,
        EditOperation::InsertAfter { .. } => "insert_after"@,
        EditOperation::Delete { .. } => "delete"@,
        EditOperation::ReplaceRange { .. } => "replace_range"@,
        EditOperation::DeleteRange { .. } => "delete_range"@,
        EditOperation::RewriteFile { .. } => "rewrite_file"@,
        EditOperation::MoveFile { .. } => "move_file"@,
        EditOperation::DeleteFile => "delete_file"@,
    }
}

impl EditOperation {
    /// The operation's kind name.
    pub fn kind(&self) -> (k: &'static str)
        ensures
            k@ == kind_name(*self),
    {
        match self {
            EditOperation::Replace { .. } => "replace",
            EditOperation::InsertBefore { .. } => "insert_before",
            EditOperation::InsertAfter { .. } => "insert_after",
            EditOperation::Delete { .. } => "delete",
            EditOperation::ReplaceRange { .. } => "replace_range",
            EditOperation::DeleteRange { .. } => "delete_range",
            EditOperation::RewriteFile { .. } => "rewrite_file",
            EditOperation::MoveFile { .. } => "move_file",
            EditOperation::DeleteFile => "delete_file",
        }
    }

    /// Whether the operation edits lines (rather than the file as a whole).
    pub open spec fn is_line_op(self) -> bool {
        match self {
            EditOperation::RewriteFile { .. } | EditOperation::MoveFile { .. }
            | EditOperation::DeleteFile => false,
            _ => true,
        }
    }
}

/// Why a line operation failed.
pub enum LineOpError {
    /// An anchor named no line.
    Anchor { anchor: String, error: AnchorError },
    /// The start of a range resolves after its end.
    ReversedRange { start: String, end: String },
}

/// The failure of an anchor.
pub open spec fn anchor_failed(out: Result<Seq<Seq<char>>, LineOpError>, anchor: Seq<char>, e: AnchorError) -> bool {
    out matches Err(LineOpError::Anchor { anchor: a, error: x }) && a@ == anchor && x == e
}

/// The lines `ls[..from] + repl + ls[to..]`.
pub open spec fn spliced(ls: Seq<Seq<char>>, from: int, to: int, repl: Seq<Seq<char>>) -> Seq<Seq<char>> {
    ls.take(from) + repl + ls.skip(to)
}

/// The outcome of a line operation on the lines `ls`: each anchor is
/// resolved as `resolve_anchor` does (a range's start first), and the lines
/// it names are replaced, deleted or have content inserted next to them.
pub open spec fn line_op_outcome(op: EditOperation, ls: Seq<Seq<char>>, out: Result<Seq<Seq<char>>, LineOpError>) -> bool {
    match op {
        EditOperation::Replace { anchor, content } => exists|r: Result<usize, AnchorError>|
            #[trigger] anchor_outcome(anchor@, ls, r) && match r {
                Ok(i) => out == Ok::<Seq<Seq<char>>, LineOpError>(
                    spliced(ls, i as int, i + 1, replacement_lines_of(content@)),
                ),
                Err(e) => anchor_failed(out, anchor@, e),
            },
        EditOperation::InsertBefore { anchor, content } => exists|r: Result<usize, AnchorError>|
            #[trigger] anchor_outcome(anchor@, ls, r) && match r {
                Ok(i) => out == Ok::<Seq<Seq<char>>, LineOpError>(
                    spliced(ls, i as int, i as int, replacement_lines_of(content@)),
                ),
                Err(e) => anchor_failed(out, anchor@, e),
            },
        EditOperation::InsertAfter { anchor, content } => exists|r: Result<usize, AnchorError>|
            #[trigger] anchor_outcome(anchor@, ls, r) && match r {
                Ok(i) => out == Ok::<Seq<Seq<char>>, LineOpError>(
                    spliced(ls, i + 1, i + 1, replacement_lines_of(content@)),
                ),
                Err(e) => anchor_failed(out, anchor@, e),
            },
        EditOperation::Delete { anchor } => exists|r: Result<usize, AnchorError>|
            #[trigger] anchor_outcome(anchor@, ls, r) && match r {
                Ok(i) => out == Ok::<Seq<Seq<char>>, LineOpError>(
                    spliced(ls, i as int, i + 1, Seq::empty()),
                ),
                Err(e) => anchor_failed(out, anchor@, e),
            },
        EditOperation::ReplaceRange { start, end, content } => exists|r1: Result<usize, AnchorError>, r2: Result<usize, AnchorError>|
            #[trigger] anchor_outcome(start@, ls, r1) && #[trigger] anchor_outcome(end@, ls, r2)
                && range_outcome(start@, end@, r1, r2, ls, out, replacement_lines_of(content@)),
        EditOperation::DeleteRange { start, end } => exists|r1: Result<usize, AnchorError>, r2: Result<usize, AnchorError>|
            #[trigger] anchor_outcome(start@, ls, r1) && #[trigger] anchor_outcome(end@, ls, r2)
                && range_outcome(start@, end@, r1, r2, ls, out, Seq::empty()),
        _ => false,
    }
}

/// The outcome of a range operation once both anchors are resolved.
pub open spec fn range_outcome(
    start: Seq<char>,
    end: Seq<char>,
    r1: Result<usize, AnchorError>,
    r2: Result<usize, AnchorError>,
    ls: Seq<Seq<char>>,
    out: Result<Seq<Seq<char>>, LineOpError>,
    repl: Seq<Seq<char>>,
) -> bool {
    match r1 {
        Err(e) => anchor_failed(out, start, e),
        Ok(s) => match r2 {
            Err(e) => anchor_failed(out, end, e),
            Ok(t) => if s > t {
                out matches Err(LineOpError::ReversedRange { start: a, end: b }) && a@ == start && b@ == end
            } else {
                out == Ok::<Seq<Seq<char>>, LineOpError>(spliced(ls, s as int, t + 1, repl))
            },
        },
    }
}

/// A range operation whose anchors name lines `s` and `t` (each the one
/// matching line strictly nearest to its anchor's line number) fails with
/// `ReversedRange` when `s` comes after `t`, and otherwise replaces lines
/// `s..=t` with the operation's content (nothing, for `DeleteRange`).
pub proof fn law_range_splices_between_resolved_lines(
    op: EditOperation,
    ls: Seq<Seq<char>>,
    out: Result<Seq<Seq<char>>, LineOpError>,
    s: int,
    t: int,
)
    requires
        line_op_outcome(op, ls, out),
        ls.len() > 0,
        op is ReplaceRange || op is DeleteRange,
        ({
            let (start, end) = match op {
                EditOperation::ReplaceRange { start, end, .. } => (start@, end@),
                EditOperation::DeleteRange { start, end } => (start@, end@),
                _ => (Seq::<char>::empty(), Seq::<char>::empty()),
            };
            &&& anchor_parts(start) matches Ok((n1, h1)) && strictly_closest(ls, h1, n1 - 1, s)
            &&& anchor_parts(end) matches Ok((n2, h2)) && strictly_closest(ls, h2, n2 - 1, t)
        }),
    ensures
        ({
            let repl = match op {
                EditOperation::ReplaceRange { content, .. } => replacement_lines_of(content@),
                _ => Seq::<Seq<char>>::empty(),
            };
            &&& s > t ==> (out matches Err(LineOpError::ReversedRange { .. }))
            &&& s <= t ==> out == Ok::<Seq<Seq<char>>, LineOpError>(spliced(ls, s, t + 1, repl))
        }),
{
    let (start, end) = match op {
        EditOperation::ReplaceRange { start, end, .. } => (start@, end@),
        EditOperation::DeleteRange { start, end } => (start@, end@),
        _ => (Seq::<char>::empty(), Seq::<char>::empty()),
    };
    let (r1, r2) = choose|r1: Result<usize, AnchorError>, r2: Result<usize, AnchorError>|
        #[trigger] anchor_outcome(start, ls, r1) && #[trigger] anchor_outcome(end, ls, r2) && match op {
            EditOperation::ReplaceRange { content, .. } => range_outcome(
                start,
                end,
                r1,
                r2,
                ls,
                out,
                replacement_lines_of(content@),
            ),
            _ => range_outcome(start, end, r1, r2, ls, out, Seq::empty()),
        };
    law_anchor_resolves_to_unique_nearest_match(start, ls, r1);
    law_anchor_resolves_to_unique_nearest_match(end, ls, r2);
    assert(r1 == Ok::<usize, AnchorError>(s as usize));
    assert(r2 == Ok::<usize, AnchorError>(t as usize));
}

proof fn lemma_resolved_to(anchor: Seq<char>, ls: Seq<Seq<char>>, r: Result<usize, AnchorError>, i: usize)
    requires
        anchor_outcome(anchor, ls, r),
        anchor_outcome(anchor, ls, Ok(i)),
    ensures
        r == Ok::<usize, AnchorError>(i),
{
    law_anchor_resolves_to_unique_nearest_match(anchor, ls, Ok(i));
    law_anchor_resolves_to_unique_nearest_match(anchor, ls, r);
}

/// The lines an edit's content stands for are never none (empty content is
/// one empty line).
pub proof fn lemma_replacement_nonempty(content: Seq<char>)
    ensures
        replacement_lines_of(content).len() >= 1,
{
    let norm = crate::hashline::normalize_newlines(content);
    if norm.len() > 0 {
        crate::hashline::lemma_split_lines_nonempty(norm);
    }
}

/// `insert_after` whose anchor resolves to line `i` keeps lines `0..=i`,
/// then puts the content's lines, then the rest: the anchor line stays
/// where it was and the new lines come right after it.
pub proof fn law_insert_after_puts_content_after_anchor(
    anchor: String,
    content: String,
    ls: Seq<Seq<char>>,
    out: Seq<Seq<char>>,
    i: usize,
)
    requires
        line_op_outcome(EditOperation::InsertAfter { anchor, content }, ls, Ok(out)),
        anchor_outcome(anchor@, ls, Ok(i)),
    ensures
        out == ls.take(i + 1) + replacement_lines_of(content@) + ls.skip(i + 1),
        out.len() == ls.len() + replacement_lines_of(content@).len(),
        forall|k: int| 0 <= k <= i ==> #[trigger] out[k] == ls[k],
        forall|k: int| 0 <= k < replacement_lines_of(content@).len() ==> out[i + 1 + k] == #[trigger] replacement_lines_of(content@)[k],
{
    let r = choose|r: Result<usize, AnchorError>|
        #[trigger] anchor_outcome(anchor@, ls, r) && match r {
            Ok(j) => Ok::<Seq<Seq<char>>, LineOpError>(out) == Ok::<Seq<Seq<char>>, LineOpError>(
                spliced(ls, j + 1, j + 1, replacement_lines_of(content@)),
            ),
            Err(e) => anchor_failed(Ok(out), anchor@, e),
        };
    lemma_resolved_to(anchor@, ls, r, i);
    assert(i < ls.len());
}

/// `insert_before` whose anchor resolves to line `i` keeps lines `0..i`,
/// then puts the content's lines, then line `i` and the rest.
pub proof fn law_insert_before_puts_content_before_anchor(
    anchor: String,
    content: String,
    ls: Seq<Seq<char>>,
    out: Seq<Seq<char>>,
    i: usize,
)
    requires
        line_op_outcome(EditOperation::InsertBefore { anchor, content }, ls, Ok(out)),
        anchor_outcome(anchor@, ls, Ok(i)),
    ensures
        out == ls.take(i as int) + replacement_lines_of(content@) + ls.skip(i as int),
        forall|k: int| 0 <= k < i ==> #[trigger] out[k] == ls[k],
        out[i as int] == replacement_lines_of(content@)[0],
        out[i + replacement_lines_of(content@).len()] == ls[i as int],
{
    let r = choose|r: Result<usize, AnchorError>|
        #[trigger] anchor_outcome(anchor@, ls, r) && match r {
            Ok(j) => Ok::<Seq<Seq<char>>, LineOpError>(out) == Ok::<Seq<Seq<char>>, LineOpError>(
                spliced(ls, j as int, j as int, replacement_lines_of(content@)),
            ),
            Err(e) => anchor_failed(Ok(out), anchor@, e),
        };
    lemma_resolved_to(anchor@, ls, r, i);
    lemma_replacement_nonempty(content@);
    assert(i < ls.len());
}

/// `replace` whose anchor resolves to line `i` puts the content's lines in
/// place of line `i` alone; `delete` removes line `i` alone. Every other
/// line is kept, in order.
pub proof fn law_replace_and_delete_touch_only_the_anchor_line(
    op: EditOperation,
    ls: Seq<Seq<char>>,
    out: Seq<Seq<char>>,
    i: usize,
)
    requires
        op is Replace || op is Delete,
        line_op_outcome(op, ls, Ok(out)),
        anchor_outcome(
            match op {
                EditOperation::Replace { anchor, .. } => anchor@,
                EditOperation::Delete { anchor } => anchor@,
                _ => Seq::<char>::empty(),
            },
            ls,
            Ok(i),
        ),
    ensures
        out == ls.take(i as int) + (match op {
            EditOperation::Replace { content, .. } => replacement_lines_of(content@),
            _ => Seq::<Seq<char>>::empty(),
        }) + ls.skip(i + 1),
        op is Delete ==> out.len() + 1 == ls.len(),
{
    match op {
        EditOperation::Replace { anchor, content } => {
            let r = choose|r: Result<usize, AnchorError>|
                #[trigger] anchor_outcome(anchor@, ls, r) && match r {
                    Ok(j) => Ok::<Seq<Seq<char>>, LineOpError>(out) == Ok::<Seq<Seq<char>>, LineOpError>(
                        spliced(ls, j as int, j + 1, replacement_lines_of(content@)),
                    ),
                    Err(e) => anchor_failed(Ok(out), anchor@, e),
                };
            lemma_resolved_to(anchor@, ls, r, i);
        },
        EditOperation::Delete { anchor } => {
            let r = choose|r: Result<usize, AnchorError>|
                #[trigger] anchor_outcome(anchor@, ls, r) && match r {
                    Ok(j) => Ok::<Seq<Seq<char>>, LineOpError>(out) == Ok::<Seq<Seq<char>>, LineOpError>(
                        spliced(ls, j as int, j + 1, Seq::empty()),
                    ),
                    Err(e) => anchor_failed(Ok(out), anchor@, e),
                };
            lemma_resolved_to(anchor@, ls, r, i);
            assert(i < ls.len());
        },
        _ => {},
    }
}

/// `delete_file` leaves the path and removes the file; `rewrite_file`
/// leaves the path and replaces the file with its content's parse.
pub proof fn law_whole_file_operations(op: EditOperation, s: StateView, r: StateView)
    requires
        op is DeleteFile || op is RewriteFile,
        op_outcome(op, s, Ok(r)),
    ensures
        r.0 == s.0,
        op is DeleteFile ==> r.1 is None && s.1 is Some,
        op matches EditOperation::RewriteFile { content } ==> r.1 == Some(parsed_view(content@)),
{
}

/// On the same anchor and content, `insert_before` and `insert_after` give
/// different lines whenever the content's first line differs from the
/// anchor line: at the anchor's index the first has the content, the second
/// the anchor line.
pub proof fn law_insert_before_and_after_differ(
    anchor: String,
    content: String,
    ls: Seq<Seq<char>>,
    before: Seq<Seq<char>>,
    after: Seq<Seq<char>>,
    i: usize,
)
    requires
        line_op_outcome(EditOperation::InsertBefore { anchor, content }, ls, Ok(before)),
        line_op_outcome(EditOperation::InsertAfter { anchor, content }, ls, Ok(after)),
        anchor_outcome(anchor@, ls, Ok(i)),
        replacement_lines_of(content@)[0] != ls[i as int],
    ensures
        before[i as int] != after[i as int],
        before != after,
{
    law_insert_before_puts_content_before_anchor(anchor, content, ls, before, i);
    law_insert_after_puts_content_after_anchor(anchor, content, ls, after, i);
}

/// A successful `move_file` moves the file to the destination, trimmed of
/// white space (which is never blank), keeping its lines.
pub proof fn law_move_file_moves_to_destination(to: String, s: StateView, r: StateView)
    requires
        op_outcome(EditOperation::MoveFile { to }, s, Ok(r)),
    ensures
        trim(to@).len() > 0,
        r.0 == trim(to@),
        r.1 == s.1,
        s.1 is Some,
{
}

/// A copy of the string.
pub fn copy_string(s: &String) -> (out: String)
    ensures
        out@ == s@,
{
    s.clone()
}

/// `lines[..from] + repl + lines[to..]`.
fn splice(lines: &Vec<String>, from: usize, to: usize, repl: Vec<String>) -> (out: Vec<String>)
    requires
        from <= to <= lines.len(),
    ensures
        views(out@) == spliced(views(lines@), from as int, to as int, views(repl@)),
{
    let mut out: Vec<String> = Vec::new();
    for i in 0..from
        invariant
            from <= lines.len(),
            views(out@) == views(lines@).take(i as int),
    {
        let c = copy_string(&lines[i]);
        proof {
            lemma_views_push(out@, c);
        }
        out.push(c);
        assert(views(lines@).take(i + 1) =~= views(lines@).take(i as int).push(lines@[i as int]@));
    }
    let ghost mid = views(out@);
    for j in 0..repl.len()
        invariant
            views(out@) == mid + views(repl@).take(j as int),
    {
        let c = copy_string(&repl[j]);
        proof {
            lemma_views_push(out@, c);
        }
        out.push(c);
        assert(views(repl@).take(j + 1) =~= views(repl@).take(j as int).push(repl@[j as int]@));
        assert(mid + views(repl@).take(j + 1) =~= (mid + views(repl@).take(j as int)).push(repl@[j as int]@));
    }
    assert(views(repl@).take(repl@.len() as int) =~= views(repl@));
    let ghost mid2 = views(out@);
    let mut k = to;
    while k < lines.len()
        invariant
            to <= k <= lines.len(),
            views(out@) == mid2 + views(lines@).subrange(to as int, k as int),
        decreases lines.len() - k,
    {
        let c = copy_string(&lines[k]);
        proof {
            lemma_views_push(out@, c);
        }
        out.push(c);
        assert(views(lines@).subrange(to as int, k + 1) =~= views(lines@).subrange(to as int, k as int).push(lines@[k as int]@));
        assert(mid2 + views(lines@).subrange(to as int, k + 1) =~= (mid2 + views(lines@).subrange(to as int, k as int)).push(lines@[k as int]@));
        k = k + 1;
    }
    assert(views(lines@).subrange(to as int, lines@.len() as int) =~= views(lines@).skip(to as int));
    out
}

fn anchor_error(anchor: &String, error: AnchorError) -> (e: LineOpError)
    ensures
        e matches LineOpError::Anchor { anchor: a, error: x } && a@ == anchor@ && x == error,
{
    LineOpError::Anchor { anchor: copy_string(anchor), error }
}

/// Applies a line operation to the lines of a file.
pub fn apply_line_operation(op: &EditOperation, lines: &mut Vec<String>) -> (r: Result<(), LineOpError>)
    requires
        op.is_line_op(),
    ensures
        match r {
            Ok(_) => line_op_outcome(*op, views(old(lines)@), Ok(views(final(lines)@))),
            Err(e) => line_op_outcome(*op, views(old(lines)@), Err(e)) && final(lines)@ == old(lines)@,
        },
{
    let ghost ls = views(lines@);
    let nl = lines.len();
    assert(ls.len() == nl);
    match op {
        EditOperation::Replace { anchor, content } => {
            let r = resolve_anchor(anchor.as_str(), lines.as_slice());
            match r {
                Ok(i) => {
                    let new = splice(lines, i, i + 1, replacement_lines(content.as_str()));
                    *lines = new;
                    assert(anchor_outcome(anchor@, ls, r));
                    Ok(())
                },
                Err(e) => {
                    let ghost ge = e;
                    let err = anchor_error(anchor, e);
                    assert(anchor_outcome(anchor@, ls, Err::<usize, AnchorError>(ge)));
                    Err(err)
                },
            }
        },
        EditOperation::InsertBefore { anchor, content } => {
            let r = resolve_anchor(anchor.as_str(), lines.as_slice());
            match r {
                Ok(i) => {
                    let new = splice(lines, i, i, replacement_lines(content.as_str()));
                    *lines = new;
                    assert(anchor_outcome(anchor@, ls, r));
                    Ok(())
                },
                Err(e) => {
                    let ghost ge = e;
                    let err = anchor_error(anchor, e);
                    assert(anchor_outcome(anchor@, ls, Err::<usize, AnchorError>(ge)));
                    Err(err)
                },
            }
        },
        EditOperation::InsertAfter { anchor, content } => {
            let r = resolve_anchor(anchor.as_str(), lines.as_slice());
            match r {
                Ok(i) => {
                    let new = splice(lines, i + 1, i + 1, replacement_lines(content.as_str()));
                    *lines = new;
                    assert(anchor_outcome(anchor@, ls, r));
                    Ok(())
                },
                Err(e) => {
                    let ghost ge = e;
                    let err = anchor_error(anchor, e);
                    assert(anchor_outcome(anchor@, ls, Err::<usize, AnchorError>(ge)));
                    Err(err)
                },
            }
        },
        EditOperation::Delete { anchor } => {
            let r = resolve_anchor(anchor.as_str(), lines.as_slice());
            match r {
                Ok(i) => {
                    let none: Vec<String> = Vec::new();
                    assert(views(none@) =~= Seq::<Seq<char>>::empty());
                    let new = splice(lines, i, i + 1, none);
                    *lines = new;
                    assert(anchor_outcome(anchor@, ls, r));
                    Ok(())
                },
                Err(e) => {
                    let ghost ge = e;
                    let err = anchor_error(anchor, e);
                    assert(anchor_outcome(anchor@, ls, Err::<usize, AnchorError>(ge)));
                    Err(err)
                },
            }
        },
        EditOperation::ReplaceRange { start, end, content } => {
            let r1 = resolve_anchor(start.as_str(), lines.as_slice());
            let r2 = resolve_anchor(end.as_str(), lines.as_slice());
            let ghost g1 = r1;
            let ghost g2 = r2;
            assert(anchor_outcome(start@, ls, g1) && anchor_outcome(end@, ls, g2));
            let (s, t) = match (r1, r2) {
                (Err(e), _) => {
                    return Err(anchor_error(start, e));
                },
                (Ok(_), Err(e)) => {
                    return Err(anchor_error(end, e));
                },
                (Ok(s), Ok(t)) => (s, t),
            };
            if s > t {
                return Err(LineOpError::ReversedRange { start: copy_string(start), end: copy_string(end) });
            }
            let new = splice(lines, s, t + 1, replacement_lines(content.as_str()));
            *lines = new;
            Ok(())
        },
        EditOperation::DeleteRange { start, end } => {
            let r1 = resolve_anchor(start.as_str(), lines.as_slice());
            let r2 = resolve_anchor(end.as_str(), lines.as_slice());
            let ghost g1 = r1;
            let ghost g2 = r2;
            assert(anchor_outcome(start@, ls, g1) && anchor_outcome(end@, ls, g2));
            let (s, t) = match (r1, r2) {
                (Err(e), _) => {
                    return Err(anchor_error(start, e));
                },
                (Ok(_), Err(e)) => {
                    return Err(anchor_error(end, e));
                },
                (Ok(s), Ok(t)) => (s, t),
            };
            if s > t {
                return Err(LineOpError::ReversedRange { start: copy_string(start), end: copy_string(end) });
            }
            let none: Vec<String> = Vec::new();
            assert(views(none@) =~= Seq::<Seq<char>>::empty());
            let new = splice(lines, s, t + 1, none);
            *lines = new;
            Ok(())
        },
        _ => {
            proof {
                assert(false);
            }
            Ok(())
        },
    }
}

// ---------------------------------------------------------------------------
// File-level state
// ---------------------------------------------------------------------------

/// The lines, line ending and final-newline flag of a file.
pub open spec fn file_view(f: FileLines) -> (Seq<Seq<char>>, Seq<char>, bool) {
    (views(f.lines@), f.line_ending@, f.trailing_newline)
}

/// The file an edit works on: where it is now, and its lines (`None` once
/// deleted, or when it did not exist).
pub struct EditState {
    pub input_path: String,
    pub current_path: String,
    pub initial_file_existed: bool,
    pub file: Option<FileLines>,
}

/// The part of an edit state that operations change.
pub open spec fn state_view(s: EditState) -> (Seq<char>, Option<(Seq<Seq<char>>, Seq<char>, bool)>) {
    (
        s.current_path@,
        match s.file {
            Some(f) => Some(file_view(f)),
            None => None,
        },
    )
}

/// What parsing a text gives.
pub open spec fn parsed_view(content: Seq<char>) -> (Seq<Seq<char>>, Seq<char>, bool) {
    (parsed_lines(content), parsed_ending(content), parsed_trailing(content))
}

impl EditState {
    /// The state of a file at `path` before any operation; `content` is its
    /// text when it exists.
    pub fn load(path: &str, content: Option<&str>) -> (s: EditState)
        ensures
            s.input_path@ == path@,
            s.current_path@ == path@,
            s.initial_file_existed == content.is_some(),
            state_view(s) == (path@, match content {
                Some(c) => Some(parsed_view(c@)),
                None => None::<(Seq<Seq<char>>, Seq<char>, bool)>,
            }),
    {
        let file = match content {
            Some(c) => Some(FileLines::parse(c)),
            None => None,
        };
        let existed = file.is_some();
        EditState {
            input_path: path.to_owned(),
            current_path: path.to_owned(),
            initial_file_existed: existed,
            file,
        }
    }
}

/// Why an operation failed.
pub enum OperationError {
    /// A line operation failed.
    Line(LineOpError),
    /// A line operation on a file that does not exist.
    MissingFile { path: String },
    /// Moving a file that does not exist.
    MoveMissingFile { path: String },
    /// Moving to an empty path.
    EmptyDestination,
    /// Deleting a file that does not exist.
    DeleteMissingFile { path: String },
}

pub type StateView = (Seq<char>, Option<(Seq<Seq<char>>, Seq<char>, bool)>);

/// The outcome of one operation on a state: line operations need the file
/// and change its lines; `rewrite_file` replaces (or creates) it from its
/// content; `move_file` needs the file and a non-blank destination, which it
/// takes trimmed; `delete_file` needs the file and removes it.
pub open spec fn op_outcome(op: EditOperation, s: StateView, r: Result<StateView, OperationError>) -> bool {
    match op {
        EditOperation::RewriteFile { content } => r == Ok::<StateView, OperationError>((s.0, Some(parsed_view(content@)))),
        EditOperation::MoveFile { to } => match s.1 {
            None => r matches Err(OperationError::MoveMissingFile { path }) && path@ == s.0,
            Some(f) => if trim(to@).len() == 0 {
                r matches Err(OperationError::EmptyDestination)
            } else {
                r == Ok::<StateView, OperationError>((trim(to@), Some(f)))
            },
        },
        EditOperation::DeleteFile => match s.1 {
            None => r matches Err(OperationError::DeleteMissingFile { path }) && path@ == s.0,
            Some(_) => r == Ok::<StateView, OperationError>((s.0, None)),
        },
        _ => match s.1 {
            None => r matches Err(OperationError::MissingFile { path }) && path@ == s.0,
            Some(f) => exists|out: Result<Seq<Seq<char>>, LineOpError>|
                #[trigger] line_op_outcome(op, f.0, out) && match out {
                    Ok(ls) => r == Ok::<StateView, OperationError>((s.0, Some((ls, f.1, f.2)))),
                    Err(e) => r == Err::<StateView, OperationError>(OperationError::Line(e)),
                },
        },
    }
}

/// Applies one operation to the edit state.
pub fn apply_operation(op: &EditOperation, state: &mut EditState) -> (r: Result<(), OperationError>)
    ensures
        match r {
            Ok(_) => op_outcome(*op, state_view(*old(state)), Ok(state_view(*final(state)))),
            Err(e) => op_outcome(*op, state_view(*old(state)), Err(e)),
        },
        final(state).input_path == old(state).input_path,
        final(state).initial_file_existed == old(state).initial_file_existed,
{
    let ghost before = state_view(*state);
    match op {
        EditOperation::RewriteFile { content } => {
            state.file = Some(FileLines::parse(content.as_str()));
            Ok(())
        },
        EditOperation::MoveFile { to } => {
            if state.file.is_none() {
                return Err(OperationError::MoveMissingFile { path: copy_string(&state.current_path) });
            }
            let cs = to_chars(to.as_str());
            let (a, b) = trim_bounds(&cs);
            if a == b {
                return Err(OperationError::EmptyDestination);
            }
            state.current_path = string_from_range(cs.as_slice(), a, b);
            Ok(())
        },
        EditOperation::DeleteFile => {
            if state.file.is_none() {
                return Err(OperationError::DeleteMissingFile { path: copy_string(&state.current_path) });
            }
            state.file = None;
            Ok(())
        },
        _ => {
            let taken = state.file.take();
            match taken {
                None => {
                    Err(OperationError::MissingFile { path: copy_string(&state.current_path) })
                },
                Some(f) => {
                    let mut f = f;
                    let ghost fv = file_view(f);
                    let r = apply_line_operation(op, &mut f.lines);
                    match r {
                        Ok(_) => {
                            let ghost out = Ok::<Seq<Seq<char>>, LineOpError>(views(f.lines@));
                            assert(line_op_outcome(*op, fv.0, out));
                            state.file = Some(f);
                            Ok(())
                        },
                        Err(e) => {
                            let ghost out = Err::<Seq<Seq<char>>, LineOpError>(e);
                            assert(line_op_outcome(*op, fv.0, out));
                            state.file = Some(f);
                            Err(OperationError::Line(e))
                        },
                    }
                },
            }
        },
    }
}

/// `tr` lists the states after each of the first `n` operations, each one
/// succeeding, starting from `s`.
pub open spec fn trace_ok(ops: Seq<EditOperation>, s: StateView, tr: Seq<StateView>, n: int) -> bool {
    &&& 0 <= n <= ops.len()
    &&& tr.len() == n + 1
    &&& tr[0] == s
    &&& forall|k: int| 0 <= k < n ==> #[trigger] op_outcome(ops[k], tr[k], Ok::<StateView, OperationError>(tr[k + 1]))
}

/// The outcome of running the operations in order from state `s`: the final
/// state, or the 0-based index of the first operation that failed and why.
pub open spec fn run_outcome(ops: Seq<EditOperation>, s: StateView, r: Result<StateView, (int, OperationError)>) -> bool {
    match r {
        Ok(v) => exists|tr: Seq<StateView>| #[trigger] trace_ok(ops, s, tr, ops.len() as int) && tr.last() == v,
        Err((i, e)) => exists|tr: Seq<StateView>|
            #[trigger] trace_ok(ops, s, tr, i) && i < ops.len() && op_outcome(ops[i], tr.last(), Err::<StateView, OperationError>(e)),
    }
}

// ---------------------------------------------------------------------------
// Diffs
// ---------------------------------------------------------------------------

/// Kind of one diffed line.
pub enum DiffTag {
    Equal,
    Delete,
    Insert,
}

/// One line of a diff: its kind, its 0-based index in the old and new
/// text (where it occurs there), and its text with line ending.
pub struct DiffChange {
    pub tag: DiffTag,
    pub old_index: Option<usize>,
    pub new_index: Option<usize>,
    pub value: String,
}

/// One diff operation: the old and new line ranges it covers, and its lines.
pub struct DiffOpLines {
    pub old_start: usize,
    pub old_end: usize,
    pub new_start: usize,
    pub new_end: usize,
    pub changes: Vec<DiffChange>,
}

pub type ChangeView = (u8, Option<usize>, Option<usize>, Seq<char>);

pub type OpView = (usize, usize, usize, usize, Seq<ChangeView>);

pub open spec fn tag_code(t: DiffTag) -> u8 {
    match t {
        DiffTag::Equal => 0u8,
        DiffTag::Delete => 1u8,
        DiffTag::Insert => 2u8,
    }
}

pub open spec fn change_view(c: DiffChange) -> ChangeView {
    (tag_code(c.tag), c.old_index, c.new_index, c.value@)
}

pub open spec fn op_view(o: DiffOpLines) -> OpView {
    (o.old_start, o.old_end, o.new_start, o.new_end, o.changes@.map_values(|c: DiffChange| change_view(c)))
}

pub open spec fn group_view(g: Vec<DiffOpLines>) -> Seq<OpView> {
    g@.map_values(|o: DiffOpLines| op_view(o))
}

pub open spec fn groups_view(gs: Seq<Vec<DiffOpLines>>) -> Seq<Seq<OpView>> {
    gs.map_values(|g: Vec<DiffOpLines>| group_view(g))
}

/// The change groups (hunks with `context` lines around them) that the
/// `similar` crate finds in a line diff of two texts.
pub uninterp spec fn line_diff_groups(before: Seq<char>, after: Seq<char>, context: usize) -> Seq<Seq<OpView>>;

/// Calls `similar::TextDiff::from_lines(before, after).grouped_ops(context)`
/// and lists, for each operation, its ranges and the changes
/// `iter_changes` yields; the contract names that result and says nothing
/// more of it.
#[verifier::external_body]
fn similar_line_groups(before: &str, after: &str, context: usize) -> (out: Vec<Vec<DiffOpLines>>)
    ensures
        groups_view(out@) == line_diff_groups(before@, after@, context),
{
    let diff = similar::TextDiff::from_lines(before, after);
    diff.grouped_ops(context).iter().map(|group| group.iter().map(|op| DiffOpLines {
        old_start: op.old_range().start, old_end: op.old_range().end,
        new_start: op.new_range().start, new_end: op.new_range().end,
        changes: diff.iter_changes(op).map(|c| DiffChange {
            tag: match c.tag() {
                similar::ChangeTag::Equal => DiffTag::Equal,
                similar::ChangeTag::Delete => DiffTag::Delete,
                similar::ChangeTag::Insert => DiffTag::Insert,
            },
            old_index: c.old_index(), new_index: c.new_index(), value: c.value().to_string(),
        }).collect(),
    }).collect()).collect()
}

/// Lines of unchanged context around each change in a diff.
pub const HUNK_CONTEXT_LINES: usize = 5;

/// The file as a diff sees it: where it is, whether it exists, its lines.
pub struct FileSnapshot {
    pub path: String,
    pub exists: bool,
    pub lines: Vec<String>,
}

/// A snapshot of the current state.
pub fn snapshot_state(state: &EditState) -> (snap: FileSnapshot)
    ensures
        snap.path@ == state.current_path@,
        snap.exists == state.file.is_some(),
        views(snap.lines@) == match state.file {
            Some(f) => views(f.lines@),
            None => Seq::<Seq<char>>::empty(),
        },
{
    match &state.file {
        Some(file) => FileSnapshot {
            path: copy_string(&state.current_path),
            exists: true,
            lines: copy_lines(&file.lines),
        },
        None => {
            let none: Vec<String> = Vec::new();
            assert(views(none@) =~= Seq::<Seq<char>>::empty());
            FileSnapshot { path: copy_string(&state.current_path), exists: false, lines: none }
        },
    }
}

/// A copy of a list of lines.
pub fn copy_lines(lines: &Vec<String>) -> (out: Vec<String>)
    ensures
        views(out@) == views(lines@),
{
    let mut out: Vec<String> = Vec::new();
    for i in 0..lines.len()
        invariant
            views(out@) == views(lines@).take(i as int),
    {
        let c = copy_string(&lines[i]);
        proof {
            lemma_views_push(out@, c);
        }
        out.push(c);
        assert(views(lines@).take(i + 1) =~= views(lines@).take(i as int).push(lines@[i as int]@));
    }
    assert(views(lines@).take(lines@.len() as int) =~= views(lines@));
    out
}

/// `s` without the trailing run of `c`.
pub open spec fn strip_trailing(s: Seq<char>, c: char) -> Seq<char>
    decreases s.len(),
{
    if s.len() > 0 && s.last() == c {
        strip_trailing(s.drop_last(), c)
    } else {
        s
    }
}

/// A changed line's text without its line ending.
pub open spec fn change_content(v: Seq<char>) -> Seq<char> {
    strip_trailing(strip_trailing(v, '\n'), '\r')
}

fn strip_trailing_chars(cs: &Vec<char>, end: usize, c: char) -> (e: usize)
    requires
        end <= cs.len(),
    ensures
        e <= end,
        cs@.take(e as int) == strip_trailing(cs@.take(end as int), c),
{
    let mut e = end;
    while e > 0 && cs[e - 1] == c
        invariant
            e <= end <= cs.len(),
            strip_trailing(cs@.take(end as int), c) == strip_trailing(cs@.take(e as int), c),
        decreases e,
    {
        assert(cs@.take(e as int).drop_last() == cs@.take(e - 1));
        e = e - 1;
    }
    e
}

/// A changed line's text without its line ending.
pub fn change_line_content(value: &str) -> (out: String)
    ensures
        out@ == change_content(value@),
{
    let cs = to_chars(value);
    assert(cs@.take(cs@.len() as int) == cs@);
    let e1 = strip_trailing_chars(&cs, cs.len(), '\n');
    let e2 = strip_trailing_chars(&cs, e1, '\r');
    assert(cs@.subrange(0, e2 as int) == cs@.take(e2 as int));
    string_from_range(cs.as_slice(), 0, e2)
}

/// `{prefix}/{path}` for an existing file, else `/dev/null`.
pub open spec fn diff_label_text(prefix: Seq<char>, path: Seq<char>, exists: bool) -> Seq<char> {
    if exists {
        prefix + seq!['/'] + path
    } else {
        "/dev/null"@
    }
}

/// The file label in a diff header.
pub fn diff_label(prefix: &str, path: &str, exists: bool) -> (out: String)
    ensures
        out@ == diff_label_text(prefix@, path@, exists),
{
    if exists {
        let mut out = String::new();
        push_str(&mut out, prefix);
        push_char(&mut out, '/');
        push_str(&mut out, path);
        out
    } else {
        let mut out = String::new();
        push_str(&mut out, "/dev/null");
        out
    }
}

/// A hunk's first line number (1-based) as a unified diff shows it.
pub open spec fn hunk_start(start: nat, count: nat) -> nat {
    if count == 0 {
        start
    } else {
        start + 1
    }
}

/// The diff line for one change: ` `, `-` or `+`, then the hashline of the
/// line at its old index (kept or deleted) or new index (inserted).
pub open spec fn change_text(c: ChangeView) -> Seq<char> {
    let line = change_content(c.3);
    if c.0 == 0u8 {
        match c.1 {
            Some(i) => seq![' '] + hashline_text(i as nat + 1, line) + seq!['\n'],
            None => Seq::<char>::empty(),
        }
    } else if c.0 == 1u8 {
        match c.1 {
            Some(i) => seq!['-'] + hashline_text(i as nat + 1, line) + seq!['\n'],
            None => Seq::<char>::empty(),
        }
    } else {
        match c.2 {
            Some(i) => seq!['+'] + hashline_text(i as nat + 1, line) + seq!['\n'],
            None => Seq::<char>::empty(),
        }
    }
}

pub open spec fn changes_text(cs: Seq<ChangeView>) -> Seq<char>
    decreases cs.len(),
{
    if cs.len() == 0 {
        Seq::<char>::empty()
    } else {
        changes_text(cs.drop_last()) + change_text(cs.last())
    }
}

pub open spec fn ops_text(ops: Seq<OpView>) -> Seq<char>
    decreases ops.len(),
{
    if ops.len() == 0 {
        Seq::<char>::empty()
    } else {
        ops_text(ops.drop_last()) + changes_text(ops.last().4)
    }
}

pub open spec fn sat_sub(a: usize, b: usize) -> nat {
    if a >= b {
        (a - b) as nat
    } else {
        0
    }
}

/// One hunk: `@@ -start,len +start,len @@` and its lines; nothing for an
/// empty group.
pub open spec fn group_text(g: Seq<OpView>) -> Seq<char> {
    if g.len() == 0 {
        Seq::<char>::empty()
    } else {
        let old_len = sat_sub(g.last().1, g[0].0);
        let new_len = sat_sub(g.last().3, g[0].2);
        "@@ -"@ + decimal(hunk_start(g[0].0 as nat, old_len)) + seq![','] + decimal(old_len) + " +"@
            + decimal(hunk_start(g[0].2 as nat, new_len)) + seq![','] + decimal(new_len) + " @@\n"@
            + ops_text(g)
    }
}

pub open spec fn groups_text(gs: Seq<Seq<OpView>>) -> Seq<char>
    decreases gs.len(),
{
    if gs.len() == 0 {
        Seq::<char>::empty()
    } else {
        groups_text(gs.drop_last()) + group_text(gs.last())
    }
}

/// A unified patch between two snapshots whose lines are shown as
/// hashlines: the `---`/`+++` header, then each change group, or a note
/// that nothing changed.
pub open spec fn patch_text(
    before_path: Seq<char>,
    before_exists: bool,
    after_path: Seq<char>,
    after_exists: bool,
    groups: Seq<Seq<OpView>>,
) -> Seq<char> {
    "--- "@ + diff_label_text("a"@, before_path, before_exists) + seq!['\n'] + "+++ "@
        + diff_label_text("b"@, after_path, after_exists) + seq!['\n'] + if groups.len() == 0 {
        "@@ -0,0 +0,0 @@\n (no content changes)\n"@
    } else {
        groups_text(groups)
    }
}

/// The patch between two snapshots.
pub open spec fn snapshot_patch(before: FileSnapshot, after: FileSnapshot) -> Seq<char> {
    patch_text(
        before.path@,
        before.exists,
        after.path@,
        after.exists,
        line_diff_groups(join(views(before.lines@), lf()), join(views(after.lines@), lf()), HUNK_CONTEXT_LINES),
    )
}

fn push_change(out: &mut String, c: &DiffChange)
    ensures
        final(out)@ == old(out)@ + change_text(change_view(*c)),
{
    let line = change_line_content(c.value.as_str());
    let (mark, idx) = match c.tag {
        DiffTag::Equal => (' ', c.old_index),
        DiffTag::Delete => ('-', c.old_index),
        DiffTag::Insert => ('+', c.new_index),
    };
    match idx {
        Some(i) => {
            let ghost o = out@;
            push_char(out, mark);
            let h = hashline_at(i, line.as_str());
            push_str(out, h.as_str());
            push_char(out, '\n');
            assert(out@ == o + (seq![mark] + hashline_text(i as nat + 1, line@) + seq!['\n']));
        },
        None => {
            assert(change_text(change_view(*c)) =~= Seq::<char>::empty());
        },
    }
}

fn push_op_changes(out: &mut String, op: &DiffOpLines)
    ensures
        final(out)@ == old(out)@ + changes_text(op_view(*op).4),
{
    let ghost start = out@;
    let ghost cs = op_view(*op).4;
    for k in 0..op.changes.len()
        invariant
            cs == op.changes@.map_values(|c: DiffChange| change_view(c)),
            out@ == start + changes_text(cs.take(k as int)),
    {
        push_change(out, &op.changes[k]);
        assert(cs.take(k + 1).drop_last() =~= cs.take(k as int));
    }
    assert(cs.take(op.changes.len() as int) =~= cs);
}

#[verifier::spinoff_prover]
#[verifier::rlimit(40)]
fn push_group(out: &mut String, g: &Vec<DiffOpLines>)
    ensures
        final(out)@ == old(out)@ + group_text(group_view(*g)),
{
    let ghost gv = group_view(*g);
    if g.len() == 0 {
        return;
    }
    let first = &g[0];
    let last = &g[g.len() - 1];
    let old_len = if last.old_end >= first.old_start { last.old_end - first.old_start } else { 0 };
    let new_len = if last.new_end >= first.new_start { last.new_end - first.new_start } else { 0 };
    let ghost o = out@;
    push_str(out, "@@ -");
    push_hunk_start(out, first.old_start, old_len);
    push_char(out, ',');
    push_usize(out, old_len);
    push_str(out, " +");
    push_hunk_start(out, first.new_start, new_len);
    push_char(out, ',');
    push_usize(out, new_len);
    push_str(out, " @@\n");
    let ghost head = out@;
    for k in 0..g.len()
        invariant
            gv == group_view(*g),
            out@ == head + ops_text(gv.take(k as int)),
    {
        push_op_changes(out, &g[k]);
        assert(gv.take(k + 1).drop_last() =~= gv.take(k as int));
    }
    assert(gv.take(g.len() as int) =~= gv);
}

fn push_hunk_start(out: &mut String, start: usize, count: usize)
    ensures
        final(out)@ == old(out)@ + decimal(hunk_start(start as nat, count as nat)),
{
    if count == 0 {
        push_usize(out, start);
    } else {
        push_successor(out, start);
    }
}

/// Renders the unified patch between two snapshots, each line shown as a
/// hashline.
pub fn render_unified_patch(before: &FileSnapshot, after: &FileSnapshot) -> (out: String)
    ensures
        out@ == snapshot_patch(*before, *after),
{
    let mut out = String::new();
    push_str(&mut out, "--- ");
    let la = diff_label("a", before.path.as_str(), before.exists);
    push_str(&mut out, la.as_str());
    push_char(&mut out, '\n');
    push_str(&mut out, "+++ ");
    let lb = diff_label("b", after.path.as_str(), after.exists);
    push_str(&mut out, lb.as_str());
    push_char(&mut out, '\n');
    let before_text = join_strings(&before.lines, "\n");
    let after_text = join_strings(&after.lines, "\n");
    proof {
        reveal_strlit("\n");
    }
    assert("\n"@ == lf());
    let groups = similar_line_groups(before_text.as_str(), after_text.as_str(), HUNK_CONTEXT_LINES);
    let rest = patch_body(&groups);
    push_str(&mut out, rest.as_str());
    out
}

/// The text of a patch after its header: each change group as a hunk, or a
/// note that nothing changed when there is no group.
pub fn patch_body(groups: &Vec<Vec<DiffOpLines>>) -> (out: String)
    ensures
        out@ == (if groups@.len() == 0 {
            "@@ -0,0 +0,0 @@\n (no content changes)\n"@
        } else {
            groups_text(groups_view(groups@))
        }),
{
    let mut out = String::new();
    let ghost gs = groups_view(groups@);
    if groups.len() == 0 {
        push_str(&mut out, "@@ -0,0 +0,0 @@\n (no content changes)\n");
        return out;
    }
    for k in 0..groups.len()
        invariant
            gs == groups_view(groups@),
            out@ == groups_text(gs.take(k as int)),
    {
        push_group(&mut out, &groups[k]);
        assert(gs.take(k + 1).drop_last() =~= gs.take(k as int));
    }
    assert(gs.take(groups.len() as int) =~= gs);
    out
}

// ---------------------------------------------------------------------------
// The tool
// ---------------------------------------------------------------------------

/// The tool's input: a path (relative to the working directory) and the
/// operations to apply in order.
pub struct EditInput {
    pub path: String,
    pub operations: Vec<EditOperation>,
}

/// What an edit did.
pub struct EditOutput {
    pub input_path: String,
    pub path: String,
    pub deleted: bool,
    pub operations_applied: usize,
    pub final_diff: String,
}

/// Why an edit was refused.
pub enum EditError {
    /// The input lists no operations.
    NoOperations,
    /// The path is blank.
    EmptyPath,
    /// Operation number `index` (1-based) of kind `kind` failed.
    OperationFailed { index: usize, kind: &'static str, cause: OperationError },
}

/// The path an edit works on (trimmed), or why the input is refused: no
/// operations, or a blank path.
pub fn edit_target(input: &EditInput) -> (r: Result<String, EditError>)
    ensures
        input.operations@.len() == 0 ==> r matches Err(EditError::NoOperations),
        input.operations@.len() > 0 && trim(input.path@).len() == 0 ==> r matches Err(EditError::EmptyPath),
        input.operations@.len() > 0 && trim(input.path@).len() > 0 ==> (r matches Ok(p) && p@ == trim(input.path@)),
{
    if input.operations.len() == 0 {
        return Err(EditError::NoOperations);
    }
    let cs = to_chars(input.path.as_str());
    let (a, b) = trim_bounds(&cs);
    if a == b {
        return Err(EditError::EmptyPath);
    }
    Ok(string_from_range(cs.as_slice(), a, b))
}

/// The initial state of a file at `path`, whose text is `content` when it
/// exists.
pub open spec fn initial_view(path: Seq<char>, content: Option<Seq<char>>) -> StateView {
    (path, match content {
        Some(c) => Some(parsed_view(c)),
        None => None::<(Seq<Seq<char>>, Seq<char>, bool)>,
    })
}

/// The text of an optional string slice.
pub open spec fn opt_text(content: Option<&str>) -> Option<Seq<char>> {
    match content {
        Some(c) => Some(c@),
        None => None,
    }
}

/// The lines of a state's file (none when it does not exist).
pub open spec fn view_lines(s: StateView) -> Seq<Seq<char>> {
    match s.1 {
        Some(f) => f.0,
        None => Seq::<Seq<char>>::empty(),
    }
}

/// The diff between two states.
pub open spec fn state_patch(before: StateView, after: StateView) -> Seq<char> {
    patch_text(
        before.0,
        before.1.is_some(),
        after.0,
        after.1.is_some(),
        line_diff_groups(join(view_lines(before), lf()), join(view_lines(after), lf()), HUNK_CONTEXT_LINES),
    )
}

/// Runs the operations of an edit on the file at `path` (its text is
/// `content`, or `None` when it does not exist): the final state to
/// persist and the tool's output, or the first failing operation.
pub fn apply_edit(input: &EditInput, path: &str, content: Option<&str>) -> (r: Result<(EditState, EditOutput), EditError>)
    ensures
        exists|run: Result<StateView, (int, OperationError)>|
            #[trigger] run_outcome(input.operations@, initial_view(path@, opt_text(content)), run) && match run {
                Err((i, e)) => r matches Err(EditError::OperationFailed { index, kind, cause })
                    && index == i + 1 && kind@ == kind_name(input.operations@[i]) && cause == e,
                Ok(v) => r matches Ok((st, out)) && state_view(st) == v
                    && st.input_path@ == path@
                    && st.initial_file_existed == content.is_some()
                    && out.input_path@ == path@
                    && out.path@ == v.0
                    && out.deleted == v.1.is_none()
                    && out.operations_applied == input.operations@.len()
                    && out.final_diff@ == state_patch(initial_view(path@, opt_text(content)), v),
            },
{
    let ghost ops = input.operations@;
    let mut state = EditState::load(path, content);
    let ghost init = state_view(state);
    assert(init == initial_view(path@, opt_text(content)));
    let initial_snapshot = snapshot_state(&state);
    let ghost mut tr: Seq<StateView> = seq![init];
    let mut i: usize = 0;
    while i < input.operations.len()
        invariant
            ops == input.operations@,
            init == initial_view(path@, opt_text(content)),
            i <= ops.len(),
            trace_ok(ops, init, tr, i as int),
            tr.last() == state_view(state),
            state.input_path@ == path@,
            state.initial_file_existed == content.is_some(),
        decreases ops.len() - i,
    {
        let op = &input.operations[i];
        let ghost before = state_view(state);
        match apply_operation(op, &mut state) {
            Ok(_) => {
                let ghost tr2 = tr.push(state_view(state));
                assert forall|k: int| 0 <= k < i + 1 implies #[trigger] op_outcome(ops[k], tr2[k], Ok::<StateView, OperationError>(tr2[k + 1])) by {
                    if k < i {
                        assert(tr2[k] == tr[k] && tr2[k + 1] == tr[k + 1]);
                    }
                }
                proof {
                    tr = tr2;
                }
            },
            Err(e) => {
                let ghost ge = e;
                let ghost rr = Err::<StateView, (int, OperationError)>((i as int, ge));
                assert(rr->Err_0.0 == i as int && rr->Err_0.1 == ge);
                assert(*op == ops[i as int]);
                assert(op_outcome(ops[i as int], tr.last(), Err::<StateView, OperationError>(ge)));
                assert(trace_ok(ops, init, tr, i as int));
                assert(run_outcome(ops, init, rr));
                let k = op.kind();
                let res: Result<(EditState, EditOutput), EditError> = Err(EditError::OperationFailed { index: i + 1, kind: k, cause: e });
                assert(res matches Err(EditError::OperationFailed { index, kind, cause })
                    && index == rr->Err_0.0 + 1 && kind@ == kind_name(ops[rr->Err_0.0]) && cause == rr->Err_0.1);
                return res;
            },
        }
        i = i + 1;
    }
    assert(run_outcome(ops, init, Ok::<StateView, (int, OperationError)>(state_view(state))));
    let final_snapshot = snapshot_state(&state);
    let final_diff = render_unified_patch(&initial_snapshot, &final_snapshot);
    let output = EditOutput {
        input_path: path.to_owned(),
        path: copy_string(&state.current_path),
        deleted: state.file.is_none(),
        operations_applied: input.operations.len(),
        final_diff,
    };
    Ok((state, output))
}

/// A file-system step of persisting an edit.
pub enum FsAction {
    /// Write `content` to `path`, creating parent directories.
    Write { path: String, content: String },
    /// Remove the file at `path` if it exists.
    Remove { path: String },
}

/// Why an edit cannot be persisted.
pub enum PersistError {
    /// The file was moved onto a path that already exists.
    DestinationExists { path: String },
}

/// The file-system steps that persist an edit state: a moved file may not
/// land on an existing path; a remaining file is written (a file without
/// lines loses its final newline) and, when moved, its old copy removed; a
/// deleted file that existed is removed. `moved` tells whether the final
/// path differs from the input path; `destination_exists` whether the
/// final path exists.
pub fn persist_actions(state: &mut EditState, moved: bool, destination_exists: bool) -> (r: Result<Vec<FsAction>, PersistError>)
    ensures
        match old(state).file {
            Some(f) => if moved && destination_exists {
                r matches Err(PersistError::DestinationExists { path }) && path@ == old(state).current_path@
            } else {
                let trailing = f.trailing_newline && f.lines@.len() > 0;
                r matches Ok(acts) && acts@.len() == (if moved && old(state).initial_file_existed { 2int } else { 1int })
                    && (acts@[0] matches FsAction::Write { path, content } && path@ == old(state).current_path@
                        && content@ == crate::hashline::rendered(views(f.lines@), f.line_ending@, trailing))
                    && (acts@.len() == 2 ==> (acts@[1] matches FsAction::Remove { path } && path@ == old(state).input_path@))
            },
            None => r matches Ok(acts) && acts@.len() == (if old(state).initial_file_existed { 1int } else { 0int })
                && (acts@.len() == 1 ==> (acts@[0] matches FsAction::Remove { path } && path@ == old(state).input_path@)),
        },
        final(state).current_path == old(state).current_path,
        final(state).input_path == old(state).input_path,
{
    let mut acts: Vec<FsAction> = Vec::new();
    let taken = state.file.take();
    match taken {
        Some(f) => {
            let mut f = f;
            if moved && destination_exists {
                state.file = Some(f);
                return Err(PersistError::DestinationExists { path: copy_string(&state.current_path) });
            }
            if f.lines.len() == 0 {
                f.trailing_newline = false;
            }
            let content = f.render();
            acts.push(FsAction::Write { path: copy_string(&state.current_path), content });
            if moved && state.initial_file_existed {
                acts.push(FsAction::Remove { path: copy_string(&state.input_path) });
            }
            state.file = Some(f);
            Ok(acts)
        },
        None => {
            if state.initial_file_existed {
                acts.push(FsAction::Remove { path: copy_string(&state.input_path) });
            }
            Ok(acts)
        },
    }
}

pub open spec fn edit_summary(out: EditOutput) -> Seq<char> {
    if out.deleted {
        "deleted "@ + out.path@
    } else if out.input_path@ != out.path@ {
        "edited "@ + out.input_path@ + " -> "@ + out.path@ + " with "@ + decimal(out.operations_applied as nat)
            + " operation(s)"@
    } else {
        "edited "@ + out.path@ + " with "@ + decimal(out.operations_applied as nat) + " operation(s)"@
    }
}

fn push_edit_summary(s: &mut String, out: &EditOutput)
    ensures
        final(s)@ == old(s)@ + edit_summary(*out),
{
    let ghost o = s@;
    if out.deleted {
        push_str(s, "deleted ");
        push_str(s, out.path.as_str());
    } else if out.input_path != out.path {
        push_str(s, "edited ");
        push_str(s, out.input_path.as_str());
        push_str(s, " -> ");
        push_str(s, out.path.as_str());
        push_str(s, " with ");
        push_usize(s, out.operations_applied);
        push_str(s, " operation(s)");
    } else {
        push_str(s, "edited ");
        push_str(s, out.path.as_str());
        push_str(s, " with ");
        push_usize(s, out.operations_applied);
        push_str(s, " operation(s)");
    }
}

impl ToolOutput for EditOutput {
    /// The summary, then the final diff when there is one.
    fn to_llm(&self) -> (r: String)
        ensures
            r@ == if self.final_diff@.len() == 0 {
                edit_summary(*self)
            } else {
                edit_summary(*self) + "\n\nfinal diff (hashline-formatted):\n"@ + self.final_diff@
            },
    {
        let mut s = String::new();
        push_edit_summary(&mut s, self);
        if self.final_diff.as_str().is_empty() {
            s
        } else {
            push_str(&mut s, "\n\nfinal diff (hashline-formatted):\n");
            push_str(&mut s, self.final_diff.as_str());
            s
        }
    }
}

/// The diff as a display body, or none for an empty diff.
pub fn render_diff_body(diff: &str) -> (b: Option<DisplayBody>)
    ensures
        diff@.len() == 0 ==> b is None,
        diff@.len() > 0 ==> (b matches Some(DisplayBody::Diff(d)) && d@ == diff@),
{
    if diff.is_empty() {
        None
    } else {
        Some(DisplayBody::Diff(diff.to_owned()))
    }
}

/// Title of an edit invocation: `Edit {path} ({n} operations)`.
pub fn edit_render_input(input: &EditInput) -> (d: ToolCallDisplay)
    ensures
        d.title@ == "Edit "@ + input.path@ + " ("@ + decimal(input.operations@.len()) + " operations)"@,
        d.body is None,
{
    let mut t = String::new();
    push_str(&mut t, "Edit ");
    push_str(&mut t, input.path.as_str());
    push_str(&mut t, " (");
    push_usize(&mut t, input.operations.len());
    push_str(&mut t, " operations)");
    ToolCallDisplay { title: t, body: None }
}

/// Title of an edit result, with the diff as body.
pub open spec fn edit_result_title(out: EditOutput) -> Seq<char> {
    if out.deleted {
        "Deleted "@ + out.path@
    } else if out.input_path@ != out.path@ {
        "Edited "@ + out.input_path@ + " -> "@ + out.path@ + " ("@ + decimal(out.operations_applied as nat)
            + " operations)"@
    } else {
        "Edited "@ + out.path@ + " ("@ + decimal(out.operations_applied as nat) + " operations)"@
    }
}

/// How an edit result is shown: a title saying what happened, and the diff.
pub fn edit_render_output(out: &EditOutput) -> (d: ToolResultDisplay)
    ensures
        d.title@ == edit_result_title(*out),
        out.final_diff@.len() == 0 ==> d.body is None,
        out.final_diff@.len() > 0 ==> (d.body matches Some(DisplayBody::Diff(x)) && x@ == out.final_diff@),
{
    let mut t = String::new();
    if out.deleted {
        push_str(&mut t, "Deleted ");
        push_str(&mut t, out.path.as_str());
    } else if out.input_path != out.path {
        push_str(&mut t, "Edited ");
        push_str(&mut t, out.input_path.as_str());
        push_str(&mut t, " -> ");
        push_str(&mut t, out.path.as_str());
        push_str(&mut t, " (");
        push_usize(&mut t, out.operations_applied);
        push_str(&mut t, " operations)");
    } else {
        push_str(&mut t, "Edited ");
        push_str(&mut t, out.path.as_str());
        push_str(&mut t, " (");
        push_usize(&mut t, out.operations_applied);
        push_str(&mut t, " operations)");
    }
    ToolResultDisplay { title: t, body: render_diff_body(out.final_diff.as_str()) }
}

/// The edit tool, editing under a working directory; its description text is
/// given when it is made.
#[derive(Clone)]
pub struct EditTool {
    pub cwd: String,
    pub description: String,
}

impl EditTool {
    pub fn name(&self) -> (n: &'static str)
        ensures
            n@ == "edit"@,
    {
        "edit"
    }

    pub fn description(&self) -> (d: &str)
        ensures
            d@ == self.description@,
    {
        self.description.as_str()
    }

    pub fn render_input(&self, input: &EditInput) -> (d: ToolCallDisplay)
        ensures
            d.title@ == "Edit "@ + input.path@ + " ("@ + decimal(input.operations@.len()) + " operations)"@,
            d.body is None,
    {
        edit_render_input(input)
    }

    pub fn render_output(&self, _input: &EditInput, output: &EditOutput) -> (d: ToolResultDisplay)
        ensures
            d.title@ == edit_result_title(*output),
            output.final_diff@.len() == 0 ==> d.body is None,
            output.final_diff@.len() > 0 ==> (d.body matches Some(DisplayBody::Diff(x)) && x@
                == output.final_diff@),
    {
        edit_render_output(output)
    }

    pub fn render_llm_output(&self, _input: &EditInput, output: &EditOutput) -> (r: String)
        ensures
            r@ == if output.final_diff@.len() == 0 {
                edit_summary(*output)
            } else {
                edit_summary(*output) + "\n\nfinal diff (hashline-formatted):\n"@ + output.final_diff@
            },
    {
        output.to_llm()
    }
}

} // verus!
