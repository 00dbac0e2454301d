//! The read tool: a window of a file's lines, each shown as a hashline.

use vstd::prelude::*;

use crate::event::{DisplayBody, ToolCallDisplay, ToolOutput, ToolResultDisplay};
use crate::hashline::{
    hashline_at, hashline_text, join, join_strings, lemma_views_push, lf, parsed_lines, views,
    FileLines, MAX_READ_LIMIT,
};
use crate::text::{decimal, push_char, push_str, push_usize, to_chars};

verus! {

/// Number of lines a read returns when the input sets no limit.
pub const DEFAULT_READ_LIMIT: usize = 2000;

/// The tool's input.
pub struct ReadInput {
    /// The file path, relative to the working directory.
    pub path: String,
    /// 0-based line offset to start reading from.
    pub offset: Option<usize>,
    /// Max number of lines to return.
    pub limit: Option<usize>,
}

/// What a read returns.
pub struct ReadOutput {
    pub path: String,
    pub content: String,
    pub offset: usize,
    pub limit: usize,
    pub returned_lines: usize,
    pub total_lines: usize,
    pub has_more: bool,
}

/// Why a read was refused.
pub enum ReadError {
    /// The input asked for zero lines.
    ZeroLimit,
}

pub open spec fn min(a: int, b: int) -> int {
    if a < b {
        a
    } else {
        b
    }
}

/// The hashlines of `ls[from..to]`, joined by newlines.
pub open spec fn window_text(ls: Seq<Seq<char>>, from: int, to: int) -> Seq<char> {
    join(Seq::new((to - from) as nat, |k: int| hashline_text((from + k + 1) as nat, ls[from + k])), lf())
}

/// What reading a file with text `text` gives for `input`.
pub open spec fn read_outcome(input: ReadInput, text: Seq<char>, r: Result<ReadOutput, ReadError>) -> bool {
            let ls = parsed_lines(text);
            let total = ls.len() as int;
            let offset = min(match input.offset { Some(o) => o as int, None => 0 }, total);
            let req = match input.limit { Some(l) => l as int, None => DEFAULT_READ_LIMIT as int };
            let limit = min(req, MAX_READ_LIMIT as int);
            let end = min(offset + limit, total);
            if req == 0 {
                r matches Err(ReadError::ZeroLimit)
            } else {
                r matches Ok(out) && out.path@ == input.path@ && out.offset == offset && out.limit == limit
                    && out.total_lines == total && out.returned_lines == end - offset
                    && out.has_more == (end < total) && out.content@ == window_text(ls, offset, end)
            }
}

/// The read tool's work on a file's text: the requested window (offset
/// clamped to the file, limit defaulting to `DEFAULT_READ_LIMIT` and capped
/// at `MAX_READ_LIMIT`), each line shown as a hashline.
pub fn read_window(input: &ReadInput, text: &str) -> (r: Result<ReadOutput, ReadError>)
    ensures
        read_outcome(*input, text@, r),
{
    let file = FileLines::parse(text);
    let lines = file.lines;
    let ghost ls = views(lines@);
    let total = lines.len();
    let offset = match input.offset {
        Some(o) => if o < total { o } else { total },
        None => 0,
    };
    let requested = match input.limit {
        Some(l) => l,
        None => DEFAULT_READ_LIMIT,
    };
    if requested == 0 {
        return Err(ReadError::ZeroLimit);
    }
    let limit = if requested < MAX_READ_LIMIT { requested } else { MAX_READ_LIMIT };
    let end = if limit <= total - offset { offset + limit } else { total };
    let mut shown: Vec<String> = Vec::new();
    let mut k = offset;
    while k < end
        invariant
            offset <= k <= end <= total == lines@.len(),
            ls == views(lines@),
            views(shown@) == Seq::new((k - offset) as nat, |j: int| hashline_text((offset + j + 1) as nat, ls[offset + j])),
        decreases end - k,
    {
        let h = hashline_at(k, lines[k].as_str());
        proof {
            lemma_views_push(shown@, h);
        }
        shown.push(h);
        assert(views(shown@) =~= Seq::new((k + 1 - offset) as nat, |j: int| hashline_text((offset + j + 1) as nat, ls[offset + j])));
        k = k + 1;
    }
    let content = join_strings(&shown, "\n");
    proof {
        reveal_strlit("\n");
    }
    assert("\n"@ == lf());
    Ok(ReadOutput {
        path: input.path.clone(),
        content,
        offset,
        limit,
        returned_lines: end - offset,
        total_lines: total,
        has_more: end < total,
    })
}

/// A read returns as many lines as it may: from its offset, `limit` lines,
/// or every line left when fewer remain, so a read whose limit covers the
/// rest of the file returns all of it (the last line included) and has
/// nothing more; there is more exactly when lines remain after the window.
/// The content shows each returned line, numbered from the offset.
pub proof fn law_read_returns_all_it_may(input: ReadInput, text: Seq<char>, r: Result<ReadOutput, ReadError>)
    requires
        read_outcome(input, text, r),
        r is Ok,
    ensures
        ({
            let out = r->Ok_0;
            let rest = out.total_lines - out.offset;
            &&& out.total_lines == parsed_lines(text).len()
            &&& out.offset == match input.offset {
                Some(o) => if o <= out.total_lines { o as int } else { out.total_lines as int },
                None => 0int,
            }
            &&& out.limit == match input.limit {
                Some(l) => if l <= MAX_READ_LIMIT { l as int } else { MAX_READ_LIMIT as int },
                None => DEFAULT_READ_LIMIT as int,
            }
            &&& out.offset <= out.total_lines
            &&& out.limit >= 1
            &&& out.returned_lines == (if out.limit <= rest { out.limit as int } else { rest })
            &&& out.has_more <==> out.offset + out.returned_lines < out.total_lines
            &&& !out.has_more ==> out.offset + out.returned_lines == out.total_lines
            &&& out.limit >= rest ==> !out.has_more && out.returned_lines == rest
            &&& out.content@ == join(
                Seq::new(
                    out.returned_lines as nat,
                    |k: int| hashline_text((out.offset + k + 1) as nat, parsed_lines(text)[out.offset + k]),
                ),
                lf(),
            )
        }),
{
}

/// `true` or `false`.
pub open spec fn bool_text(b: bool) -> Seq<char> {
    if b {
        "true"@
    } else {
        "false"@
    }
}

fn push_bool(s: &mut String, b: bool)
    ensures
        final(s)@ == old(s)@ + bool_text(b),
{
    if b {
        push_str(s, "true");
    } else {
        push_str(s, "false");
    }
}

/// Appends the decimal digits of `a + b`.
pub fn push_sum(s: &mut String, a: usize, b: usize)
    ensures
        final(s)@ == old(s)@ + decimal(a as nat + b as nat),
{
    let ds = crate::text::decimal_chars(a as u128 + b as u128);
    crate::text::push_chars(s, ds.as_slice());
}

/// The text the model sees of a read.
pub open spec fn read_llm_text(o: ReadOutput) -> Seq<char> {
    "path: "@ + o.path@ + "\nformat: line:hash|content\noffset: "@ + decimal(o.offset as nat)
        + "\nlimit: "@ + decimal(o.limit as nat) + "\nreturned_lines: "@ + decimal(o.returned_lines as nat)
        + "\ntotal_lines: "@ + decimal(o.total_lines as nat) + "\nhas_more: "@ + bool_text(o.has_more)
        + (if o.has_more {
        "\nnext_offset: "@ + decimal(o.offset as nat + o.returned_lines as nat)
    } else {
        Seq::<char>::empty()
    }) + (if o.content@.len() == 0 {
        "\n\n(no lines in requested range)"@
    } else {
        "\n\n"@ + o.content@
    })
}

impl ToolOutput for ReadOutput {
    /// A header of `key: value` lines, then the content.
    fn to_llm(&self) -> (r: String)
        ensures
            r@ == read_llm_text(*self),
    {
        let mut s = String::new();
        push_str(&mut s, "path: ");
        push_str(&mut s, self.path.as_str());
        push_str(&mut s, "\nformat: line:hash|content\noffset: ");
        push_usize(&mut s, self.offset);
        push_str(&mut s, "\nlimit: ");
        push_usize(&mut s, self.limit);
        push_str(&mut s, "\nreturned_lines: ");
        push_usize(&mut s, self.returned_lines);
        push_str(&mut s, "\ntotal_lines: ");
        push_usize(&mut s, self.total_lines);
        push_str(&mut s, "\nhas_more: ");
        push_bool(&mut s, self.has_more);
        let ghost head = s@;
        if self.has_more {
            push_str(&mut s, "\nnext_offset: ");
            push_sum(&mut s, self.offset, self.returned_lines);
        }
        let ghost mid = s@;
        if self.content.as_str().is_empty() {
            push_str(&mut s, "\n\n(no lines in requested range)");
        } else {
            push_str(&mut s, "\n\n");
            push_str(&mut s, self.content.as_str());
        }
        s
    }
}

/// Title of a read invocation: `Read {path} (offset {o}, limit {l})`.
pub fn read_render_input(input: &ReadInput) -> (d: ToolCallDisplay)
    ensures
        d.title@ == "Read "@ + input.path@ + " (offset "@ + decimal(match input.offset { Some(o) => o as nat, None => 0 })
            + ", limit "@ + decimal(match input.limit { Some(l) => l as nat, None => DEFAULT_READ_LIMIT as nat }) + ")"@,
        d.body is None,
{
    let offset = match input.offset {
        Some(o) => o,
        None => 0,
    };
    let limit = match input.limit {
        Some(l) => l,
        None => DEFAULT_READ_LIMIT,
    };
    let mut t = String::new();
    push_str(&mut t, "Read ");
    push_str(&mut t, input.path.as_str());
    push_str(&mut t, " (offset ");
    push_usize(&mut t, offset);
    push_str(&mut t, ", limit ");
    push_usize(&mut t, limit);
    push_str(&mut t, ")");
    ToolCallDisplay { title: t, body: None }
}

/// Title of a read result.
pub open spec fn read_result_title(o: ReadOutput) -> Seq<char> {
    (if o.returned_lines == 0 {
        "0 lines (offset "@ + decimal(o.offset as nat) + " / "@ + decimal(o.total_lines as nat) + ")"@
    } else {
        decimal(o.returned_lines as nat) + " lines ("@ + decimal(o.offset as nat + 1) + "-"@ + decimal(
            o.offset as nat + o.returned_lines as nat,
        ) + " / "@ + decimal(o.total_lines as nat) + ")"@
    }) + if o.has_more {
        " • more available"@
    } else {
        Seq::<char>::empty()
    }
}

/// How a read result is shown: the range read, and the content as code in
/// the language the extension suggests.
pub fn read_render_output(o: &ReadOutput) -> (d: ToolResultDisplay)
    ensures
        d.title@ == read_result_title(*o),
        d.body matches Some(DisplayBody::Code { language, content }) && content@ == o.content@
            && match language {
                Some(l) => lang_of(o.path@) == Some(l@),
                None => lang_of(o.path@) is None,
            },
{
    let mut t = String::new();
    if o.returned_lines == 0 {
        push_str(&mut t, "0 lines (offset ");
        push_usize(&mut t, o.offset);
        push_str(&mut t, " / ");
        push_usize(&mut t, o.total_lines);
        push_str(&mut t, ")");
    } else {
        push_usize(&mut t, o.returned_lines);
        push_str(&mut t, " lines (");
        crate::text::push_successor(&mut t, o.offset);
        push_str(&mut t, "-");
        push_sum(&mut t, o.offset, o.returned_lines);
        push_str(&mut t, " / ");
        push_usize(&mut t, o.total_lines);
        push_str(&mut t, ")");
    }
    if o.has_more {
        push_str(&mut t, " • more available");
    }
    ToolResultDisplay {
        title: t,
        body: Some(DisplayBody::Code { language: lang_from_ext(o.path.as_str()), content: o.content.clone() }),
    }
}

/// The part of a path after its last `.` (the whole path when it has none).
pub open spec fn extension(path: Seq<char>) -> Seq<char>
    decreases path.len(),
{
    if path.len() == 0 {
        path
    } else if path.last() == '.' {
        Seq::<char>::empty()
    } else {
        extension(path.drop_last()).push(path.last())
    }
}

/// The language a file extension suggests.
pub open spec fn lang_of(path: Seq<char>) -> Option<Seq<char>> {
    let e = extension(path);
    if e == "rs"@ {
        Some("rust"@)
    } else if e == "ts"@ || e == "tsx"@ {
        Some("typescript"@)
    } else if e == "js"@ || e == "jsx"@ {
        Some("javascript"@)
    } else if e == "py"@ {
        Some("python"@)
    } else if e == "rb"@ {
        Some("ruby"@)
    } else if e == "go"@ {
        Some("go"@)
    } else if e == "java"@ {
        Some("java"@)
    } else if e == "c"@ || e == "h"@ {
        Some("c"@)
    } else if e == "cpp"@ || e == "cc"@ || e == "cxx"@ || e == "hpp"@ {
        Some("cpp"@)
    } else if e == "sh"@ || e == "bash"@ {
        Some("bash"@)
    } else if e == "json"@ {
        Some("json"@)
    } else if e == "yaml"@ || e == "yml"@ {
        Some("yaml"@)
    } else if e == "toml"@ {
        Some("toml"@)
    } else if e == "md"@ {
        Some("markdown"@)
    } else if e == "html"@ || e == "htm"@ {
        Some("html"@)
    } else if e == "css"@ {
        Some("css"@)
    } else if e == "sql"@ {
        Some("sql"@)
    } else if e == "xml"@ {
        Some("xml"@)
    } else {
        None
    }
}

fn str_eq(a: &str, b: &str) -> (r: bool)
    ensures
        r == (a@ == b@),
{
    let x = a.to_owned();
    let y = b.to_owned();
    x == y
}

/// Guesses a language name from a file extension.
pub fn lang_from_ext(path: &str) -> (r: Option<String>)
    ensures
        match r {
            Some(l) => lang_of(path@) == Some(l@),
            None => lang_of(path@) is None,
        },
{
    let cs = to_chars(path);
    let mut k = cs.len();
    assert(cs@.take(k as int) == cs@);
    assert(cs@.subrange(k as int, k as int) =~= Seq::<char>::empty());
    assert(extension(cs@) == extension(cs@.take(k as int)) + cs@.subrange(k as int, cs.len() as int));
    while k > 0 && cs[k - 1] != '.'
        invariant
            k <= cs.len(),
            extension(cs@) == extension(cs@.take(k as int)) + cs@.subrange(k as int, cs.len() as int),
        decreases k,
    {
        assert(cs@.take(k as int).drop_last() == cs@.take(k - 1));
        assert(cs@.subrange(k - 1, cs.len() as int) == seq![cs@[k - 1]] + cs@.subrange(k as int, cs.len() as int));
        k = k - 1;
    }
    assert(extension(cs@.take(k as int)) == Seq::<char>::empty()) by {
        if k > 0 {
            assert(cs@.take(k as int).last() == '.');
        }
    }
    assert(cs@.take(cs@.len() as int) == cs@);
    let ext_s = crate::text::string_from_range(cs.as_slice(), k, cs.len());
    let e = ext_s.as_str();
    assert(e@ == extension(path@));
    let lang = if str_eq(e, "rs") {
        "rust"
    } else if str_eq(e, "ts") || str_eq(e, "tsx") {
        "typescript"
    } else if str_eq(e, "js") || str_eq(e, "jsx") {
        "javascript"
    } else if str_eq(e, "py") {
        "python"
    } else if str_eq(e, "rb") {
        "ruby"
    } else if str_eq(e, "go") {
        "go"
    } else if str_eq(e, "java") {
        "java"
    } else if str_eq(e, "c") || str_eq(e, "h") {
        "c"
    } else if str_eq(e, "cpp") || str_eq(e, "cc") || str_eq(e, "cxx") || str_eq(e, "hpp") {
        "cpp"
    } else if str_eq(e, "sh") || str_eq(e, "bash") {
        "bash"
    } else if str_eq(e, "json") {
        "json"
    } else if str_eq(e, "yaml") || str_eq(e, "yml") {
        "yaml"
    } else if str_eq(e, "toml") {
        "toml"
    } else if str_eq(e, "md") {
        "markdown"
    } else if str_eq(e, "html") || str_eq(e, "htm") {
        "html"
    } else if str_eq(e, "css") {
        "css"
    } else if str_eq(e, "sql") {
        "sql"
    } else if str_eq(e, "xml") {
        "xml"
    } else {
        return None;
    };
    Some(lang.to_owned())
}

/// The read tool, reading under a working directory; its description text
/// is given when it is made.
#[derive(Clone)]
pub struct ReadTool {
    pub cwd: String,
    pub description: String,
}

impl ReadTool {
    pub fn name(&self) -> (n: &'static str)
        ensures
            n@ == "read"@,
    {
        "read"
    }

    pub fn description(&self) -> (d: &str)
        ensures
            d@ == self.description@,
    {
        self.description.as_str()
    }

    /// The result of reading a file whose text is `text`.
    pub fn call_on_text(&self, input: &ReadInput, text: &str) -> (r: Result<ReadOutput, ReadError>)
        ensures
            read_outcome(*input, text@, r),
    {
        read_window(input, text)
    }

    pub fn render_input(&self, input: &ReadInput) -> (d: ToolCallDisplay)
        ensures
            d.title@ == "Read "@ + input.path@ + " (offset "@ + decimal(match input.offset { Some(o) => o as nat, None => 0 })
                + ", limit "@ + decimal(match input.limit { Some(l) => l as nat, None => DEFAULT_READ_LIMIT as nat }) + ")"@,
            d.body is None,
    {
        read_render_input(input)
    }

    pub fn render_output(&self, _input: &ReadInput, output: &ReadOutput) -> (d: ToolResultDisplay)
        ensures
            d.title@ == read_result_title(*output),
            d.body matches Some(DisplayBody::Code { language, content }) && content@ == output.content@
                && match language {
                    Some(l) => lang_of(output.path@) == Some(l@),
                    None => lang_of(output.path@) is None,
                },
    {
        read_render_output(output)
    }

    pub fn render_llm_output(&self, _input: &ReadInput, output: &ReadOutput) -> (r: String)
        ensures
            r@ == read_llm_text(*output),
    {
        output.to_llm()
    }
}

} // verus!
