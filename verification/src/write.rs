//! The write tool: what it reports of writing a whole file.

use vstd::prelude::*;
use vstd::string::StringSliceAdditionalSpecFns;

use crate::event::{ToolCallDisplay, ToolOutput, ToolResultDisplay};
use crate::text::{decimal, push_str, push_usize, to_chars, utf8_len};

verus! {

/// The tool's input.
#[derive(Clone)]
pub struct WriteInput {
    /// The file path to write, relative to the working directory.
    pub path: String,
    /// The full content to write to the file (replaces existing content).
    pub content: String,
}

/// What a write did: the path and the number of bytes written.
pub struct WriteOutput {
    pub path: String,
    pub bytes: usize,
}

/// The outcome of writing `input.content` to `input.path`.
pub fn write_output(input: WriteInput) -> (o: WriteOutput)
    ensures
        o.path@ == input.path@,
        o.bytes == utf8_len(input.content@),
{
    let bytes = input.content.as_str().as_bytes().len();
    WriteOutput { path: input.path, bytes }
}

/// `wrote {bytes} bytes to {path}`.
pub open spec fn write_llm_text(o: WriteOutput) -> Seq<char> {
    "wrote "@ + decimal(o.bytes as nat) + " bytes to "@ + o.path@
}

impl ToolOutput for WriteOutput {
    fn to_llm(&self) -> (r: String)
        ensures
            r@ == write_llm_text(*self),
    {
        let mut s = String::new();
        push_str(&mut s, "wrote ");
        push_usize(&mut s, self.bytes);
        push_str(&mut s, " bytes to ");
        push_str(&mut s, self.path.as_str());
        s
    }
}

/// Number of `\n` in `s`.
pub open spec fn newlines(s: Seq<char>) -> nat
    decreases s.len(),
{
    if s.len() == 0 {
        0
    } else {
        newlines(s.drop_last()) + if s.last() == '\n' {
            1nat
        } else {
            0nat
        }
    }
}

proof fn lemma_newlines_bound(s: Seq<char>)
    ensures
        newlines(s) <= s.len(),
    decreases s.len(),
{
    if s.len() > 0 {
        lemma_newlines_bound(s.drop_last());
    }
}

/// How many lines `str::lines` yields: one per line break, plus a last line
/// without a break.
pub open spec fn line_count(s: Seq<char>) -> nat {
    if s.len() == 0 {
        0
    } else if s.last() == '\n' {
        newlines(s)
    } else {
        newlines(s) + 1
    }
}

/// The number of lines of a text, as `str::lines` counts them.
pub fn count_lines(text: &str) -> (n: usize)
    ensures
        n == line_count(text@),
{
    let cs = to_chars(text);
    let mut n: usize = 0;
    for i in 0..cs.len()
        invariant
            cs@ == text@,
            n == newlines(text@.take(i as int)),
            n <= i,
    {
        assert(text@.take(i + 1).drop_last() == text@.take(i as int));
        if cs[i] == '\n' {
            n = n + 1;
        }
    }
    assert(text@.take(cs.len() as int) == text@);
    if cs.len() == 0 || cs[cs.len() - 1] == '\n' {
        n
    } else {
        proof {
            lemma_newlines_bound(text@.drop_last());
        }
        n + 1
    }
}

/// The write tool, writing under a working directory.
#[derive(Clone)]
pub struct WriteTool {
    pub cwd: String,
}

impl WriteTool {
    pub fn name(&self) -> (n: &'static str)
        ensures
            n@ == "write"@,
    {
        "write"
    }

    pub fn description(&self) -> (d: &'static str)
        ensures
            d@
                == "Write content to a file. Creates the file if it doesn't exist, or replaces its content if it does. Creates parent directories as needed."@,
    {
        "Write content to a file. Creates the file if it doesn't exist, or replaces its content if it does. Creates parent directories as needed."
    }

    /// Title of an invocation: `Write {path} ({n} lines)`.
    pub fn render_input(&self, input: &WriteInput) -> (d: ToolCallDisplay)
        ensures
            d.title@ == "Write "@ + input.path@ + " ("@ + decimal(line_count(input.content@))
                + " lines)"@,
            d.body is None,
    {
        let lines = count_lines(input.content.as_str());
        let mut t = String::new();
        push_str(&mut t, "Write ");
        push_str(&mut t, input.path.as_str());
        push_str(&mut t, " (");
        push_usize(&mut t, lines);
        push_str(&mut t, " lines)");
        ToolCallDisplay { title: t, body: None }
    }

    /// Title of a result: `Wrote {bytes} bytes to {path}`.
    pub fn render_output(&self, _input: &WriteInput, output: &WriteOutput) -> (d: ToolResultDisplay)
        ensures
            d.title@ == "Wrote "@ + decimal(output.bytes as nat) + " bytes to "@ + output.path@,
            d.body is None,
    {
        let mut t = String::new();
        push_str(&mut t, "Wrote ");
        push_usize(&mut t, output.bytes);
        push_str(&mut t, " bytes to ");
        push_str(&mut t, output.path.as_str());
        ToolResultDisplay { title: t, body: None }
    }

    /// The text the model sees of a result.
    pub fn render_llm_output(&self, _input: &WriteInput, output: &WriteOutput) -> (r: String)
        ensures
            r@ == write_llm_text(*output),
    {
        output.to_llm()
    }
}

} // verus!
