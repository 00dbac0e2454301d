//! The bash tool: what the model and the user see of a command's output.

use vstd::prelude::*;

use crate::event::{DisplayBody, ToolCallDisplay, ToolOutput, ToolResultDisplay};
use crate::text::{push_char, push_i32, push_str, signed_decimal};

verus! {

/// The tool's input.
#[derive(Clone)]
pub struct BashInput {
    /// The bash command to run.
    pub command: String,
}

/// What running a command gave: its output streams and exit code (none when
/// a signal ended it).
pub struct BashOutput {
    pub stdout: String,
    pub stderr: String,
    pub exit_code: Option<i32>,
}

/// Standard output, then standard error under a `stderr:` line (separated by a
/// newline when both are there).
pub open spec fn streams_text(o: BashOutput) -> Seq<char> {
    let out = o.stdout@;
    if o.stderr@.len() == 0 {
        out
    } else if out.len() == 0 {
        "stderr:\n"@ + o.stderr@
    } else {
        out + "\n"@ + "stderr:\n"@ + o.stderr@
    }
}

/// The text the model sees: the streams, a note of a non-zero exit code, or
/// `(no output)` when all of that is empty.
pub open spec fn bash_llm_text(o: BashOutput) -> Seq<char> {
    let body = streams_text(o) + match o.exit_code {
        Some(code) => if code != 0 {
            "\n[exit code: "@ + signed_decimal(code as int) + "]"@
        } else {
            Seq::<char>::empty()
        },
        None => Seq::<char>::empty(),
    };
    if body.len() == 0 {
        "(no output)"@
    } else {
        body
    }
}

fn push_streams(s: &mut String, o: &BashOutput)
    requires
        old(s)@.len() == 0,
    ensures
        final(s)@ == streams_text(*o),
{
    if !o.stdout.as_str().is_empty() {
        push_str(s, o.stdout.as_str());
    }
    if !o.stderr.as_str().is_empty() {
        if !s.as_str().is_empty() {
            push_char(s, '\n');
            proof {
                reveal_strlit("\n");
            }
        }
        push_str(s, "stderr:\n");
        push_str(s, o.stderr.as_str());
    }
}

impl ToolOutput for BashOutput {
    fn to_llm(&self) -> (r: String)
        ensures
            r@ == bash_llm_text(*self),
    {
        let mut result = String::new();
        push_streams(&mut result, self);
        match self.exit_code {
            Some(code) => {
                if code != 0 {
                    push_str(&mut result, "\n[exit code: ");
                    push_i32(&mut result, code);
                    push_str(&mut result, "]");
                }
            },
            None => {},
        }
        if result.as_str().is_empty() {
            push_str(&mut result, "(no output)");
        }
        result
    }
}

/// The bash tool, run in a working directory.
#[derive(Clone)]
pub struct BashTool {
    pub cwd: String,
}

/// The title of a bash result.
pub open spec fn bash_result_title(o: BashOutput) -> Seq<char> {
    match o.exit_code {
        Some(code) => "exit code "@ + signed_decimal(code as int),
        None => "killed by signal"@,
    }
}

impl BashTool {
    pub fn name(&self) -> (n: &'static str)
        ensures
            n@ == "bash"@,
    {
        "bash"
    }

    pub fn description(&self) -> (d: &'static str)
        ensures
            d@ == "Run a bash command and return the combined stdout and stderr."@,
    {
        "Run a bash command and return the combined stdout and stderr."
    }

    /// Title of an invocation: the command in backticks.
    pub fn render_input(&self, input: &BashInput) -> (d: ToolCallDisplay)
        ensures
            d.title@ == "Run `"@ + input.command@ + "`"@,
            d.body is None,
    {
        let mut t = String::new();
        push_str(&mut t, "Run `");
        push_str(&mut t, input.command.as_str());
        push_str(&mut t, "`");
        ToolCallDisplay { title: t, body: None }
    }

    /// How a result is shown: the exit code as title, the streams as code
    /// when there are any.
    pub fn render_output(&self, _input: &BashInput, output: &BashOutput) -> (d: ToolResultDisplay)
        ensures
            d.title@ == bash_result_title(*output),
            (output.stdout@.len() == 0 && output.stderr@.len() == 0) ==> d.body is None,
            !(output.stdout@.len() == 0 && output.stderr@.len() == 0) ==> (d.body matches Some(
                DisplayBody::Code { language, content },
            ) && language is None && content@ == streams_text(*output)),
    {
        let mut title = String::new();
        match output.exit_code {
            Some(code) => {
                push_str(&mut title, "exit code ");
                push_i32(&mut title, code);
            },
            None => {
                push_str(&mut title, "killed by signal");
            },
        }
        let body = if !output.stdout.as_str().is_empty() || !output.stderr.as_str().is_empty() {
            let mut content = String::new();
            push_streams(&mut content, output);
            Some(DisplayBody::Code { language: None, content })
        } else {
            None
        };
        ToolResultDisplay { title, body }
    }

    /// The text the model sees of a result.
    pub fn render_llm_output(&self, _input: &BashInput, output: &BashOutput) -> (r: String)
        ensures
            r@ == bash_llm_text(*output),
    {
        output.to_llm()
    }
}

} // verus!
