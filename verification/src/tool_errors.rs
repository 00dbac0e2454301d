//! The messages the file tools report to the model when they refuse or fail.

use vstd::prelude::*;

use crate::edit::{EditError, LineOpError, OperationError, PersistError};
use crate::hashline::AnchorError;
use crate::read::ReadError;
use crate::text::{decimal, push_str, push_usize};

verus! {

/// Line numbers separated by `, `.
pub open spec fn numbers_text(v: Seq<usize>) -> Seq<char>
    decreases v.len(),
{
    if v.len() == 0 {
        Seq::empty()
    } else if v.len() == 1 {
        decimal(v[0] as nat)
    } else {
        numbers_text(v.drop_last()) + ", "@ + decimal(v.last() as nat)
    }
}

/// What an anchor's failure says.
pub open spec fn anchor_error_text(anchor: Seq<char>, e: AnchorError) -> Seq<char> {
    match e {
        AnchorError::EmptyFile => "cannot resolve anchor in an empty file"@,
        AnchorError::MissingColon => "invalid anchor `"@ + anchor + "` (expected `line:hash`)"@,
        AnchorError::InvalidLineNumber => "invalid line number in anchor `"@ + anchor + "`"@,
        AnchorError::HashTooShort => "invalid hash prefix in anchor `"@ + anchor + "` (minimum 2 characters)"@,
        AnchorError::HashTooLong => "invalid hash prefix in anchor `"@ + anchor + "` (maximum 4 characters)"@,
        AnchorError::HashNotHex => "invalid hash prefix in anchor `"@ + anchor + "` (must be hex)"@,
        AnchorError::NotFound => "anchor `"@ + anchor + "` not found"@,
        AnchorError::Ambiguous(v) => "anchor `"@ + anchor + "` is ambiguous (candidate line numbers: "@ + numbers_text(v@)
            + ")"@,
    }
}

fn push_numbers(out: &mut String, v: &Vec<usize>)
    ensures
        final(out)@ == old(out)@ + numbers_text(v@),
{
    let ghost start = out@;
    for i in 0..v.len()
        invariant
            out@ == start + numbers_text(v@.take(i as int)),
    {
        let ghost t = v@.take(i + 1);
        assert(t.drop_last() == v@.take(i as int));
        if i > 0 {
            push_str(out, ", ");
        }
        push_usize(out, v[i]);
        assert(out@ =~= start + numbers_text(t));
    }
    assert(v@.take(v.len() as int) == v@);
}

/// The message of an anchor's failure.
pub fn anchor_error_message(anchor: &str, e: &AnchorError) -> (m: String)
    ensures
        m@ == anchor_error_text(anchor@, *e),
{
    let mut m = String::new();
    match e {
        AnchorError::EmptyFile => push_str(&mut m, "cannot resolve anchor in an empty file"),
        AnchorError::MissingColon => {
            push_str(&mut m, "invalid anchor `");
            push_str(&mut m, anchor);
            push_str(&mut m, "` (expected `line:hash`)");
        },
        AnchorError::InvalidLineNumber => {
            push_str(&mut m, "invalid line number in anchor `");
            push_str(&mut m, anchor);
            push_str(&mut m, "`");
        },
        AnchorError::HashTooShort => {
            push_str(&mut m, "invalid hash prefix in anchor `");
            push_str(&mut m, anchor);
            push_str(&mut m, "` (minimum 2 characters)");
        },
        AnchorError::HashTooLong => {
            push_str(&mut m, "invalid hash prefix in anchor `");
            push_str(&mut m, anchor);
            push_str(&mut m, "` (maximum 4 characters)");
        },
        AnchorError::HashNotHex => {
            push_str(&mut m, "invalid hash prefix in anchor `");
            push_str(&mut m, anchor);
            push_str(&mut m, "` (must be hex)");
        },
        AnchorError::NotFound => {
            push_str(&mut m, "anchor `");
            push_str(&mut m, anchor);
            push_str(&mut m, "` not found");
        },
        AnchorError::Ambiguous(v) => {
            push_str(&mut m, "anchor `");
            push_str(&mut m, anchor);
            push_str(&mut m, "` is ambiguous (candidate line numbers: ");
            push_numbers(&mut m, v);
            push_str(&mut m, ")");
        },
    }
    assert(m@ =~= anchor_error_text(anchor@, *e));
    m
}

/// What a line operation's failure says.
pub open spec fn line_error_text(e: LineOpError) -> Seq<char> {
    match e {
        LineOpError::Anchor { anchor, error } => anchor_error_text(anchor@, error),
        LineOpError::ReversedRange { start, end } => "range anchors are reversed (`"@ + start@ + "` resolves after `"@
            + end@ + "`)"@,
    }
}

/// What an operation's failure says.
pub open spec fn operation_error_text(e: OperationError) -> Seq<char> {
    match e {
        OperationError::Line(l) => line_error_text(l),
        OperationError::MissingFile { path } => "`"@ + path@ + "` does not exist"@,
        OperationError::MoveMissingFile { path } => "cannot move missing file `"@ + path@ + "`"@,
        OperationError::EmptyDestination => "destination path cannot be empty"@,
        OperationError::DeleteMissingFile { path } => "cannot delete missing file `"@ + path@ + "`"@,
    }
}

/// What a refused edit says.
pub open spec fn edit_error_text(e: EditError) -> Seq<char> {
    match e {
        EditError::NoOperations => "operations must contain at least one entry"@,
        EditError::EmptyPath => "path cannot be empty"@,
        EditError::OperationFailed { index, kind, cause } => "operation "@ + decimal(index as nat) + " ("@ + kind@
            + ") failed: "@ + operation_error_text(cause),
    }
}

impl LineOpError {
    /// The failure's message.
    pub fn message(&self) -> (m: String)
        ensures
            m@ == line_error_text(*self),
    {
        match self {
            LineOpError::Anchor { anchor, error } => anchor_error_message(anchor.as_str(), error),
            LineOpError::ReversedRange { start, end } => {
                let mut m = String::new();
                push_str(&mut m, "range anchors are reversed (`");
                push_str(&mut m, start.as_str());
                push_str(&mut m, "` resolves after `");
                push_str(&mut m, end.as_str());
                push_str(&mut m, "`)");
                assert(m@ =~= line_error_text(*self));
                m
            },
        }
    }
}

impl OperationError {
    /// The failure's message.
    pub fn message(&self) -> (m: String)
        ensures
            m@ == operation_error_text(*self),
    {
        let mut m = String::new();
        match self {
            OperationError::Line(l) => return l.message(),
            OperationError::MissingFile { path } => {
                push_str(&mut m, "`");
                push_str(&mut m, path.as_str());
                push_str(&mut m, "` does not exist");
            },
            OperationError::MoveMissingFile { path } => {
                push_str(&mut m, "cannot move missing file `");
                push_str(&mut m, path.as_str());
                push_str(&mut m, "`");
            },
            OperationError::EmptyDestination => push_str(&mut m, "destination path cannot be empty"),
            OperationError::DeleteMissingFile { path } => {
                push_str(&mut m, "cannot delete missing file `");
                push_str(&mut m, path.as_str());
                push_str(&mut m, "`");
            },
        }
        assert(m@ =~= operation_error_text(*self));
        m
    }
}

impl EditError {
    /// The refusal's message.
    pub fn message(&self) -> (m: String)
        ensures
            m@ == edit_error_text(*self),
    {
        let mut m = String::new();
        match self {
            EditError::NoOperations => push_str(&mut m, "operations must contain at least one entry"),
            EditError::EmptyPath => push_str(&mut m, "path cannot be empty"),
            EditError::OperationFailed { index, kind, cause } => {
                push_str(&mut m, "operation ");
                push_usize(&mut m, *index);
                push_str(&mut m, " (");
                push_str(&mut m, kind);
                push_str(&mut m, ") failed: ");
                let c = cause.message();
                push_str(&mut m, c.as_str());
            },
        }
        assert(m@ =~= edit_error_text(*self));
        m
    }
}

impl PersistError {
    /// The refusal's message.
    pub fn message(&self) -> (m: String)
        ensures
            match *self {
                PersistError::DestinationExists { path } => m@ == "destination already exists: "@ + path@,
            },
    {
        match self {
            PersistError::DestinationExists { path } => {
                let mut m = String::new();
                push_str(&mut m, "destination already exists: ");
                push_str(&mut m, path.as_str());
                m
            },
        }
    }
}

impl ReadError {
    /// The refusal's message.
    pub fn message(&self) -> (m: String)
        ensures
            m@ == "limit must be at least 1"@,
    {
        "limit must be at least 1".to_owned()
    }
}

} // verus!
