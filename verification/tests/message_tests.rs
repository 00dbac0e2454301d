use agnt::edit::{EditError, LineOpError, OperationError, PersistError};
use agnt::hashline::AnchorError;
use agnt::read::ReadError;
use agnt::tool_errors::anchor_error_message;

#[test]
fn anchor_messages() {
    assert_eq!(anchor_error_message("3:ab", &AnchorError::EmptyFile), "cannot resolve anchor in an empty file");
    assert_eq!(anchor_error_message("3ab", &AnchorError::MissingColon), "invalid anchor `3ab` (expected `line:hash`)");
    assert_eq!(anchor_error_message("x:ab", &AnchorError::InvalidLineNumber), "invalid line number in anchor `x:ab`");
    assert_eq!(
        anchor_error_message("3:a", &AnchorError::HashTooShort),
        "invalid hash prefix in anchor `3:a` (minimum 2 characters)"
    );
    assert_eq!(
        anchor_error_message("3:abcde", &AnchorError::HashTooLong),
        "invalid hash prefix in anchor `3:abcde` (maximum 4 characters)"
    );
    assert_eq!(anchor_error_message("3:zz", &AnchorError::HashNotHex), "invalid hash prefix in anchor `3:zz` (must be hex)");
    assert_eq!(anchor_error_message("9:ab", &AnchorError::NotFound), "anchor `9:ab` not found");
    assert_eq!(
        anchor_error_message("ab", &AnchorError::Ambiguous(vec![2, 7, 11])),
        "anchor `ab` is ambiguous (candidate line numbers: 2, 7, 11)"
    );
}

#[test]
fn edit_messages() {
    assert_eq!(EditError::NoOperations.message(), "operations must contain at least one entry");
    assert_eq!(EditError::EmptyPath.message(), "path cannot be empty");
    let reversed = LineOpError::ReversedRange { start: "5:aa".to_string(), end: "2:bb".to_string() };
    assert_eq!(reversed.message(), "range anchors are reversed (`5:aa` resolves after `2:bb`)");
    let e = EditError::OperationFailed { index: 2, kind: "replace", cause: OperationError::Line(reversed) };
    assert_eq!(e.message(), "operation 2 (replace) failed: range anchors are reversed (`5:aa` resolves after `2:bb`)");
    let missing = OperationError::MissingFile { path: "a.txt".to_string() };
    assert_eq!(missing.message(), "`a.txt` does not exist");
    assert_eq!(OperationError::MoveMissingFile { path: "b".to_string() }.message(), "cannot move missing file `b`");
    assert_eq!(OperationError::EmptyDestination.message(), "destination path cannot be empty");
    assert_eq!(OperationError::DeleteMissingFile { path: "c".to_string() }.message(), "cannot delete missing file `c`");
    let anchor = LineOpError::Anchor { anchor: "1:ff".to_string(), error: AnchorError::NotFound };
    assert_eq!(OperationError::Line(anchor).message(), "anchor `1:ff` not found");
    assert_eq!(PersistError::DestinationExists { path: "d".to_string() }.message(), "destination already exists: d");
    assert_eq!(ReadError::ZeroLimit.message(), "limit must be at least 1");
}
