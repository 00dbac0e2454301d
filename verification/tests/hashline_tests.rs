use agnt::hashline::{hashline, line_hash_prefix, resolve_anchor, replacement_lines, AnchorError, FileLines};

fn fnv_prefix(line: &str) -> String {
    let mut hash = 0xcbf29ce484222325u64;
    for b in line.as_bytes() {
        hash ^= u64::from(*b);
        hash = hash.wrapping_mul(0x100000001b3);
    }
    format!("{hash:016x}")[..4].to_string()
}

#[test]
fn hash_prefix_matches_fnv1a() {
    assert_eq!(line_hash_prefix(""), "cbf2");
    for line in ["fn main() {}", "  let x = 1;", "héllo wörld", "\t}"] {
        assert_eq!(line_hash_prefix(line), fnv_prefix(line));
    }
}

#[test]
fn hashline_formats_number_hash_and_content() {
    let line = "let x = 1;";
    assert_eq!(hashline(12, line), format!("12:{}|{}", fnv_prefix(line), line));
}

#[test]
fn parse_and_render_round_trip() {
    for text in [
        "", "a", "a\n", "a\nb", "a\nb\n", "\n", "a\n\n", "a\r\nb\r\n", "a\r\nb", "\r\n",
        "a\rb", "a\rb\n", "\r", "a\r\r\nb\r\n",
    ] {
        let f = FileLines::parse(text);
        assert_eq!(f.render(), text, "round trip of {text:?}");
    }
    let f = FileLines::parse("a\r\nb\r\n");
    assert_eq!(f.lines, vec!["a".to_string(), "b".to_string()]);
    assert_eq!(f.line_ending, "\r\n");
    assert!(f.trailing_newline);
    let f = FileLines::parse("x\ny");
    assert_eq!(f.lines, vec!["x".to_string(), "y".to_string()]);
    assert!(!f.trailing_newline);
    assert!(FileLines::parse("").lines.is_empty());
}

#[test]
fn mixed_line_endings_render_with_crlf() {
    let f = FileLines::parse("a\r\nb\n");
    assert_eq!(f.lines, vec!["a".to_string(), "b".to_string()]);
    assert_eq!(f.render(), "a\r\nb\r\n");
}

#[test]
fn replacement_lines_drop_one_final_newline() {
    assert_eq!(replacement_lines(""), vec![String::new()]);
    assert_eq!(replacement_lines("a\nb\n"), vec!["a".to_string(), "b".to_string()]);
    assert_eq!(replacement_lines("\n"), vec![String::new()]);
    assert_eq!(replacement_lines("a\r\nb"), vec!["a".to_string(), "b".to_string()]);
}

fn lines(v: &[&str]) -> Vec<String> {
    v.iter().map(|s| s.to_string()).collect()
}

#[test]
fn anchors_resolve_to_the_named_or_nearest_line() {
    let ls = lines(&["alpha", "beta", "gamma", "beta", "delta"]);
    let beta = fnv_prefix("beta");
    assert_eq!(resolve_anchor(&format!("2:{beta}"), &ls).unwrap(), 1);
    assert_eq!(resolve_anchor(&format!(" 4:{} ", beta.to_uppercase()), &ls).unwrap(), 3);
    assert_eq!(resolve_anchor(&format!("2:{}", &beta[..2]), &ls).unwrap(), 1);
    // line 1 is not beta; nearest beta is line 2
    assert_eq!(resolve_anchor(&format!("1:{beta}"), &ls).unwrap(), 1);
    // line 3 is equally far from lines 2 and 4
    match resolve_anchor(&format!("3:{beta}"), &ls) {
        Err(AnchorError::Ambiguous(c)) => assert_eq!(c, vec![2, 4]),
        other => panic!("expected ambiguity, got {other:?}"),
    }
}

#[test]
fn malformed_anchors_are_refused() {
    let ls = lines(&["x"]);
    assert!(matches!(resolve_anchor("x", &[]), Err(AnchorError::EmptyFile)));
    assert!(matches!(resolve_anchor("12", &ls), Err(AnchorError::MissingColon)));
    assert!(matches!(resolve_anchor("0:abcd", &ls), Err(AnchorError::InvalidLineNumber)));
    assert!(matches!(resolve_anchor("a:abcd", &ls), Err(AnchorError::InvalidLineNumber)));
    assert!(matches!(resolve_anchor("1:a", &ls), Err(AnchorError::HashTooShort)));
    assert!(matches!(resolve_anchor("1:abcde", &ls), Err(AnchorError::HashTooLong)));
    assert!(matches!(resolve_anchor("1:zz", &ls), Err(AnchorError::HashNotHex)));
    let other = if fnv_prefix("x").starts_with("00") { "11" } else { "00" };
    assert!(matches!(resolve_anchor(&format!("1:{other}"), &ls), Err(AnchorError::NotFound)));
    assert_eq!(resolve_anchor(&format!("+1:{}", fnv_prefix("x")), &ls).unwrap(), 0);
}
