use agnt::gitignore::{build_gitignore, gitignore_lines, path_ignored};

fn lines(v: &[&str]) -> Vec<String> {
    v.iter().map(|s| s.to_string()).collect()
}

#[test]
fn gitignore_lines_are_read_like_a_line_reader() {
    assert_eq!(
        gitignore_lines("\u{feff}target/\r\n*.log\n\n!keep.log\n"),
        lines(&["target/", "*.log", "", "!keep.log"])
    );
    assert_eq!(gitignore_lines("a\nb"), lines(&["a", "b"]));
    assert!(gitignore_lines("").is_empty());
    assert_eq!(gitignore_lines("\n"), lines(&[""]));
}

#[test]
fn the_deepest_gitignore_with_a_verdict_decides() {
    let root = build_gitignore("/p", lines(&["target/", "*.log", "# comment", "!keep.log"])).expect("builds");
    let mut stack = vec![root];
    assert!(path_ignored(&stack, "/p/target", true));
    assert!(!path_ignored(&stack, "/p/target", false), "a directory pattern leaves files alone");
    assert!(path_ignored(&stack, "/p/a.log", false));
    assert!(!path_ignored(&stack, "/p/keep.log", false));
    assert!(!path_ignored(&stack, "/p/src/main.rs", false));
    stack.push(build_gitignore("/p/sub", lines(&["!*.log"])).expect("builds"));
    assert!(!path_ignored(&stack, "/p/sub/x.log", false));
    assert!(!path_ignored(&Vec::new(), "/p/a.log", false));
}
