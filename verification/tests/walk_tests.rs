use agnt::mentions::{is_ignored_by_stack, sort_entries, FileEntry, IgnoreVerdict};

#[test]
fn deepest_gitignore_decides() {
    assert!(!is_ignored_by_stack(&vec![]));
    assert!(is_ignored_by_stack(&vec![IgnoreVerdict::Ignore, IgnoreVerdict::NoMatch]));
    assert!(!is_ignored_by_stack(&vec![IgnoreVerdict::Ignore, IgnoreVerdict::Whitelist, IgnoreVerdict::NoMatch]));
    assert!(is_ignored_by_stack(&vec![IgnoreVerdict::Whitelist, IgnoreVerdict::Ignore]));
    assert!(!is_ignored_by_stack(&vec![IgnoreVerdict::NoMatch, IgnoreVerdict::NoMatch]));
}

#[test]
fn entries_sort_by_displayed_path() {
    let entries = vec![
        FileEntry::new("src\\main.rs".to_string()),
        FileEntry::new("Cargo.toml".to_string()),
        FileEntry::new("src/lib.rs".to_string()),
    ];
    let sorted: Vec<String> = sort_entries(entries).into_iter().map(|e| e.display).collect();
    assert_eq!(sorted, vec!["Cargo.toml".to_string(), "src/lib.rs".to_string(), "src/main.rs".to_string()]);
}
