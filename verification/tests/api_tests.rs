use agnt::input_box::{coalesce_terminal_event, TerminalEventKind};
use agnt::layout::{typeahead_divider, typeahead_row};
use agnt::auth::OAuthPkceAuth;
use agnt::commands::Command;
use agnt::model_spec::{model_npm, ModelProviderOverride};
use agnt::openai::{register_oauth_provider, Role};
use agnt::read::{ReadInput, ReadTool};
use agnt::registry::Registry;
use agnt::session_db::{check_project_exists, check_session_exists, DbError};
use agnt::tui_typeahead::TypeaheadState;
use agnt::typeahead::TypeaheadQueryResult;
use agnt::typeahead_state::{build_match_set, TypeaheadQuery};

#[test]
fn read_tool_reads_a_window_of_text() {
    let tool = ReadTool { cwd: ".".to_string(), description: String::new() };
    let input = ReadInput { path: "f.txt".to_string(), offset: Some(1), limit: Some(1) };
    let out = tool.call_on_text(&input, "one\ntwo\nthree\n").ok().unwrap();
    assert_eq!((out.offset, out.limit, out.returned_lines, out.total_lines, out.has_more), (1, 1, 1, 3, true));
    assert!(out.content.starts_with("2:"));
    assert!(out.content.ends_with("|two"));
    let zero = ReadInput { path: "f.txt".to_string(), offset: None, limit: Some(0) };
    assert!(tool.call_on_text(&zero, "x").is_err());
}

#[test]
fn match_set_from_a_source_answer() {
    let q = TypeaheadQuery { leader: '/', query: "ne".to_string(), token_start: 0, cursor_pos: 3 };
    let set = build_match_set(&q, TypeaheadQueryResult { matches: vec![Command::NewSession], loading: true });
    assert_eq!((set.leader, set.query.as_str(), set.token_start, set.cursor_pos), ('/', "ne", 0, 3));
    assert!(set.loading && set.show_loading);
    assert_eq!(set.matches, vec![Command::NewSession]);
}

#[test]
fn background_work_only_for_file_mentions() {
    let s = TypeaheadState::new();
    assert!(s.has_background_work("see @src", 8, true));
    assert!(!s.has_background_work("see @src", 8, false));
    assert!(!s.has_background_work("/new", 4, true));
    assert!(!s.has_background_work("plain text", 10, true));
}

#[test]
fn oauth_provider_registration() {
    let mut r = Registry::new();
    assert!(!r.has_provider("acme"));
    let oauth = OAuthPkceAuth {
        client_id: "c".to_string(),
        authorize_url: "https://a/authorize".to_string(),
        token_url: "https://a/token".to_string(),
        redirect_url: "http://localhost/cb".to_string(),
        scopes: vec![],
        authorize_params: vec![],
        token_params: vec![],
    };
    register_oauth_provider(&mut r, "acme".to_string(), "Acme".to_string(), oauth, vec![], None, "{}".to_string());
    let req = r.auth_request("acme").unwrap();
    assert_eq!(req.provider_name, "Acme");
    assert!(req.env_candidates.is_empty());
    assert_eq!(req.auth_method.kind(), "oauth_pkce");
}

#[test]
fn role_names_on_the_wire() {
    assert_eq!(Role::System.wire_name(), "system");
    assert_eq!(Role::User.wire_name(), "user");
    assert_eq!(Role::Assistant.wire_name(), "assistant");
    assert_eq!(Role::Developer.wire_name(), "developer");
}

#[test]
fn model_package_prefers_the_override() {
    let own = ModelProviderOverride { npm: Some("@ai-sdk/anthropic".to_string()) };
    let none = ModelProviderOverride { npm: None };
    assert_eq!(model_npm(Some("@ai-sdk/openai"), Some(&own)), Some("@ai-sdk/anthropic"));
    assert_eq!(model_npm(Some("@ai-sdk/openai"), Some(&none)), Some("@ai-sdk/openai"));
    assert_eq!(model_npm(Some("@ai-sdk/openai"), None), Some("@ai-sdk/openai"));
    assert_eq!(model_npm(None, None), None);
}

#[test]
fn missing_rows_are_reported() {
    assert!(check_project_exists("p1", true).is_ok());
    assert!(matches!(check_project_exists("p1", false), Err(DbError::ProjectNotFound(id)) if id == "p1"));
    assert!(check_session_exists("s1", true).is_ok());
    assert!(matches!(check_session_exists("s1", false), Err(DbError::SessionNotFound(id)) if id == "s1"));
}

#[test]
fn typeahead_rows_and_divider() {
    let (marker, token, description) = typeahead_row(&Command::NewSession, true);
    assert_eq!((marker, token.as_str(), description.as_deref()), ("› ", "new", Some("  Create a new session")));
    let (marker, token, description) = typeahead_row(&agnt::mentions::Mention::File("src\\a.rs".to_string()), false);
    assert_eq!((marker, token.as_str(), description.as_deref()), ("  ", "src/a.rs", Some("  File")));
    assert_eq!(typeahead_divider(10), format!("  {}", "─".repeat(8)));
    assert_eq!(typeahead_divider(3), format!("  {}", "─"));
    assert_eq!(typeahead_divider(0), format!("  {}", "─"));
}

#[test]
fn sorting_keeps_the_order_of_equal_keys() {
    use_sorts();
}

fn use_sorts() {
    let skill = |name: &str, path: &str| agnt::skill::SkillEntry {
        name: name.to_string(),
        description: String::new(),
        path: path.to_string(),
    };
    let sorted = agnt::skill::sort_skills(vec![skill("beta", "1"), skill("Alpha", "2"), skill("alpha", "3")]);
    let got: Vec<(String, String)> = sorted.into_iter().map(|s| (s.name, s.path)).collect();
    assert_eq!(
        got,
        vec![
            ("Alpha".to_string(), "2".to_string()),
            ("alpha".to_string(), "3".to_string()),
            ("beta".to_string(), "1".to_string()),
        ]
    );
    let entries = vec![
        agnt::mentions::FileEntry::new("z.rs".to_string()),
        agnt::mentions::FileEntry::new("a\\b".to_string()),
        agnt::mentions::FileEntry::new("a/b".to_string()),
    ];
    let got: Vec<String> = agnt::mentions::sort_entries(entries).into_iter().map(|e| e.relative).collect();
    assert_eq!(got, vec!["a\\b".to_string(), "a/b".to_string(), "z.rs".to_string()]);
}

#[test]
fn wheel_movement_is_gathered_between_events() {
    let s = coalesce_terminal_event(TerminalEventKind::WheelUp, 0);
    assert_eq!((s.apply, s.pending, s.forward), (0, 3, false));
    let s = coalesce_terminal_event(TerminalEventKind::WheelDown, s.pending - 6);
    assert_eq!((s.apply, s.pending, s.forward), (0, -6, false));
    let s = coalesce_terminal_event(TerminalEventKind::KeyPress, 6);
    assert_eq!((s.apply, s.pending, s.forward), (6, 0, true));
    let s = coalesce_terminal_event(TerminalEventKind::KeyRelease, 6);
    assert_eq!((s.apply, s.pending, s.forward), (0, 6, false));
    let s = coalesce_terminal_event(TerminalEventKind::Resize, -3);
    assert_eq!((s.apply, s.pending, s.forward), (-3, 0, false));
    let s = coalesce_terminal_event(TerminalEventKind::OtherMouse, 9);
    assert_eq!((s.apply, s.pending, s.forward), (9, 0, true));
    assert_eq!(coalesce_terminal_event(TerminalEventKind::WheelUp, i32::MAX - 1).pending, i32::MAX);
    assert_eq!(coalesce_terminal_event(TerminalEventKind::WheelDown, i32::MIN + 1).pending, i32::MIN);
}

#[test]
fn patch_text_from_snapshots_and_groups() {
    use_patch();
}

fn use_patch() {
    let before = agnt::edit::FileSnapshot { path: "a.txt".to_string(), exists: true, lines: vec!["one".to_string(), "two".to_string()] };
    let after = agnt::edit::FileSnapshot { path: "a.txt".to_string(), exists: true, lines: vec!["one".to_string(), "three".to_string()] };
    let patch = agnt::edit::render_unified_patch(&before, &after);
    assert!(patch.starts_with("--- a/a.txt\n+++ b/a.txt\n@@ -1,2 +1,2 @@\n"));
    assert!(patch.contains("\n-2:"));
    assert!(patch.contains("\n+2:"));
    let same = agnt::edit::render_unified_patch(&before, &before);
    assert!(same.ends_with("@@ -0,0 +0,0 @@\n (no content changes)\n"));
    assert_eq!(agnt::edit::patch_body(&vec![]), "@@ -0,0 +0,0 @@\n (no content changes)\n");
    let header_len = "--- a/a.txt\n+++ b/a.txt\n".len();
    assert!(patch.len() > header_len);
}
