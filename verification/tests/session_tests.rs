use agnt::cli::{
    api_key_prompt, callback_listener, callback_reply, check_api_key_input, model_listing_line, provider_header_line, provider_listing,
    read_selection, sort_models_by_id, startup_prompt_lines, Cli, CliCommand, Mode, StartupSelection,
    OAUTH_SUCCESS_HTML,
};
use agnt::auth::KnownProvider;
use agnt::model_spec::ModelSpec;
use agnt::models::{Project, Session};
use agnt::session_db::{
    append_parent, check_append_parent, check_turn_owner, format_id, new_project, project_after_upsert,
    session_after_append, session_after_checkout, title_to_set, DbError,
};
use agnt::session_store::SessionStore;

fn session(id: &str, project: &str, title: Option<&str>) -> Session {
    Session {
        id: id.to_string(),
        project_id: project.to_string(),
        title: title.map(|t| t.to_string()),
        root_turn_id: None,
        current_turn_id: None,
        created_at_ms: 1,
        updated_at_ms: 2,
    }
}

#[test]
fn cli_modes() {
    let cli = Cli { command: None, providers: false };
    assert_eq!(cli.mode(), Mode::Tui);
    assert!(cli.tui_cwd().is_none());
    let cli = Cli { command: Some(CliCommand::Tui { cwd: Some("/w".to_string()) }), providers: false };
    assert_eq!(cli.mode(), Mode::Tui);
    assert_eq!(cli.tui_cwd().map(|s| s.as_str()), Some("/w"));
    assert_eq!(Cli { command: Some(CliCommand::Gui), providers: false }.mode(), Mode::Gui);
    assert_eq!(Cli { command: Some(CliCommand::Gui), providers: true }.mode(), Mode::Providers);
    assert_eq!(Cli { command: Some(CliCommand::Providers), providers: false }.mode(), Mode::Providers);
}

#[test]
fn startup_selection_answers() {
    assert_eq!(read_selection(" N ", 3, false), StartupSelection::New);
    assert_eq!(read_selection("q", 3, false), StartupSelection::Invalid);
    assert_eq!(read_selection("Q", 3, true), StartupSelection::Quit);
    assert_eq!(read_selection("2", 3, false), StartupSelection::Pick(1));
    assert_eq!(read_selection("+3", 3, false), StartupSelection::Pick(2));
    assert_eq!(read_selection("0", 3, false), StartupSelection::Invalid);
    assert_eq!(read_selection("4", 3, false), StartupSelection::Invalid);
    assert_eq!(read_selection("x", 3, false), StartupSelection::Invalid);
}

#[test]
fn startup_prompt_lists_sessions() {
    let sessions = vec![session("s1", "p", Some("Fix bug")), session("s2", "p", None)];
    let lines = startup_prompt_lines(&sessions, true);
    assert_eq!(
        lines,
        vec![
            "Found 2 existing session(s). Select one to continue or create a new session:".to_string(),
            "  1. Fix bug (s1)".to_string(),
            "  2. Session s2".to_string(),
            "  n. Create new session".to_string(),
            "  q. Quit".to_string(),
        ]
    );
    assert_eq!(startup_prompt_lines(&sessions, false).len(), 4);
}

fn spec(id: &str, name: Option<&str>) -> ModelSpec {
    ModelSpec {
        id: id.to_string(),
        name: name.map(|s| s.to_string()),
        family: None,
        attachment: false,
        reasoning: false,
        tool_call: false,
        structured_output: false,
        temperature: false,
        knowledge: None,
        release_date: None,
        last_updated: None,
        modalities: None,
        open_weights: false,
        limit: None,
        provider: None,
    }
}

#[test]
fn provider_listing_lines() {
    let p = KnownProvider {
        id: "openai".to_string(),
        name: "OpenAI".to_string(),
        auth_method: "api_key".to_string(),
        configured: true,
        compatible: false,
    };
    assert_eq!(provider_header_line(&p), "openai (OpenAI) [api_key | configured | no-factory]");
    let line = model_listing_line(&spec("gpt-4.1", Some("GPT 4.1")));
    assert_eq!(line, format!("  {:<30} {}", "gpt-4.1", "GPT 4.1"));
    assert_eq!(model_listing_line(&spec("m", None)), format!("  {:<30} ", "m"));
    let sorted = sort_models_by_id(vec![spec("b", Some("1")), spec("a", None), spec("b", Some("2"))]);
    let ids: Vec<(String, Option<String>)> = sorted.into_iter().map(|m| (m.id, m.name)).collect();
    assert_eq!(
        ids,
        vec![
            ("a".to_string(), None),
            ("b".to_string(), Some("1".to_string())),
            ("b".to_string(), Some("2".to_string())),
        ]
    );
}

#[test]
fn provider_listing_block() {
    let p = KnownProvider {
        id: "acme".to_string(),
        name: "Acme".to_string(),
        auth_method: "oauth_pkce".to_string(),
        configured: true,
        compatible: true,
    };
    let lines = provider_listing(&p, vec![spec("zeta", Some("Z")), spec("alpha", None)]);
    assert_eq!(
        lines,
        vec![
            "acme (Acme) [oauth_pkce | configured | compatible]".to_string(),
            format!("  {:<30} ", "alpha"),
            format!("  {:<30} {}", "zeta", "Z"),
        ]
    );
    assert_eq!(provider_listing(&p, vec![]).len(), 1);
}

#[test]
fn api_key_answers() {
    assert_eq!(api_key_prompt("OpenAI"), "Enter API key for OpenAI: ");
    assert!(check_api_key_input("OpenAI", " sk ").is_ok());
    assert_eq!(check_api_key_input("OpenAI", "  ").unwrap_err(), "no API key provided for OpenAI");
}

#[test]
fn callback_listener_for_redirects() {
    let l = callback_listener("http://localhost:1455/auth/callback").unwrap().unwrap();
    assert_eq!(l.bind_host, "127.0.0.1");
    assert_eq!(l.port, 1455);
    assert_eq!(l.path, "/auth/callback");
    let l = callback_listener("http://127.0.0.1/cb").unwrap().unwrap();
    assert_eq!(l.port, 80);
    assert!(callback_listener("https://localhost:1455/cb").unwrap().is_none());
    assert!(callback_listener("http://example.com/cb").unwrap().is_none());
    assert!(callback_listener("not a url").is_err());
}

fn pairs(v: &[(&str, &str)]) -> Vec<(String, String)> {
    v.iter().map(|(a, b)| (a.to_string(), b.to_string())).collect()
}

#[test]
fn callback_replies() {
    let r = callback_reply("/other", &pairs(&[]), "/cb", "st");
    assert_eq!((r.status, r.body.as_str()), (404, "Not found"));
    assert!(r.delivered.is_none());
    let r = callback_reply("/cb", &pairs(&[("state", "bad"), ("code", "c")]), "/cb", "st");
    assert_eq!(r.status, 400);
    assert_eq!(r.delivered, Some(Err("oauth callback state mismatch".to_string())));
    let r = callback_reply("/cb", &pairs(&[("state", "st")]), "/cb", "st");
    assert_eq!(r.body, "Missing authorization code");
    assert_eq!(r.delivered, Some(Err("missing authorization code in callback".to_string())));
    let r = callback_reply("/cb", &pairs(&[("state", "x"), ("code", "c1"), ("state", "st")]), "/cb", "st");
    assert_eq!(r.status, 200);
    assert_eq!(r.body, OAUTH_SUCCESS_HTML);
    assert_eq!(r.delivered, Some(Ok("c1".to_string())));
}

#[test]
fn turn_ownership_checks() {
    assert!(check_turn_owner("s", "t", Some("s".to_string())).is_ok());
    assert!(matches!(check_turn_owner("s", "t", None), Err(DbError::TurnNotFound(t)) if t == "t"));
    assert!(matches!(
        check_turn_owner("s", "t", Some("other".to_string())),
        Err(DbError::TurnSessionMismatch { session_id, turn_id }) if session_id == "s" && turn_id == "t"
    ));
    assert!(matches!(check_append_parent("s", "p", None), Err(DbError::TurnNotFound(t)) if t == "p"));
    assert!(matches!(
        check_append_parent("s", "p", Some("o".to_string())),
        Err(DbError::ParentTurnSessionMismatch { session_id, parent_turn_id }) if session_id == "s" && parent_turn_id == "p"
    ));
}

#[test]
fn appending_turns_moves_the_session() {
    let mut s = session("s", "p", None);
    assert!(matches!(append_parent("s", None, None), Err(DbError::SessionNotFound(id)) if id == "s"));
    assert_eq!(append_parent("s", Some(&s), None).unwrap(), None);
    let s1 = session_after_append(s.clone(), "t1", 10);
    assert_eq!(s1.root_turn_id.as_deref(), Some("t1"));
    assert_eq!(s1.current_turn_id.as_deref(), Some("t1"));
    assert_eq!(s1.updated_at_ms, 10);
    assert_eq!(append_parent("s", Some(&s1), None).unwrap().as_deref(), Some("t1"));
    assert_eq!(append_parent("s", Some(&s1), Some("t0".to_string())).unwrap().as_deref(), Some("t0"));
    let s2 = session_after_append(s1, "t2", 20);
    assert_eq!(s2.root_turn_id.as_deref(), Some("t1"));
    assert_eq!(s2.current_turn_id.as_deref(), Some("t2"));
    let s3 = session_after_checkout(s2, "t1", 30);
    assert_eq!(s3.current_turn_id.as_deref(), Some("t1"));
    assert_eq!(s3.root_turn_id.as_deref(), Some("t1"));
    s.title = Some("x".to_string());
    assert_eq!(session_after_checkout(s, "t9", 1).title.as_deref(), Some("x"));
}

#[test]
fn project_upserts_and_titles() {
    let p = new_project("proj_1".to_string(), "/w".to_string(), None, 5);
    assert_eq!((p.created_at_ms, p.updated_at_ms), (5, 5));
    let (same, changed) = project_after_upsert(p.clone(), None, 9);
    assert!(!changed);
    assert_eq!(same.updated_at_ms, 5);
    let (renamed, changed) = project_after_upsert(p, Some("agnt".to_string()), 9);
    assert!(changed);
    assert_eq!(renamed.name.as_deref(), Some("agnt"));
    assert_eq!(renamed.updated_at_ms, 9);
    let (kept, changed) = project_after_upsert(renamed, Some("agnt".to_string()), 12);
    assert!(!changed);
    assert_eq!(kept.updated_at_ms, 9);
    assert_eq!(title_to_set("  Hello  ").as_deref(), Some("Hello"));
    assert_eq!(title_to_set(" \t "), None);
    assert_eq!(format_id("sess", "ab12"), "sess_ab12");
}

#[test]
fn session_store_selection() {
    let project = Project { id: "p1".to_string(), root_dir: "/w".to_string(), name: None, created_at_ms: 0, updated_at_ms: 0 };
    let mut store = SessionStore::for_project(&project);
    assert_eq!(store.project_id(), "p1");
    assert!(store.needs_session());
    assert_eq!(store.persist_target().unwrap_err(), "no active session selected");
    assert_eq!(store.activate("s9", None).unwrap_err(), "session not found: s9");
    let foreign = session("s2", "p2", None);
    assert_eq!(
        store.activate("s2", Some(&foreign)).unwrap_err(),
        "session 's2' does not belong to project 'p1'"
    );
    assert!(store.active_session_id().is_none());
    let own = session("s1", "p1", None);
    store.activate("s1", Some(&own)).unwrap();
    assert_eq!(store.active_session_id(), Some("s1"));
    assert_eq!(store.persist_target().unwrap(), "s1");
    store.clear_active_session();
    assert!(store.needs_session());
    store.session_created(&session("s3", "p1", None));
    assert_eq!(store.active_session_id(), Some("s3"));
}
