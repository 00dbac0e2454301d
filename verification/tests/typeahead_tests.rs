use agnt::commands::Command;
use agnt::typeahead_state::TypeaheadWindowItem::{Divider, Value};
use agnt::mentions::{FileEntry, FileMentionSource, FileWorker, Mention, WorkerEvent, WorkerRequest, WorkerResponse};
use agnt::typeahead::{extract_query_token, CachedPrefixSource, TypeaheadItem, TypeaheadMatchSet, TypeaheadSource};
use agnt::typeahead_state::{
    build_typeahead_window_items, current_trigger_token, selected_is_visible, ActiveTypeahead,
    TypeaheadActivation, TypeaheadState, TypeaheadWindowItem,
};

#[test]
fn query_token_after_last_whitespace() {
    assert_eq!(extract_query_token("hello /ne"), Some((6, '/', "ne")));
    assert_eq!(extract_query_token("@src"), Some((0, '@', "src")));
    assert_eq!(extract_query_token("a\t@"), Some((2, '@', "")));
    assert_eq!(extract_query_token("hello "), None);
    assert_eq!(extract_query_token(""), None);
}

#[test]
fn query_token_counts_bytes_before_it() {
    // "é" is two bytes, so the token starts at byte 3.
    assert_eq!(extract_query_token("é @x"), Some((3, '@', "x")));
    assert_eq!(extract_query_token("x @é"), Some((2, '@', "é")));
}

#[test]
fn command_terms_and_texts() {
    let c = Command::NewSession;
    assert_eq!(c.token_text(), "new");
    assert_eq!(c.description(), Some("Create a new session".to_string()));
    assert_eq!(c.match_terms(), vec!["new".to_string(), "session".to_string()]);
}

#[test]
fn cached_prefix_source_filters_by_term_prefix() {
    let mut source = CachedPrefixSource::from_items(vec![Command::NewSession]);
    assert_eq!(source.query_matches(""), vec![Command::NewSession]);
    assert_eq!(source.query_matches("n"), vec![Command::NewSession]);
    assert_eq!(source.query_matches("SES"), vec![Command::NewSession]);
    assert_eq!(source.query_matches("x"), Vec::<Command>::new());
    // Shrinking the query does not keep the narrower cached answer.
    assert_eq!(source.query_matches("s"), vec![Command::NewSession]);
}

#[test]
fn cached_prefix_source_answer_does_not_depend_on_history() {
    let items = vec![
        Mention::File("src/main.rs".to_string()),
        Mention::File("src/lib.rs".to_string()),
        Mention::File("README.md".to_string()),
    ];
    let mut fresh = CachedPrefixSource::from_items(items.clone());
    let mut used = CachedPrefixSource::from_items(items);
    let _ = used.query_matches("s");
    let _ = used.query_matches("src/m");
    let _ = used.query_matches("");
    for q in ["s", "src", "src/l", "r", "README", "q"] {
        assert_eq!(used.query_matches(q), fresh.query_matches(q), "query {q:?}");
    }
    let mut state = CachedPrefixSource::from_items(vec![Command::NewSession]).init();
    assert_eq!(CachedPrefixSource::query(&mut state, "ne"), vec![Command::NewSession]);
}

#[test]
fn mention_token_uses_forward_slashes() {
    let m = Mention::File("a\\b\\c.rs".to_string());
    assert_eq!(m.token_text(), "a/b/c.rs");
    assert_eq!(m.match_terms(), vec!["a/b/c.rs".to_string()]);
    assert_eq!(m.description(), Some("File".to_string()));
}

#[test]
fn file_entry_fields() {
    let e = FileEntry::new("Src/Deep/Main.RS".to_string());
    assert_eq!(e.display, "Src/Deep/Main.RS");
    assert_eq!(e.display_lower, "src/deep/main.rs");
    assert_eq!(e.file_name_lower, "main.rs");
}

fn worker(paths: &[&str]) -> FileWorker {
    FileWorker::new(paths.iter().map(|p| FileEntry::new(p.to_string())).collect())
}

fn ask(w: &mut FileWorker, id: u64, q: &str) -> Vec<String> {
    let resp = w.answer(WorkerRequest { request_id: id, query: q.to_string() });
    assert_eq!(resp.request_id, id);
    assert_eq!(resp.query, q);
    resp.matches.into_iter().map(|Mention::File(p)| p).collect()
}

#[test]
fn file_ranking_orders_by_score_then_path() {
    let mut w = worker(&["aaa/deep/starved.txt", "docs/register.md", "io_uring/register.rs", "src/reg.rs", "x/preregister.txt"]);
    // File names starting with the query come first, then path segments, then substrings.
    assert_eq!(
        ask(&mut w, 1, "reg"),
        vec!["docs/register.md", "io_uring/register.rs", "src/reg.rs", "x/preregister.txt"]
    );
    assert_eq!(ask(&mut w, 2, "io_uring"), vec!["io_uring/register.rs"]);
    assert_eq!(ask(&mut w, 3, "starved"), vec!["aaa/deep/starved.txt"]);
    assert_eq!(ask(&mut w, 4, "").len(), 5);
    assert_eq!(ask(&mut w, 5, "zzz"), Vec::<String>::new());
}

#[test]
fn file_ranking_segment_and_substring_scores() {
    let mut w = worker(&["lib/zeta.rs", "alpha/beta.rs", "xbetax/gamma.rs"]);
    // "beta.rs" starts the file name (0); "xbetax" only contains "beta" (2).
    assert_eq!(ask(&mut w, 1, "beta"), vec!["alpha/beta.rs", "xbetax/gamma.rs"]);
    // "alpha" is a leading segment (1).
    assert_eq!(ask(&mut w, 2, "alpha"), vec!["alpha/beta.rs"]);
}

#[test]
fn file_ranking_same_with_or_without_cache() {
    let paths = ["a/readme.md", "b/read.rs", "c/thread.rs", "read/x.rs"];
    let mut cached = worker(&paths);
    let _ = ask(&mut cached, 1, "r");
    let _ = ask(&mut cached, 2, "re");
    let grown = ask(&mut cached, 3, "rea");
    let mut fresh = worker(&paths);
    assert_eq!(grown, ask(&mut fresh, 1, "rea"));
    assert_eq!(grown, vec!["a/readme.md", "b/read.rs", "read/x.rs", "c/thread.rs"]);
}

#[test]
fn mention_source_keeps_newest_answer() {
    let mut s = FileMentionSource::new(".".to_string());
    assert!(s.has_pending_work());
    assert!(s.loading_for_query("x"));
    s.handle_event(WorkerEvent::Ready);
    assert!(!s.has_pending_work());
    let q = "src".to_string();
    assert!(s.needs_request(&q));
    let req = s.next_request(&q);
    assert_eq!(req.request_id, 1);
    s.request_sent(req.request_id, &req.query, true);
    assert!(!s.needs_request(&q));
    assert!(s.loading_for_query("SRC"));
    s.handle_event(WorkerEvent::Response(WorkerResponse {
        request_id: 1,
        query: "src".to_string(),
        matches: vec![Mention::File("src/main.rs".to_string())],
    }));
    assert!(!s.loading_for_query("src"));
    assert_eq!(s.answer(&q), vec![Mention::File("src/main.rs".to_string())]);
    assert_eq!(s.answer(&"other".to_string()), Vec::<Mention>::new());
    // An older response is dropped.
    s.handle_event(WorkerEvent::Response(WorkerResponse { request_id: 0, query: "old".to_string(), matches: vec![] }));
    assert_eq!(s.latest_query.as_deref(), Some("src"));
    assert_eq!(s.last_completed_request_id, 1);
}

#[test]
fn window_items_wrap_with_divider() {
    assert_eq!(build_typeahead_window_items(0, 0, 4), vec![]);
    assert_eq!(build_typeahead_window_items(3, 0, 0), vec![]);
    assert_eq!(build_typeahead_window_items(3, 1, 4), vec![Value(1), Value(2), Value(0)]);
    assert_eq!(build_typeahead_window_items(6, 4, 4), vec![Value(4), Value(5), Divider, Value(0)]);
    assert_eq!(build_typeahead_window_items(6, 6, 4), vec![Divider, Value(0), Value(1), Value(2)]);
    assert!(selected_is_visible(6, 4, 0));
    assert!(!selected_is_visible(6, 4, 2));
}

#[test]
fn trigger_token_needs_slash_or_at() {
    let t = current_trigger_token("hi /new", 7).unwrap();
    assert_eq!((t.leader, t.token_start), ('/', 3));
    assert!(current_trigger_token("hi #x", 5).is_none());
    assert!(current_trigger_token("hi /new", 2).is_none());
    // The cursor is clamped to the end of the input.
    assert_eq!(current_trigger_token("@a", 100).unwrap().leader, '@');
}

fn command_set(token_start: usize, cursor_pos: usize, matches: Vec<Command>) -> ActiveTypeahead {
    ActiveTypeahead::Command(TypeaheadMatchSet {
        leader: '/',
        query: "n".to_string(),
        token_start,
        cursor_pos,
        loading: false,
        show_loading: false,
        matches,
    })
}

fn mention_set(n: usize) -> ActiveTypeahead {
    ActiveTypeahead::Mention(TypeaheadMatchSet {
        leader: '@',
        query: String::new(),
        token_start: 0,
        cursor_pos: 1,
        loading: false,
        show_loading: false,
        matches: (0..n).map(|i| Mention::File(format!("f{i}"))).collect(),
    })
}

#[test]
fn selection_wraps_and_window_follows() {
    let mut st = TypeaheadState::new();
    let shown = st.present(mention_set(6), 0);
    assert_eq!(shown.match_count(), 6);
    assert_eq!(st.selected_index(), 0);
    st.move_selection(-1, 6);
    assert_eq!(st.selected_index(), 5);
    assert!(selected_is_visible(6, st.window_start(), 5));
    st.move_selection(1, 6);
    assert_eq!(st.selected_index(), 0);
    assert!(selected_is_visible(6, st.window_start(), 0));
    for _ in 0..4 {
        st.move_selection(1, 6);
    }
    assert_eq!(st.selected_index(), 4);
    assert!(selected_is_visible(6, st.window_start(), 4));
}

#[test]
fn dismissed_trigger_stays_hidden_until_token_changes() {
    let mut st = TypeaheadState::new();
    assert!(st.begin_query("/n", 2).is_some());
    st.dismiss("/n", 2);
    assert!(st.begin_query("/n", 2).is_none());
    assert!(st.begin_query("/ne", 3).is_none());
    assert!(st.begin_query("/ne ", 4).is_none());
    let q = st.begin_query("/ne /", 5).unwrap();
    assert_eq!((q.leader, q.query.as_str(), q.token_start, q.cursor_pos), ('/', "", 4, 5));
}

#[test]
fn activation_takes_selected_and_hides() {
    let mut st = TypeaheadState::new();
    let _ = st.begin_query("x /n", 4);
    let active = st.present(command_set(2, 4, vec![Command::NewSession]), 0);
    let act = st.activate_selected(active).unwrap();
    assert_eq!(act, TypeaheadActivation::Command { command: Command::NewSession, token_start: 2, token_end: 4 });
    assert!(st.begin_query("x /n", 4).is_none());
    assert!(st.activate_selected(command_set(2, 4, vec![])).is_none());
}

#[test]
fn loading_note_waits_before_showing() {
    let mut st = TypeaheadState::new();
    let loading = |show: bool| ActiveTypeahead::Command(TypeaheadMatchSet {
        leader: '/',
        query: "n".to_string(),
        token_start: 0,
        cursor_pos: 2,
        loading: true,
        show_loading: show,
        matches: Vec::<Command>::new(),
    });
    let shown = |a: &ActiveTypeahead| match a {
        ActiveTypeahead::Command(s) => s.show_loading,
        ActiveTypeahead::Mention(s) => s.show_loading,
    };
    assert!(!shown(&st.present(loading(true), 1000)));
    assert!(!shown(&st.present(loading(true), 1050)));
    assert!(shown(&st.present(loading(true), 1100)));
    assert!(shown(&st.present(loading(true), 1101)));
}
