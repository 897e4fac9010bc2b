use sessy::app::{App, Scope, SortMode};
use sessy::search::{parse_query, score_session, starts_at_word_boundary};
use sessy::session::SessionMeta;
use sessy::string_set::StringSet;
use sessy::text_cache::TextCache;

fn make_session(
    id: &str,
    name: &str,
    title: &str,
    project: &str,
    branch: &str,
    tickets: Vec<&str>,
) -> SessionMeta {
    SessionMeta {
        id: id.into(),
        project: project.into(),
        branch: branch.into(),
        name: name.into(),
        title: title.into(),
        last_message: String::new(),
        duration_secs: 0,
        timestamp: 0,
        file_size: 0,
        file_mtime: 0,
        file_path: format!("/tmp/{}.jsonl", id),
        cwd: String::new(),
        message_count: 0,
        tickets: tickets.into_iter().map(String::from).collect(),
        text_offset: 0,
        text_len: 0,
        name_lc: name.to_lowercase(),
        title_lc: title.to_lowercase(),
        project_lc: project.to_lowercase(),
        branch_lc: branch.to_lowercase(),
        permission_mode: String::new(),
        cc_version: String::new(),
        skills: vec![],
        changed_files: vec![],
        changed_files_lc: String::new(),
    }
}

fn empty_cache() -> TextCache<'static> {
    TextCache::open(None)
}

#[test]
fn test_empty_query_restores_all() {
    let sessions = vec![
        make_session("a", "", "", "p1", "main", vec![]),
        make_session("b", "", "", "p2", "main", vec![]),
    ];
    let mut app = App::new(sessions, false, StringSet::new(), empty_cache());
    app.search_query.clear();
    app.apply_search();
    assert_eq!(app.filtered_indices.len(), 2);
}

#[test]
fn test_ticket_exact_beats_name() {
    let sessions = vec![
        make_session("a", "PROJ-123", "", "p", "main", vec![]),
        make_session("b", "", "", "p", "main", vec!["PROJ-123"]),
    ];
    let mut app = App::new(sessions, false, StringSet::new(), empty_cache());
    app.search_query = "PROJ-123".into();
    app.apply_search();
    assert_eq!(app.filtered_indices.len(), 2);
    // session "b" (ticket hit) ranks above "a" (name hit)
    assert_eq!(app.sessions[app.filtered_indices[0]].id, "b");
}

#[test]
fn test_name_beats_project() {
    let sessions = vec![
        make_session("a", "kerveros", "", "other", "main", vec![]),
        make_session("b", "", "", "kerveros", "main", vec![]),
    ];
    let mut app = App::new(sessions, false, StringSet::new(), empty_cache());
    app.search_query = "kerveros".into();
    app.apply_search();
    assert_eq!(app.sessions[app.filtered_indices[0]].id, "a");
}

#[test]
fn test_and_across_tokens_field_or() {
    let sessions = vec![
        make_session("a", "kerveros encrypt", "", "p", "main", vec![]),
        make_session("b", "kerveros", "", "p", "main", vec![]),
        make_session("c", "kerveros", "", "encrypt-stuff", "main", vec![]),
    ];
    let mut app = App::new(sessions, false, StringSet::new(), empty_cache());
    app.search_query = "kerveros encrypt".into();
    app.apply_search();
    let ids: Vec<&str> = app
        .filtered_indices
        .iter()
        .map(|&i| app.sessions[i].id.as_str())
        .collect();
    assert!(ids.contains(&"a"), "got {:?}", ids);
    assert!(ids.contains(&"c"), "got {:?}", ids);
    assert!(!ids.contains(&"b"), "session b should not match: {:?}", ids);
}

#[test]
fn test_no_match_returns_empty() {
    let sessions = vec![make_session("a", "kerveros", "", "p", "main", vec![])];
    let mut app = App::new(sessions, false, StringSet::new(), empty_cache());
    app.search_query = "zzzzznevermatch".into();
    app.apply_search();
    assert!(app.filtered_indices.is_empty());
}

#[test]
fn test_bookmarks_float_to_top_under_relevance() {
    let sessions = vec![
        make_session("a", "kerveros", "", "p", "main", vec![]),
        make_session("b", "kerveros", "", "p", "main", vec![]),
    ];
    let mut bookmarks = StringSet::new();
    bookmarks.insert("b".to_string());
    let mut app = App::new(sessions, false, bookmarks, empty_cache());
    app.search_query = "kerveros".into();
    app.apply_search();
    assert_eq!(app.sessions[app.filtered_indices[0]].id, "b");
}

fn listed(app: &App) -> Vec<String> {
    app.filtered_indices.iter().map(|&i| app.sessions[i].id.clone()).collect()
}

fn tokens(v: &[&str]) -> Vec<String> {
    v.iter().map(|s| s.to_string()).collect()
}

#[test]
fn test_search_matches_changed_file() {
    let mut s = make_session("a", "", "", "", "", vec![]);
    s.changed_files_lc = "src/auth.rs".into();
    let mut app = App::new(vec![s], false, StringSet::new(), empty_cache());
    app.search_query = "auth.rs".into();
    app.apply_search();
    assert_eq!(app.filtered_indices.len(), 1);
}

#[test]
fn scores_tell_where_a_word_stands() {
    let mut s = make_session("a", "Login page", "fix", "webshop", "feat/cart", vec![]);
    s.changed_files_lc = "src/pay.rs".into();
    let body = b"something said once";
    let score = |t: &[&str]| score_session(&s, body, &tokens(t), false);
    assert_eq!(score(&["login"]), Some(550));
    assert_eq!(score(&["ogin"]), Some(500));
    assert_eq!(score(&["fix"]), Some(550));
    assert_eq!(score(&["web"]), Some(400));
    assert_eq!(score(&["cart"]), Some(300));
    assert_eq!(score(&["pay"]), Some(200));
    assert_eq!(score(&["said"]), Some(100));
    assert_eq!(score(&["absent"]), None);
    assert_eq!(score(&["login", "said"]), Some(650));
    assert_eq!(score(&["login", "absent"]), None);
    assert_eq!(score(&[]), Some(0));
}

#[test]
fn a_ticket_scores_even_where_its_words_do_not_stand() {
    let s = make_session("a", "proj-9 cleanup", "", "p", "main", vec![]);
    assert_eq!(score_session(&s, b"", &tokens(&["proj-9"]), true), Some(1550));
    assert_eq!(score_session(&s, b"", &tokens(&["proj-1"]), true), Some(1000));
    assert_eq!(score_session(&s, b"proj-1", &tokens(&["proj-1"]), true), Some(1000));
}

#[test]
fn words_begin_after_what_is_no_letter_or_digit() {
    assert!(starts_at_word_boundary(b"abc def", b"def"));
    assert!(starts_at_word_boundary(b"abc", b"abc"));
    assert!(starts_at_word_boundary(b"xab ab", b"ab"));
    assert!(!starts_at_word_boundary(b"xab", b"ab"));
    assert!(!starts_at_word_boundary(b"abc", b""));
    assert!(!starts_at_word_boundary(b"", b"a"));
    // Occurrences do not overlap.
    assert!(!starts_at_word_boundary(b"x.a.a", b".a.a"));
    assert!(starts_at_word_boundary("ü.ab".as_bytes(), b"ab"));
}

#[test]
fn queries_are_words_and_perhaps_a_ticket() {
    let q = parse_query("  Foo\tBAR ");
    assert_eq!(q.tokens, vec!["foo", "bar"]);
    assert_eq!(q.ticket, None);
    let q = parse_query("proj-12");
    assert_eq!(q.tokens, vec!["proj-12"]);
    assert_eq!(q.ticket, Some("PROJ-12".to_string()));
    assert_eq!(parse_query("#7").ticket, Some("#7".to_string()));
    assert_eq!(parse_query("proj-12 x").ticket, None);
    assert_eq!(parse_query("p-1").ticket, None);
}

#[test]
fn a_ticket_is_found_in_any_case() {
    let sessions = vec![
        make_session("a", "nothing", "", "p", "main", vec!["ABC-1", "PROJ-12"]),
        make_session("b", "proj-1", "", "p", "main", vec![]),
    ];
    let mut app = App::new(sessions, false, StringSet::new(), empty_cache());
    app.search_query = "proj-12".into();
    app.apply_search();
    assert_eq!(listed(&app), vec!["a"]);
}

#[test]
fn the_text_of_a_session_is_searched_in_the_cache() {
    let contents = b"alpha betagamma".to_vec();
    let mut a = make_session("a", "", "", "p", "main", vec![]);
    a.text_offset = 0;
    a.text_len = 10;
    let mut b = make_session("b", "", "", "p", "main", vec![]);
    b.text_offset = 10;
    b.text_len = 5;
    let mut app = App::new(vec![a, b], false, StringSet::new(), TextCache::open(Some(&contents)));
    app.search_query = "gamma".into();
    app.apply_search();
    assert_eq!(listed(&app), vec!["b"]);
    app.search_query = "eta".into();
    app.apply_search();
    assert_eq!(listed(&app), vec!["a"]);
    app.search_query = "tag".into();
    app.apply_search();
    assert!(listed(&app).is_empty());
}

#[test]
fn equal_scores_are_ordered_by_time_and_then_as_they_stand() {
    let mut sessions = vec![
        make_session("a", "x", "", "p", "main", vec![]),
        make_session("b", "x", "", "p", "main", vec![]),
        make_session("c", "x", "", "p", "main", vec![]),
    ];
    sessions[2].timestamp = 5;
    let mut app = App::new(sessions, false, StringSet::new(), empty_cache());
    app.search_query = "x".into();
    app.apply_search();
    assert_eq!(listed(&app), vec!["c", "a", "b"]);
}

#[test]
fn blanks_ask_for_nothing() {
    let mut sessions = vec![
        make_session("a", "", "", "p", "main", vec![]),
        make_session("b", "", "", "p", "main", vec![]),
    ];
    sessions[1].timestamp = 9;
    let mut app = App::new(sessions, false, StringSet::new(), empty_cache());
    app.search_query = "   ".into();
    app.apply_search();
    // Nothing is sorted while a search is typed in.
    assert_eq!(listed(&app), vec!["a", "b"]);
    app.search_query.clear();
    app.apply_search();
    assert_eq!(listed(&app), vec!["b", "a"]);
}

#[test]
fn test_sort_by_messages_orders_desc() {
    let mut sessions = vec![
        make_session("a", "", "", "p", "main", vec![]),
        make_session("b", "", "", "p", "main", vec![]),
    ];
    sessions[0].message_count = 3;
    sessions[1].message_count = 9;
    let mut app = App::new(sessions, false, StringSet::new(), empty_cache());
    app.sort_mode = SortMode::Messages;
    app.apply_sort();
    assert_eq!(listed(&app), vec!["b", "a"]);
}

#[test]
fn sorting_goes_through_all_modes() {
    let mut sessions = vec![
        make_session("a", "", "", "p", "main", vec![]),
        make_session("b", "", "", "p", "main", vec![]),
        make_session("c", "", "", "p", "main", vec![]),
        make_session("d", "", "", "p", "main", vec![]),
    ];
    sessions[0].timestamp = 1;
    sessions[1].file_size = 1;
    sessions[2].duration_secs = 1;
    sessions[3].message_count = 1;
    let mut app = App::new(sessions, false, StringSet::new(), empty_cache());
    app.rebuild_view();
    assert_eq!(listed(&app), vec!["a", "b", "c", "d"]);
    app.selected = 2;
    app.preview_scroll = 4;
    app.cycle_sort();
    assert_eq!(app.sort_mode, SortMode::Size);
    assert_eq!(app.selected, 0);
    assert_eq!(app.preview_scroll, 0);
    assert_eq!(listed(&app), vec!["b", "a", "c", "d"]);
    app.cycle_sort();
    assert_eq!(listed(&app), vec!["c", "b", "a", "d"]);
    app.cycle_sort();
    assert_eq!(listed(&app), vec!["d", "c", "b", "a"]);
    app.cycle_sort();
    assert_eq!(app.sort_mode, SortMode::Date);
    assert_eq!(listed(&app), vec!["a", "d", "c", "b"]);
}

#[test]
fn negative_times_sort_last() {
    let mut sessions = vec![
        make_session("a", "", "", "p", "main", vec![]),
        make_session("b", "", "", "p", "main", vec![]),
        make_session("c", "", "", "p", "main", vec![]),
    ];
    sessions[0].timestamp = i64::MIN;
    sessions[2].timestamp = i64::MAX;
    let mut app = App::new(sessions, false, StringSet::new(), empty_cache());
    app.rebuild_view();
    assert_eq!(listed(&app), vec!["c", "b", "a"]);
}

#[test]
fn test_scope_filter_current_limits_to_cwd() {
    let mut sessions = vec![
        make_session("a", "", "", "p", "main", vec![]),
        make_session("b", "", "", "p", "main", vec![]),
    ];
    sessions[0].file_path = "/home/me/projects/-home-me-one/a.jsonl".into();
    sessions[1].file_path = "/home/me/projects/-home-me-one-two/b.jsonl".into();
    let mut app = App::new(sessions, false, StringSet::new(), empty_cache());
    app.cwd_encoded = Some("-home-me-one".into());
    app.scope = Scope::Current;
    app.rebuild_view();
    assert_eq!(listed(&app), vec!["a"]);
    app.toggle_scope();
    assert_eq!(listed(&app), vec!["a", "b"]);
    app.toggle_scope();
    assert_eq!(app.scope, Scope::Current);
    assert_eq!(listed(&app), vec!["a"]);
}

#[test]
fn size_filters_toggle() {
    let mut sessions = vec![
        make_session("a", "", "", "p", "main", vec![]),
        make_session("b", "", "", "p", "main", vec![]),
    ];
    sessions[1].file_size = 2 * 1024 * 1024;
    let mut app = App::new(sessions, false, StringSet::new(), empty_cache());
    app.toggle_size_filter("medium");
    assert_eq!(listed(&app), vec!["b"]);
    app.toggle_size_filter("quick");
    assert_eq!(listed(&app), vec!["a"]);
    app.toggle_size_filter("quick");
    assert_eq!(app.size_filter, None);
    assert_eq!(listed(&app), vec!["a", "b"]);
    app.toggle_size_filter("massive");
    assert!(listed(&app).is_empty());
    assert!(app.selected_session().is_none());
    app.clear_size_filter();
    assert_eq!(app.filtered_indices.len(), 2);
}

#[test]
fn bookmarks_toggle_and_float() {
    let sessions = vec![
        make_session("a", "", "", "p", "main", vec![]),
        make_session("b", "", "", "p", "main", vec![]),
        make_session("c", "", "", "p", "main", vec![]),
    ];
    let mut app = App::new(sessions, false, StringSet::new(), empty_cache());
    app.selected = 2;
    assert!(app.toggle_bookmark());
    assert_eq!(listed(&app), vec!["c", "a", "b"]);
    assert!(app.bookmarks.contains("c"));
    app.selected = 0;
    assert!(app.toggle_bookmark());
    assert!(app.bookmarks.is_empty());
    assert_eq!(listed(&app), vec!["c", "a", "b"]);
    app.selected = 7;
    assert!(!app.toggle_bookmark());
}

#[test]
fn test_delete_removes_bookmark() {
    let sessions = vec![make_session("a", "", "", "p", "main", vec![])];
    let mut bookmarks = StringSet::new();
    bookmarks.insert("a".to_string());
    let mut app = App::new(sessions, false, bookmarks, empty_cache());
    assert!(app.cleanup_bookmark_for_deleted("a"));
    assert!(!app.bookmarks.contains("a"));
    assert!(!app.cleanup_bookmark_for_deleted("a"));
}

#[test]
fn deleting_moves_the_others_up() {
    let sessions = vec![
        make_session("a", "", "", "p", "main", vec![]),
        make_session("b", "", "", "p", "main", vec![]),
        make_session("c", "", "", "p", "main", vec![]),
    ];
    let mut bookmarks = StringSet::new();
    bookmarks.insert("b".to_string());
    let mut app = App::new(sessions, false, bookmarks, empty_cache());
    app.rebuild_view();
    assert_eq!(listed(&app), vec!["b", "a", "c"]);
    app.confirm_delete = true;
    assert!(!app.delete_selected(false));
    assert!(!app.confirm_delete);
    assert_eq!(app.sessions.len(), 3);
    assert!(app.delete_selected(true));
    assert_eq!(listed(&app), vec!["a", "c"]);
    assert_eq!(app.filtered_indices, vec![0, 1]);
    assert!(app.bookmarks.is_empty());
    app.selected = 1;
    assert!(!app.delete_selected(true));
    assert_eq!(app.selected, 0);
    assert_eq!(listed(&app), vec!["a"]);
    app.delete_selected(true);
    assert!(app.sessions.is_empty());
    assert_eq!(app.selected, 0);
    assert!(!app.delete_selected(true));
}
