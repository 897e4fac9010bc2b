use sessy::app::{App, Focus, PreviewLine, PreviewResult};
use sessy::parser::Speaker;
use sessy::preview::{
    check_preview_updates, find_matches, find_row, load_preview, request_preview,
};
use sessy::session::SessionMeta;
use sessy::string_set::StringSet;
use sessy::text_cache::TextCache;

fn make_session(id: &str) -> SessionMeta {
    SessionMeta {
        id: id.into(),
        project: "p".into(),
        branch: String::new(),
        name: String::new(),
        title: String::new(),
        last_message: String::new(),
        duration_secs: 0,
        timestamp: 0,
        file_size: 0,
        file_mtime: 0,
        file_path: format!("/tmp/{}.jsonl", id),
        cwd: String::new(),
        message_count: 0,
        tickets: vec![],
        text_offset: 0,
        text_len: 0,
        name_lc: String::new(),
        title_lc: String::new(),
        project_lc: "p".into(),
        branch_lc: String::new(),
        permission_mode: String::new(),
        cc_version: String::new(),
        skills: vec![],
        changed_files: vec![],
        changed_files_lc: String::new(),
    }
}

fn app_of(ids: &[&str]) -> App<'static> {
    let sessions = ids.iter().map(|id| make_session(id)).collect();
    App::new(sessions, false, StringSet::new(), TextCache::open(None))
}

fn line(text: &str, speaker: Speaker) -> PreviewLine {
    (text.to_string(), text.to_lowercase(), speaker)
}

fn result(id: &str, text: &str, tools: bool) -> PreviewResult {
    PreviewResult {
        session_id: id.into(),
        lines: vec![line(text, Speaker::User)],
        message_count: 7,
        include_tools: tools,
    }
}

#[test]
fn test_preview_scroll_clamped() {
    let mut app = app_of(&["a"]);
    app.preview_total_rows = 10;
    app.preview_viewport_height = 20;
    for _ in 0..10 {
        app.scroll_preview_down();
    }
    assert_eq!(app.preview_scroll, 0);
    app.preview_total_rows = 30;
    for _ in 0..10 {
        app.scroll_preview_down();
    }
    assert_eq!(app.preview_scroll, 10);
    assert_eq!(app.max_preview_scroll(), 10);
    app.scroll_preview_page_up(4);
    assert_eq!(app.preview_scroll, 6);
    app.scroll_preview_page_down(u16::MAX);
    assert_eq!(app.preview_scroll, 10);
    app.scroll_preview_up();
    assert_eq!(app.preview_scroll, 7);
}

#[test]
fn test_move_to_bottom() {
    let mut app = app_of(&["a", "b", "c", "d", "e"]);
    app.move_to_bottom();
    assert_eq!(app.selected, 4);
    app.move_to_top();
    assert_eq!(app.selected, 0);
}

#[test]
fn lines_start_where_those_before_end() {
    let mut app = app_of(&["a"]);
    app.preview_inner_width = 11;
    app.preview_lines = vec![
        line("abc", Speaker::User),
        line("one two three", Speaker::Assistant),
        line("x", Speaker::Tool),
    ];
    app.recompute_preview_offsets();
    // "USER: abc" fits ten columns; "ASST: one two three" takes two rows.
    assert_eq!(app.preview_line_offsets, vec![0, 2, 5]);
    assert_eq!(app.preview_total_rows, 7);
    app.preview_inner_width = 0;
    app.recompute_preview_offsets();
    assert_eq!(app.preview_line_offsets, vec![0, 2, 4]);
}

#[test]
fn searches_go_to_their_matches() {
    let mut app = app_of(&["a"]);
    app.preview_inner_width = 11;
    app.preview_lines = vec![
        line("nothing here", Speaker::User),
        line("alpha beta gamma Needle", Speaker::Assistant),
        line("another needle", Speaker::User),
    ];
    app.recompute_preview_offsets();
    app.start_preview_search();
    assert_eq!(app.focus, Focus::PreviewSearch);
    app.preview_search_query = "NEEDLE".into();
    app.update_preview_search();
    assert_eq!(app.preview_search_matches, vec![1, 2]);
    assert_eq!(app.preview_search_current, 0);
    // Line 1 starts at row 4; "Needle" is on its fifth row, and is shown below two others.
    assert_eq!(app.preview_line_offsets, vec![0, 4, 10]);
    assert_eq!(app.preview_scroll, 6);
    app.next_preview_match();
    assert_eq!(app.preview_search_current, 1);
    app.next_preview_match();
    assert_eq!(app.preview_search_current, 0);
    app.prev_preview_match();
    assert_eq!(app.preview_search_current, 1);
    app.commit_preview_search();
    assert_eq!(app.focus, Focus::Preview);
    assert_eq!(app.preview_search_matches.len(), 2);
    app.exit_preview_search();
    assert!(app.preview_search_matches.is_empty());
    assert!(app.preview_search_query.is_empty());
}

#[test]
fn a_search_for_nothing_matches_nothing() {
    let mut app = app_of(&["a"]);
    app.preview_lines = vec![line("abc", Speaker::User)];
    app.preview_scroll = 5;
    app.update_preview_search();
    assert!(app.preview_search_matches.is_empty());
    assert_eq!(app.preview_scroll, 5);
    app.next_preview_match();
    app.prev_preview_match();
    assert_eq!(app.preview_search_current, 0);
    assert_eq!(app.preview_scroll, 5);
}

#[test]
fn rows_and_lines_are_found() {
    let lines = vec![line("A b", Speaker::User), line("c", Speaker::User), line("ab", Speaker::Tool)];
    assert_eq!(find_matches(&lines, "b"), vec![0, 2]);
    assert!(find_matches(&lines, "z").is_empty());
    let rows = vec!["one".to_string(), "TWO".to_string()];
    assert_eq!(find_row(&rows, "two"), 1);
    assert_eq!(find_row(&rows, "three"), 0);
}

#[test]
fn conversations_are_asked_for_once() {
    let mut app = app_of(&["a", "b"]);
    let r = request_preview(&mut app).unwrap();
    assert_eq!(r.session_id, "a");
    assert_eq!(r.file_path, "/tmp/a.jsonl");
    assert!(!r.include_tools);
    assert!(app.preview_loading);
    check_preview_updates(&mut app, result("a", "Hello", false));
    assert!(!app.preview_loading);
    assert_eq!(app.preview_lines[0].0, "Hello");
    assert_eq!(app.sessions[0].message_count, 7);
    assert!(request_preview(&mut app).is_none());
    app.selected = 1;
    assert!(request_preview(&mut app).is_some());
    assert!(app.preview_lines.is_empty());
    app.selected = 0;
    // The first conversation was kept.
    assert!(request_preview(&mut app).is_none());
    assert_eq!(app.preview_lines[0].0, "Hello");
    assert_eq!(app.preview_session_id, "a");
    app.filtered_indices.clear();
    assert!(request_preview(&mut app).is_none());
    assert!(app.preview_lines.is_empty());
}

#[test]
fn a_late_conversation_is_kept_but_not_shown() {
    let mut app = app_of(&["a", "b"]);
    request_preview(&mut app);
    app.selected = 1;
    request_preview(&mut app);
    check_preview_updates(&mut app, result("a", "late", false));
    assert!(app.preview_loading);
    assert!(app.preview_lines.is_empty());
    assert_eq!(app.preview_cache.len(), 1);
    assert_eq!(app.sessions[0].message_count, 7);
}

#[test]
fn conversations_read_under_another_setting_are_dropped() {
    let mut app = app_of(&["a"]);
    request_preview(&mut app);
    check_preview_updates(&mut app, result("a", "x", true));
    assert!(app.preview_loading);
    assert!(app.preview_cache.is_empty());
    assert_eq!(app.sessions[0].message_count, 0);
    check_preview_updates(&mut app, result("a", "x", false));
    assert_eq!(app.preview_cache.len(), 1);
    app.toggle_tools();
    assert!(app.preview_cache.is_empty());
    assert!(app.preview_lines.is_empty());
    assert_eq!(app.preview_session_id, "");
}

#[test]
fn the_oldest_of_ten_conversations_goes() {
    let mut app = app_of(&["a"]);
    for i in 0..10 {
        app.cache_preview(i.to_string(), vec![line(&i.to_string(), Speaker::User)]);
    }
    app.cache_preview("3".into(), vec![line("again", Speaker::User)]);
    assert_eq!(app.preview_cache.len(), 10);
    assert_eq!(app.preview_cache[3].lines[0].0, "again");
    app.cache_preview("new".into(), vec![]);
    assert_eq!(app.preview_cache.len(), 10);
    assert_eq!(app.preview_cache[0].session_id, "1");
    assert_eq!(app.preview_cache[9].session_id, "new");
}

#[test]
fn loading_lowers_and_counts() {
    let messages = vec![
        (Speaker::User, "Hi THERE".to_string()),
        (Speaker::Assistant, "Yes".to_string()),
        (Speaker::User, "ok".to_string()),
    ];
    let r = load_preview("id".into(), messages, true);
    assert_eq!(r.message_count, 2);
    assert!(r.include_tools);
    assert_eq!(r.lines[0], ("Hi THERE".to_string(), "hi there".to_string(), Speaker::User));
    assert_eq!(r.lines.len(), 3);
}

#[test]
fn messages_for_the_status_line_fade() {
    let mut app = app_of(&["a"]);
    assert_eq!(app.active_status(0), None);
    app.set_status("saved".into());
    assert_eq!(app.active_status(2), Some("saved"));
    assert_eq!(app.active_status(3), None);
    app.export_selected(Ok("a.md".into()));
    assert_eq!(app.active_status(0), Some("Exported → a.md"));
    app.export_selected(Err("no space".into()));
    assert_eq!(app.active_status(0), Some("Export failed: no space"));
}
