use sessy::app::{AppAction, Scope, SortMode};
use sessy::config::parse_config;
use sessy::launch::{
    by_recency, confirms, keep_project, keep_recent, open_browser, outcome, purge_candidates,
    purge_question, recency_order, Outcome,
};
use sessy::session::SessionMeta;
use sessy::string_set::StringSet;
use sessy::text_cache::TextCache;

fn make_session(id: &str) -> SessionMeta {
    SessionMeta {
        id: id.into(),
        project: "p".into(),
        branch: String::new(),
        name: String::new(),
        title: String::new(),
        last_message: String::new(),
        duration_secs: 0,
        timestamp: 0,
        file_size: 0,
        file_mtime: 0,
        file_path: format!("/tmp/{}.jsonl", id),
        cwd: String::new(),
        message_count: 0,
        tickets: vec![],
        text_offset: 0,
        text_len: 0,
        name_lc: String::new(),
        title_lc: String::new(),
        project_lc: "p".into(),
        branch_lc: String::new(),
        permission_mode: String::new(),
        cc_version: String::new(),
        skills: vec![],
        changed_files: vec![],
        changed_files_lc: String::new(),
    }
}

fn ids(sessions: &[SessionMeta]) -> Vec<&str> {
    sessions.iter().map(|s| s.id.as_str()).collect()
}

fn timed(id: &str, timestamp: i64) -> SessionMeta {
    let mut s = make_session(id);
    s.timestamp = timestamp;
    s
}

#[test]
fn newest_sessions_come_first() {
    let sessions =
        vec![timed("a", 1), timed("b", 3), timed("c", 1), timed("d", i64::MIN), timed("e", 9)];
    assert_eq!(recency_order(&sessions), vec![4, 1, 0, 2, 3]);
    assert_eq!(ids(&by_recency(&sessions)), vec!["e", "b", "a", "c", "d"]);
}

#[test]
fn projects_are_filtered_in_any_case() {
    let mut sessions = vec![make_session("a"), make_session("b"), make_session("c")];
    sessions[0].project = "WebShop".into();
    sessions[2].project = "web".into();
    assert_eq!(ids(&keep_project(sessions, "WEB")), vec!["a", "c"]);
}

#[test]
fn recent_sessions_are_not_older_than_asked() {
    let sessions = vec![timed("a", 100), timed("b", 99), timed("c", 150)];
    assert_eq!(ids(&keep_recent(sessions.clone(), 200, 100)), vec!["a", "c"]);
    assert_eq!(keep_recent(sessions.clone(), 200, u64::MAX).len(), 3);
    assert_eq!(keep_recent(sessions, i64::MIN, 5).len(), 3);
}

#[test]
fn only_small_old_sessions_are_purged() {
    let day = 86400;
    let now = 10 * day;
    let mut sessions = vec![timed("a", 0), timed("b", 0), timed("c", now), timed("d", 8 * day)];
    sessions[1].file_size = 15 * 1024;
    assert_eq!(purge_candidates(&sessions, now), vec![0]);
    assert_eq!(purge_candidates(&sessions, now + 1), vec![0, 3]);
    assert!(purge_candidates(&sessions, i64::MIN).is_empty());
}

#[test]
fn a_purge_is_confirmed_by_y_alone() {
    assert!(confirms(" Y\n"));
    assert!(confirms("y"));
    assert!(!confirms("yes"));
    assert!(!confirms(""));
    assert_eq!(
        purge_question(12),
        "Found 12 sessions < 15 KB and older than 2 days. Delete all? [y/N]"
    );
}

#[test]
fn the_browser_opens_as_configured() {
    let mut sessions = vec![make_session("a"), make_session("b")];
    sessions[1].file_path = "/x/-home-me/b.jsonl".into();
    let config = parse_config("sort = \"size\"\nshow_tool_activity = true");
    let app = open_browser(
        sessions.clone(),
        true,
        StringSet::new(),
        TextCache::open(None),
        "/home/me",
        false,
        &config,
    );
    assert_eq!(app.scope, Scope::Current);
    assert_eq!(app.cwd_encoded.as_deref(), Some("-home-me"));
    assert_eq!(app.sort_mode, SortMode::Size);
    assert!(app.show_tools);
    assert!(app.print_mode);
    assert_eq!(app.filtered_indices, vec![1]);
    assert_eq!(app.selected, 0);
    assert_eq!(app.terminal_height, 40);
    assert!(!app.confirm_delete && !app.show_help && !app.show_files && !app.preview_loading);
    let app = open_browser(
        sessions.clone(),
        false,
        StringSet::new(),
        TextCache::open(None),
        "/home/me",
        true,
        &config,
    );
    assert_eq!(app.scope, Scope::All);
    assert_eq!(app.filtered_indices, vec![0, 1]);
    let app = open_browser(
        sessions,
        false,
        StringSet::new(),
        TextCache::open(None),
        "",
        false,
        &parse_config("scope = \"All\""),
    );
    assert_eq!(app.scope, Scope::All);
    assert_eq!(app.cwd_encoded, None);
}

#[test]
fn what_follows_is_about_the_session_chosen() {
    let mut sessions = vec![make_session("a"), make_session("b")];
    sessions[1].cwd = "/work".into();
    let mut app = open_browser(
        sessions,
        false,
        StringSet::new(),
        TextCache::open(None),
        "",
        true,
        &parse_config(""),
    );
    assert!(matches!(outcome(&app, "run"), Outcome::Nothing));
    app.action = AppAction::Quit;
    assert!(matches!(outcome(&app, "run"), Outcome::Nothing));
    app.action = AppAction::Launch(1);
    match outcome(&app, "run") {
        Outcome::Resume { id, cwd, skip_permissions } => {
            assert_eq!(id, "b");
            assert_eq!(cwd, "/work");
            assert!(!skip_permissions);
        }
        _ => panic!("a launch resumes"),
    }
    app.action = AppAction::LaunchDangerously(0);
    match outcome(&app, "run") {
        Outcome::Resume { id, skip_permissions, .. } => {
            assert_eq!(id, "a");
            assert!(skip_permissions);
        }
        _ => panic!("a launch resumes"),
    }
    app.action = AppAction::Yank(1);
    match outcome(&app, "run") {
        Outcome::Copy(t) => assert_eq!(t, "run --resume b"),
        _ => panic!("a yank copies"),
    }
    app.action = AppAction::Print(0);
    match outcome(&app, "run") {
        Outcome::Print(t) => assert_eq!(t, "a"),
        _ => panic!("a print prints"),
    }
    app.action = AppAction::Print(2);
    assert!(matches!(outcome(&app, "run"), Outcome::Nothing));
}
