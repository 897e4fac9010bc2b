use sessy::app::{App, AppAction, Focus, Scope, SortMode, ViewMode};
use sessy::keys::{
    finish_deletion, handle_key, handle_list_key, handle_preview_key, handle_preview_search_key,
    handle_search_key, handle_text_input_key, Effect, KeyCode, KeyEvent, KeyModifiers,
};
use sessy::input::TextInput;
use sessy::parser::Speaker;
use sessy::session::SessionMeta;
use sessy::string_set::StringSet;
use sessy::text_cache::TextCache;

const NONE: KeyModifiers = KeyModifiers { shift: false, control: false, alt: false, command: false };
const SHIFT: KeyModifiers =
    KeyModifiers { shift: true, control: false, alt: false, command: false };
const CONTROL: KeyModifiers = KeyModifiers { shift: false, control: true, alt: false, command: false };
const ALT: KeyModifiers = KeyModifiers { shift: false, control: false, alt: true, command: false };
const COMMAND: KeyModifiers = KeyModifiers { shift: false, control: false, alt: false, command: true };

fn test_app() -> App<'static> {
    let cache = TextCache::open(None);
    App::new(vec![], false, StringSet::new(), cache)
}

fn key(code: KeyCode, modifiers: KeyModifiers) -> KeyEvent {
    KeyEvent { code, modifiers }
}

#[test]
fn cmd_backspace_clears_search_query() {
    let mut app = test_app();
    app.focus = Focus::Search;
    app.search_query = "hello world".into();
    handle_search_key(&mut app, key(KeyCode::Backspace, COMMAND));
    assert_eq!(app.search_query.text(), "");
}

#[test]
fn alt_backspace_deletes_word_in_search_query() {
    let mut app = test_app();
    app.focus = Focus::Search;
    app.search_query = "hello world".into();
    handle_search_key(&mut app, key(KeyCode::Backspace, ALT));
    assert_eq!(app.search_query.text(), "hello ");
}

#[test]
fn shifted_chars_still_type_into_search_query() {
    let mut app = test_app();
    app.focus = Focus::Search;
    handle_search_key(&mut app, key(KeyCode::Char('A'), SHIFT));
    assert_eq!(app.search_query.text(), "A");
}

#[test]
fn arrows_move_cursor_and_edit_mid_string() {
    let mut app = test_app();
    app.focus = Focus::Search;
    app.search_query = "helo world".into();
    // ⌘← to start, then → →, then insert the missing 'l'.
    handle_search_key(&mut app, key(KeyCode::Left, COMMAND));
    handle_search_key(&mut app, key(KeyCode::Right, NONE));
    handle_search_key(&mut app, key(KeyCode::Right, NONE));
    handle_search_key(&mut app, key(KeyCode::Char('l'), NONE));
    assert_eq!(app.search_query.text(), "hello world");
}

#[test]
fn alt_arrows_jump_words_and_backspace_deletes_before_cursor() {
    let mut app = test_app();
    app.focus = Focus::Search;
    app.search_query = "hello brave world".into();
    // ⌥← twice → cursor at start of "brave"; ⌥⌫ deletes "hello ".
    handle_search_key(&mut app, key(KeyCode::Left, ALT));
    handle_search_key(&mut app, key(KeyCode::Left, ALT));
    handle_search_key(&mut app, key(KeyCode::Backspace, ALT));
    assert_eq!(app.search_query.text(), "brave world");
}

#[test]
fn cmd_backspace_deletes_to_start_keeping_tail() {
    let mut app = test_app();
    app.focus = Focus::Search;
    app.search_query = "hello world".into();
    handle_search_key(&mut app, key(KeyCode::Left, ALT));
    handle_search_key(&mut app, key(KeyCode::Backspace, COMMAND));
    assert_eq!(app.search_query.text(), "world");
}

#[test]
fn cursor_moves_do_not_reset_selection() {
    // Cursor-only keys must not rebuild the view (which resets selection).
    let mut app = test_app();
    app.focus = Focus::Search;
    app.search_query = "abc".into();
    app.selected = 3;
    handle_search_key(&mut app, key(KeyCode::Left, NONE));
    handle_search_key(&mut app, key(KeyCode::Home, NONE));
    assert_eq!(app.selected, 3);
}

#[test]
fn cmd_backspace_clears_preview_search_query() {
    let mut app = test_app();
    app.focus = Focus::PreviewSearch;
    app.preview_search_query = "hello world".into();
    handle_preview_search_key(&mut app, key(KeyCode::Backspace, COMMAND));
    assert_eq!(app.preview_search_query.text(), "");
}

#[test]
fn alt_backspace_deletes_word_in_preview_search_query() {
    let mut app = test_app();
    app.focus = Focus::PreviewSearch;
    app.preview_search_query = "hello world".into();
    handle_preview_search_key(&mut app, key(KeyCode::Backspace, ALT));
    assert_eq!(app.preview_search_query.text(), "hello ");
}

fn make_session(id: &str) -> SessionMeta {
    SessionMeta {
        id: id.into(),
        project: "p".into(),
        branch: String::new(),
        name: String::new(),
        title: String::new(),
        last_message: String::new(),
        duration_secs: 0,
        timestamp: 0,
        file_size: 0,
        file_mtime: 0,
        file_path: format!("/tmp/{}.jsonl", id),
        cwd: String::new(),
        message_count: 0,
        tickets: vec![],
        text_offset: 0,
        text_len: 0,
        name_lc: String::new(),
        title_lc: String::new(),
        project_lc: "p".into(),
        branch_lc: String::new(),
        permission_mode: String::new(),
        cc_version: String::new(),
        skills: vec![],
        changed_files: vec![],
        changed_files_lc: String::new(),
    }
}

fn app_of(ids: &[&str]) -> App<'static> {
    let sessions = ids.iter().map(|id| make_session(id)).collect();
    App::new(sessions, false, StringSet::new(), TextCache::open(None))
}

fn is_nothing(e: &Effect) -> bool {
    matches!(e, Effect::Nothing)
}

fn loads(e: &Effect, id: &str) -> bool {
    match e {
        Effect::Load(r) => r.session_id == id,
        _ => false,
    }
}

#[test]
fn control_keys_edit_as_in_a_shell() {
    let press = |text: &str, c: char| {
        let mut input = TextInput::from(text);
        input.move_word_left();
        let changed = handle_text_input_key(&mut input, key(KeyCode::Char(c), CONTROL));
        (input.text().to_string(), input.cursor_chars(), changed)
    };
    assert_eq!(press("one two three", 'w'), ("one three".to_string(), 4, true));
    assert_eq!(press("one two three", 'u'), ("three".to_string(), 0, true));
    assert_eq!(press("one two three", 'k'), ("one two ".to_string(), 8, true));
    assert_eq!(press("one two three", 'a'), ("one two three".to_string(), 0, false));
    assert_eq!(press("one two three", 'e'), ("one two three".to_string(), 13, false));
    assert_eq!(press("one two three", 'x'), ("one two three".to_string(), 8, false));
}

#[test]
fn modified_characters_are_not_typed() {
    let mut input = TextInput::new();
    assert!(!handle_text_input_key(&mut input, key(KeyCode::Char('a'), ALT)));
    assert!(!handle_text_input_key(&mut input, key(KeyCode::Char('a'), COMMAND)));
    assert!(!handle_text_input_key(&mut input, key(KeyCode::Up, NONE)));
    assert!(input.is_empty());
    assert!(handle_text_input_key(&mut input, key(KeyCode::Char('a'), NONE)));
    assert!(handle_text_input_key(&mut input, key(KeyCode::Char('b'), NONE)));
    assert!(!handle_text_input_key(&mut input, key(KeyCode::Home, NONE)));
    assert!(handle_text_input_key(&mut input, key(KeyCode::Delete, NONE)));
    assert_eq!(input.text(), "b");
    assert!(!handle_text_input_key(&mut input, key(KeyCode::End, NONE)));
    assert!(handle_text_input_key(&mut input, key(KeyCode::Backspace, NONE)));
    assert_eq!(input.text(), "");
}

#[test]
fn the_selection_goes_round() {
    let mut app = app_of(&["a", "b", "c"]);
    let e = handle_list_key(&mut app, KeyCode::Up);
    assert_eq!(app.selected, 2);
    assert!(loads(&e, "c"));
    let e = handle_list_key(&mut app, KeyCode::Char('j'));
    assert_eq!(app.selected, 0);
    assert!(loads(&e, "a"));
    handle_list_key(&mut app, KeyCode::Char('G'));
    assert_eq!(app.selected, 2);
    handle_list_key(&mut app, KeyCode::Char('g'));
    assert_eq!(app.selected, 0);
    handle_list_key(&mut app, KeyCode::End);
    assert_eq!(app.selected, 2);
    handle_list_key(&mut app, KeyCode::Home);
    assert_eq!(app.selected, 0);
}

#[test]
fn pages_stop_at_the_ends() {
    let ids: Vec<String> = (0..30).map(|i| i.to_string()).collect();
    let ids: Vec<&str> = ids.iter().map(|s| s.as_str()).collect();
    let mut app = app_of(&ids);
    app.terminal_height = 40;
    handle_list_key(&mut app, KeyCode::PageDown);
    assert_eq!(app.selected, 10);
    handle_list_key(&mut app, KeyCode::PageDown);
    handle_list_key(&mut app, KeyCode::PageDown);
    assert_eq!(app.selected, 29);
    handle_list_key(&mut app, KeyCode::PageUp);
    assert_eq!(app.selected, 19);
    app.terminal_height = 2;
    handle_list_key(&mut app, KeyCode::PageUp);
    assert_eq!(app.selected, 18);
}

#[test]
fn nothing_moves_in_an_empty_list() {
    let mut app = test_app();
    for code in [KeyCode::Up, KeyCode::Down, KeyCode::PageUp, KeyCode::PageDown, KeyCode::End] {
        let e = handle_list_key(&mut app, code);
        assert!(is_nothing(&e));
        assert_eq!(app.selected, 0);
    }
    handle_list_key(&mut app, KeyCode::Char('d'));
    assert!(!app.confirm_delete);
    handle_list_key(&mut app, KeyCode::Enter);
    assert_eq!(app.action, AppAction::Stay);
    assert!(is_nothing(&handle_list_key(&mut app, KeyCode::Char('e'))));
    assert!(is_nothing(&handle_list_key(&mut app, KeyCode::Char('b'))));
}

#[test]
fn keys_choose_what_follows() {
    let chosen = |code: KeyCode, print: bool| {
        let mut app = app_of(&["a", "b"]);
        app.print_mode = print;
        app.selected = 1;
        handle_list_key(&mut app, code);
        app.action
    };
    assert_eq!(chosen(KeyCode::Enter, false), AppAction::LaunchDangerously(1));
    assert_eq!(chosen(KeyCode::Enter, true), AppAction::Print(1));
    assert_eq!(chosen(KeyCode::Char('l'), true), AppAction::Launch(1));
    assert_eq!(chosen(KeyCode::Char('c'), false), AppAction::Yank(1));
    assert_eq!(chosen(KeyCode::Char('p'), false), AppAction::Print(1));
    assert_eq!(chosen(KeyCode::Char('q'), false), AppAction::Quit);
    assert_eq!(chosen(KeyCode::Esc, false), AppAction::Quit);
    assert_eq!(chosen(KeyCode::Other, false), AppAction::Stay);
}

#[test]
fn keys_of_the_list_switch_things() {
    let mut app = app_of(&["a", "b"]);
    app.cwd_encoded = Some("x".into());
    app.scope = Scope::Current;
    handle_list_key(&mut app, KeyCode::Char('a'));
    assert_eq!(app.scope, Scope::All);
    handle_list_key(&mut app, KeyCode::Char('s'));
    assert_eq!(app.sort_mode, SortMode::Size);
    handle_list_key(&mut app, KeyCode::Char('2'));
    assert_eq!(app.size_filter, Some("medium"));
    handle_list_key(&mut app, KeyCode::Char('3'));
    assert_eq!(app.size_filter, Some("deep"));
    handle_list_key(&mut app, KeyCode::Char('4'));
    assert_eq!(app.size_filter, Some("massive"));
    handle_list_key(&mut app, KeyCode::Char('0'));
    assert_eq!(app.size_filter, None);
    handle_list_key(&mut app, KeyCode::Char('1'));
    assert_eq!(app.size_filter, Some("quick"));
    handle_list_key(&mut app, KeyCode::Char('f'));
    assert!(app.show_files);
    handle_list_key(&mut app, KeyCode::Char('T'));
    assert!(app.show_tools);
    handle_list_key(&mut app, KeyCode::Tab);
    assert_eq!(app.focus, Focus::Preview);
    handle_list_key(&mut app, KeyCode::Char('/'));
    assert_eq!(app.focus, Focus::Search);
    assert!(matches!(handle_list_key(&mut app, KeyCode::Char('b')), Effect::SaveBookmarks));
    assert!(matches!(handle_list_key(&mut app, KeyCode::Char('e')), Effect::Export));
}

#[test]
fn the_timeline_takes_only_keys_that_leave() {
    let mut app = app_of(&["a", "b"]);
    handle_list_key(&mut app, KeyCode::Char('t'));
    assert_eq!(app.view_mode, ViewMode::Timeline);
    handle_list_key(&mut app, KeyCode::Down);
    assert_eq!(app.selected, 0);
    handle_list_key(&mut app, KeyCode::Char('t'));
    assert_eq!(app.view_mode, ViewMode::Normal);
    handle_list_key(&mut app, KeyCode::Char('t'));
    handle_list_key(&mut app, KeyCode::Esc);
    assert_eq!(app.view_mode, ViewMode::Normal);
    assert_eq!(app.action, AppAction::Stay);
    handle_list_key(&mut app, KeyCode::Char('t'));
    handle_list_key(&mut app, KeyCode::Char('q'));
    assert_eq!(app.action, AppAction::Quit);
}

#[test]
fn help_is_closed_by_any_key() {
    let mut app = app_of(&["a", "b"]);
    handle_list_key(&mut app, KeyCode::Char('?'));
    assert!(app.show_help);
    assert!(is_nothing(&handle_list_key(&mut app, KeyCode::Char('q'))));
    assert!(!app.show_help);
    assert_eq!(app.action, AppAction::Stay);
}

#[test]
fn a_deletion_has_to_be_confirmed() {
    let mut app = app_of(&["a", "b"]);
    assert!(is_nothing(&handle_key(&mut app, key(KeyCode::Char('d'), NONE))));
    assert!(app.confirm_delete);
    assert!(is_nothing(&handle_key(&mut app, key(KeyCode::Char('x'), NONE))));
    assert!(!app.confirm_delete);
    handle_key(&mut app, key(KeyCode::Char('d'), NONE));
    assert!(matches!(handle_key(&mut app, key(KeyCode::Char('y'), NONE)), Effect::Delete));
    let (save, effect) = finish_deletion(&mut app, true);
    assert!(!save);
    assert!(loads(&effect, "b"));
    assert_eq!(app.sessions.len(), 1);
    assert!(!app.confirm_delete);
}

#[test]
fn keys_go_where_the_focus_is() {
    let mut app = app_of(&["a", "b"]);
    handle_key(&mut app, key(KeyCode::Char('/'), NONE));
    handle_key(&mut app, key(KeyCode::Char('q'), NONE));
    assert_eq!(app.search_query.text(), "q");
    assert!(app.filtered_indices.is_empty());
    handle_key(&mut app, key(KeyCode::Esc, NONE));
    assert_eq!(app.search_query.text(), "");
    assert_eq!(app.filtered_indices.len(), 2);
    assert_eq!(app.focus, Focus::Search);
    handle_key(&mut app, key(KeyCode::Enter, NONE));
    assert_eq!(app.focus, Focus::List);
    handle_key(&mut app, key(KeyCode::Tab, NONE));
    handle_key(&mut app, key(KeyCode::Char('/'), NONE));
    assert_eq!(app.focus, Focus::PreviewSearch);
    handle_key(&mut app, key(KeyCode::Char('z'), NONE));
    assert_eq!(app.preview_search_query.text(), "z");
    handle_key(&mut app, key(KeyCode::Enter, NONE));
    assert_eq!(app.focus, Focus::Preview);
    assert_eq!(app.preview_search_query.text(), "z");
    // Esc first clears an active search, then leaves.
    handle_key(&mut app, key(KeyCode::Esc, NONE));
    assert_eq!(app.focus, Focus::Preview);
    assert!(app.preview_search_query.is_empty());
    handle_key(&mut app, key(KeyCode::Esc, NONE));
    assert_eq!(app.focus, Focus::List);
}

#[test]
fn keys_of_the_conversation() {
    let mut app = app_of(&["a"]);
    app.focus = Focus::Preview;
    app.preview_total_rows = 100;
    app.preview_viewport_height = 20;
    app.terminal_height = 30;
    handle_preview_key(&mut app, KeyCode::Down);
    assert_eq!(app.preview_scroll, 3);
    handle_preview_key(&mut app, KeyCode::Char('k'));
    assert_eq!(app.preview_scroll, 0);
    handle_preview_key(&mut app, KeyCode::PageDown);
    assert_eq!(app.preview_scroll, 15);
    handle_preview_key(&mut app, KeyCode::PageUp);
    assert_eq!(app.preview_scroll, 0);
    handle_preview_key(&mut app, KeyCode::Char('f'));
    assert!(app.show_files);
    app.preview_lines = vec![("One".into(), "one".into(), Speaker::User)];
    let e = handle_preview_key(&mut app, KeyCode::Char('T'));
    assert!(app.show_tools);
    assert!(app.preview_lines.is_empty());
    match e {
        Effect::Load(r) => assert!(r.include_tools),
        _ => panic!("a toggle of tool activity reads the conversation anew"),
    }
    handle_preview_key(&mut app, KeyCode::Tab);
    assert_eq!(app.focus, Focus::List);
    handle_preview_key(&mut app, KeyCode::Char('q'));
    assert_eq!(app.action, AppAction::Quit);
}
