use chrono::Datelike;
use sessy::app::{App, Focus, Scope};
use sessy::parser::Speaker;
use sessy::session::SessionMeta;
use sessy::string_set::StringSet;
use sessy::text_cache::TextCache;
use sessy::ui::conversation_pane::{
    preview_pane, preview_title, scroll_position, session_badges, set_viewport, set_width, Pane,
};
use sessy::ui::highlight::{highlight_spans, is_combining_diacritic};
use sessy::ui::list_pane::{empty_message, list_lines, list_title, list_window};
use sessy::ui::status::{
    help_area, help_lines, input_cursor, preview_search_line, search_bar, status_bar, Area,
};
use sessy::ui::style::{Color, Line, Style};
use sessy::ui::timeline::{date_label, heatmap_cell, month_abbrev, timeline_lines};
use sessy::ui::{cursor_x, truncate, wrap_text};
use sessy::wrap::{wrap_for_offsets, wrapped_line_count};

fn make_session(id: &str) -> SessionMeta {
    SessionMeta {
        id: id.into(),
        project: "p".into(),
        branch: String::new(),
        name: String::new(),
        title: String::new(),
        last_message: String::new(),
        duration_secs: 0,
        timestamp: 0,
        file_size: 0,
        file_mtime: 0,
        file_path: format!("/tmp/{}.jsonl", id),
        cwd: String::new(),
        message_count: 0,
        tickets: vec![],
        text_offset: 0,
        text_len: 0,
        name_lc: String::new(),
        title_lc: String::new(),
        project_lc: "p".into(),
        branch_lc: String::new(),
        permission_mode: String::new(),
        cc_version: String::new(),
        skills: vec![],
        changed_files: vec![],
        changed_files_lc: String::new(),
    }
}

fn app_of(sessions: Vec<SessionMeta>) -> App<'static> {
    App::new(sessions, false, StringSet::new(), TextCache::open(None))
}

fn text(line: &Line) -> String {
    line.iter().map(|s| s.text.as_str()).collect()
}

fn texts(lines: &[Line]) -> Vec<String> {
    lines.iter().map(text).collect()
}

#[test]
fn test_truncate_emoji_char_boundaries() {
    // Must cut on char boundaries, never mid-codepoint.
    assert_eq!(truncate("🐢🐢🐢🐢", 2), "🐢…");
    assert_eq!(truncate("🐢🐢", 5), "🐢🐢");
    assert_eq!(truncate("αβγδε", 3), "αβ…");
    assert_eq!(truncate("abc", 0), "");
    assert_eq!(truncate("abc", 1), "…");
}

#[test]
fn test_wrap_text_unicode_no_panic() {
    // Long unbroken emoji run wider than the wrap width.
    let text = "🐢".repeat(50);
    let chunks = wrap_text(&text, 10);
    assert!(chunks.len() >= 5);
    assert!(chunks.iter().all(|c| c.chars().count() <= 10));
    // Greek with spaces wraps on spaces.
    let chunks = wrap_text("καλημέρα κόσμε γεια σου", 10);
    assert!(chunks.len() >= 2);
}

#[test]
fn test_wrap_text_zero_width() {
    assert_eq!(wrap_text("hello", 0), vec!["hello".to_string()]);
    assert!(wrap_text("", 10).is_empty());
}

#[test]
fn test_cursor_x_clamps() {
    // Normal case: start + query length.
    assert_eq!(cursor_x(1, "ab", 40), 3);
    // Clamped to the box edge.
    assert_eq!(cursor_x(1, &"x".repeat(100), 40), 40);
    // Degenerate box (max < start) must not underflow or move left of start.
    assert_eq!(cursor_x(5, "abc", 2), 5);
    // Huge paste: no u16 overflow panic.
    assert_eq!(cursor_x(u16::MAX - 1, &"y".repeat(70_000), u16::MAX), u16::MAX);
}

#[test]
fn test_highlight_unicode_length_change() {
    // Turkish dotted-I (\u{0130}) lowercases to "i\u{0307}" (two code points),
    // which makes the lowercased text longer than the text.
    let text = "İstanbul project";
    let base = Style::plain();
    let mat = Style::plain();
    let spans = highlight_spans(text, "istanbul", base, mat);
    // Should produce at least 2 spans (matched + remainder), not bail out.
    assert!(spans.len() >= 2, "got spans: {}", spans.len());
}

#[test]
fn lines_break_at_the_last_space_that_fits() {
    assert_eq!(wrap_text("one two three", 8), vec!["one two", "three"]);
    assert_eq!(wrap_text("one two three", 7), vec!["one", "two", "three"]);
    assert_eq!(wrap_text("abcdefghij", 4), vec!["abcd", "efgh", "ij"]);
    assert_eq!(wrap_text(" abcdef", 4), vec![" abc", "def"]);
    assert_eq!(wrap_text("ab      cd", 4), vec!["ab ", "cd"]);
    assert_eq!(wrap_text("ab  ", 2), vec!["ab"]);
    assert_eq!(wrap_for_offsets("one two three", 8), wrap_text("one two three", 8));
}

#[test]
fn wrapping_loses_nothing_but_blanks() {
    let s = "The  quick brown\tfox jumps over\nthe lazy dog   ";
    let ink = |t: &str| t.chars().filter(|c| !c.is_whitespace()).collect::<String>();
    for width in 1..20 {
        let rows = wrap_text(s, width);
        assert_eq!(ink(&rows.concat()), ink(s));
        assert_eq!(wrapped_line_count(s, width) as usize, rows.len());
        assert!(rows.iter().all(|r| !r.is_empty() && r.chars().count() <= width));
    }
}

#[test]
fn at_least_one_row_is_counted() {
    assert_eq!(wrapped_line_count("", 10), 1);
    assert_eq!(wrapped_line_count("abc", 0), 1);
    assert_eq!(wrapped_line_count("abc", 1), 3);
    assert_eq!(wrapped_line_count(&"x".repeat(70_000), 1), u16::MAX);
}

#[test]
fn matches_are_marked_whatever_their_case() {
    let base = Style::plain();
    let mark = Style::bold(Color::Yellow);
    let told = |t: &str, q: &str| {
        highlight_spans(t, q, base, mark)
            .iter()
            .map(|s| (s.text.clone(), s.style == mark))
            .collect::<Vec<_>>()
    };
    assert_eq!(
        told("a Fox, a fox", "fox"),
        vec![
            ("a ".to_string(), false),
            ("Fox".to_string(), true),
            (", a ".to_string(), false),
            ("fox".to_string(), true)
        ]
    );
    assert_eq!(told("abc", ""), vec![("abc".to_string(), false)]);
    assert_eq!(told("abc", "z"), vec![("abc".to_string(), false)]);
    assert_eq!(told("", "z"), vec![("".to_string(), false)]);
    assert_eq!(told("aaa", "aa"), vec![("aa".to_string(), true), ("a".to_string(), false)]);
    assert_eq!(
        told("xİstanbulx", "istanbul"),
        vec![("x".to_string(), false), ("İstanbul".to_string(), true), ("x".to_string(), false)]
    );
}

#[test]
fn highlighting_changes_no_text() {
    let s = "İİ one Two thrée İ";
    for q in ["i", "o", "t", "e", " ", "ii", "é", "zzz"] {
        let spans = highlight_spans(s, q, Style::plain(), Style::bold(Color::Yellow));
        assert_eq!(text(&spans), s);
    }
    assert!(is_combining_diacritic('\u{0307}'));
    assert!(!is_combining_diacritic('i'));
}

#[test]
fn the_list_is_titled_by_its_filters() {
    let mut app = app_of(vec![make_session("a"), make_session("b")]);
    app.scope = Scope::Current;
    assert_eq!(list_title(&app), " Sessions (2/2) [cwd] ");
    app.toggle_size_filter("deep");
    assert_eq!(list_title(&app), " Sessions (0/2) [cwd|deep] ");
    assert_eq!(empty_message(&app), "No sessions found.");
    app.cwd_encoded = Some("x".into());
    assert!(empty_message(&app).starts_with("No sessions in this directory."));
    app.scope = Scope::All;
    assert_eq!(empty_message(&app), "No sessions found.");
}

#[test]
fn entries_take_three_lines_and_a_blank() {
    let mut s = make_session("a");
    s.branch = "main".into();
    s.name = "Login".into();
    s.title = "add a login endpoint please".into();
    s.last_message = "looks good".into();
    s.duration_secs = 6300;
    s.file_size = 4404019;
    s.message_count = 42;
    let mut app = app_of(vec![s, make_session("b")]);
    app.bookmarks.insert("a".to_string());
    let rows = list_lines(&app, &vec!["Jun 10 14:32".into(), "Jun  9 08:00".into()], 60, 7);
    assert_eq!(
        texts(&rows),
        vec![
            "▸★ Jun 10 14:32  p  main  Login".to_string(),
            "   1h45m  4.2 MB [medium] · 42 msgs  \"add a login endpoin…\"".to_string(),
            "   └ left off: \"looks good\"".to_string(),
            "".to_string(),
            "   Jun  9 08:00  p".to_string(),
            "   < 1m  0 B [quick]  \"\"".to_string(),
            "".to_string(),
        ]
    );
    assert_eq!(rows[0][0].style, Style::bold(Color::Cyan));
    assert_eq!(rows[1][2].style, Style::bold(Color::Yellow));
    assert_eq!(rows[4][0].style, Style::color(Color::White));
    let narrow = list_lines(&app, &vec!["t".into()], 20, 3);
    assert_eq!(text(&narrow[1]), "   1h45m  4.2 MB [medium] · 42 msgs");
    assert_eq!(text(&narrow[2]), "   └ left off: \"loo…");
}

#[test]
fn the_selected_entry_is_always_shown() {
    let sessions = (0..50).map(|i| make_session(&i.to_string())).collect();
    let mut app = app_of(sessions);
    for height in [1u16, 3, 4, 5, 8, 17, 40, 300] {
        for selected in [0usize, 1, 2, 5, 9, 10, 11, 49] {
            app.selected = selected;
            let (first, count) = list_window(&app, height);
            assert!(first <= selected && selected < first + count);
            assert!(first + count <= 50);
        }
    }
    app.selected = 12;
    assert_eq!(list_window(&app, 40), (3, 10));
    assert_eq!(list_window(&app, 41), (3, 11));
    assert_eq!(list_window(&app, 0), (12, 0));
}

#[test]
fn badges_tell_the_mode_and_the_skills() {
    let mut s = make_session("a");
    assert_eq!(session_badges(&s), "");
    s.permission_mode = "default".into();
    assert_eq!(session_badges(&s), "");
    s.permission_mode = "plan".into();
    s.skills = vec!["tdd".into()];
    assert_eq!(session_badges(&s), " · plan · tdd");
    s.permission_mode = "bypassPermissions".into();
    s.skills = vec!["a".into(), "b".into(), "c".into(), "d".into(), "e".into()];
    assert_eq!(session_badges(&s), " · yolo · a,b,c+2");
    s.permission_mode = "acceptEdits".into();
    s.skills = vec![];
    assert_eq!(session_badges(&s), " · accept");
}

#[test]
fn the_preview_is_titled_by_what_it_shows() {
    let mut s = make_session("a");
    s.name = "Login".into();
    s.permission_mode = "plan".into();
    s.changed_files = vec!["x.rs".into(), "y.rs".into()];
    let mut app = app_of(vec![s]);
    assert_eq!(preview_title(&app, None), " Preview — Login · plan ");
    assert_eq!(preview_title(&app, Some(40)), " Preview — Login · plan (40%) ");
    app.preview_search_matches = vec![3, 8];
    app.preview_search_current = 1;
    assert_eq!(preview_title(&app, Some(40)), " Preview — Login (2/2 matches) ");
    app.preview_loading = true;
    assert_eq!(preview_title(&app, None), " Preview — Login (loading...) ");
    app.show_files = true;
    assert_eq!(preview_title(&app, None), " Files changed — Login (2) ");
    assert_eq!(preview_title(&app_of(vec![]), None), " Preview ");
}

#[test]
fn the_preview_knows_its_size() {
    let mut app = app_of(vec![make_session("a")]);
    app.preview_lines = vec![("abc".into(), "abc".into(), Speaker::User)];
    set_viewport(&mut app, 12);
    assert_eq!(app.preview_viewport_height, 10);
    app.focus = Focus::PreviewSearch;
    set_viewport(&mut app, 12);
    assert_eq!(app.preview_viewport_height, 9);
    set_viewport(&mut app, 1);
    assert_eq!(app.preview_viewport_height, 0);
    set_width(&mut app, 6);
    assert_eq!(app.preview_inner_width, 6);
    // "USER: abc" takes two rows of five columns, and a blank one.
    assert_eq!(app.preview_total_rows, 3);
    assert_eq!(scroll_position(&app), Some((0, 3)));
    app.preview_scroll = 9;
    assert_eq!(scroll_position(&app), Some((3, 3)));
    app.preview_viewport_height = 3;
    assert_eq!(scroll_position(&app), None);
}

#[test]
fn conversations_are_wrapped_and_marked() {
    let mut app = app_of(vec![make_session("a")]);
    app.preview_lines = vec![
        ("Find me".into(), "find me".into(), Speaker::User),
        ("not this".into(), "not this".into(), Speaker::Assistant),
        ("find too".into(), "find too".into(), Speaker::Tool),
    ];
    app.preview_search_query = "find".into();
    app.update_preview_search();
    let rows = match preview_pane(&app, 10) {
        Pane::Lines(rows) => rows,
        Pane::Note(_) => panic!("there is a conversation"),
    };
    assert_eq!(
        texts(&rows),
        vec!["▸USER:", "▸Find me", "", " ASST:", " not this", "", "│TOOL:", "│find too", ""]
    );
    assert_eq!(rows[1][1].style, Style::bold_on(Color::Black, Color::Yellow));
    assert_eq!(rows[7][1].style, Style::bold(Color::Yellow));
    assert_eq!(rows[3][1].style, Style::color(Color::White));
    app.preview_scroll = 7;
    match preview_pane(&app, 10) {
        Pane::Lines(rows) => assert_eq!(texts(&rows), vec!["│find too", ""]),
        Pane::Note(_) => panic!("there is a conversation"),
    }
    app.preview_scroll = 100;
    match preview_pane(&app, 10) {
        Pane::Lines(rows) => assert!(rows.is_empty()),
        Pane::Note(_) => panic!("there is a conversation"),
    }
}

#[test]
fn rows_are_noted_as_they_are_shown() {
    let mut app = app_of(vec![make_session("a")]);
    app.preview_lines = vec![
        ("one two three four five".into(), String::new(), Speaker::User),
        ("six".into(), String::new(), Speaker::Assistant),
        ("seven eight nine".into(), String::new(), Speaker::User),
    ];
    set_width(&mut app, 12);
    let rows = match preview_pane(&app, 12) {
        Pane::Lines(rows) => texts(&rows),
        Pane::Note(_) => panic!("there is a conversation"),
    };
    assert_eq!(rows.len(), app.preview_total_rows as usize);
    assert!(rows[app.preview_line_offsets[1] as usize].starts_with(" ASST: six"));
    assert!(rows[app.preview_line_offsets[2] as usize].starts_with(" USER:"));
}

#[test]
fn notes_stand_where_there_is_no_conversation() {
    let note = |app: &App| match preview_pane(app, 20) {
        Pane::Note(s) => s,
        Pane::Lines(_) => panic!("there is none"),
    };
    let mut app = app_of(vec![make_session("a")]);
    assert_eq!(note(&app), "No conversation content in this session.");
    app.preview_loading = true;
    assert_eq!(note(&app), "Loading conversation...");
    app.filtered_indices.clear();
    assert_eq!(note(&app), "No session selected.");
}

#[test]
fn changed_files_are_listed() {
    let rows = |app: &App| match preview_pane(app, 20) {
        Pane::Lines(rows) => texts(&rows),
        Pane::Note(_) => panic!("files are asked for"),
    };
    let mut s = make_session("a");
    s.changed_files = vec!["a.rs".into(), "b.rs".into(), "c.rs".into()];
    let mut app = app_of(vec![s, make_session("b")]);
    app.show_files = true;
    assert_eq!(rows(&app), vec!["  a.rs", "  b.rs", "  c.rs"]);
    app.preview_scroll = 2;
    assert_eq!(rows(&app), vec!["  c.rs"]);
    app.selected = 1;
    assert_eq!(rows(&app), vec!["No tracked file changes."]);
    app.selected = 5;
    assert_eq!(rows(&app), vec!["No session selected."]);
}

#[test]
fn the_search_bar_tells_what_is_left() {
    let mut app = app_of(vec![make_session("a"), make_session("b")]);
    let bar = search_bar(&app);
    assert_eq!(bar.text, "Type / to search...");
    assert_eq!(bar.title, " Search ");
    assert_eq!(bar.style, Style::color(Color::DarkGray));
    app.focus = Focus::Search;
    assert_eq!(search_bar(&app).text, "");
    assert_eq!(search_bar(&app).style, Style::color(Color::Yellow));
    app.search_query = "xyz".into();
    app.apply_search();
    assert_eq!(search_bar(&app).text, "xyz");
    assert_eq!(search_bar(&app).title, " Search (0/2) ");
    assert_eq!(input_cursor(&app.search_query, 1, 40), 4);
    app.search_query.move_left();
    assert_eq!(input_cursor(&app.search_query, 1, 40), 3);
    assert_eq!(input_cursor(&app.search_query, 1, 2), 2);
    app.preview_search_query = "abc".into();
    assert_eq!(text(&preview_search_line(&app)), "/abc");
}

#[test]
fn the_status_bar_shows_keys_questions_and_messages() {
    let mut s = make_session("a");
    s.title = "t".repeat(50);
    let mut app = app_of(vec![s]);
    let (line, color) = status_bar(&app, 0);
    assert_eq!(
        text(&line),
        " ↑↓ nav  / search  s sort:date  a all  1-4 filter  b pin  e export  t timeline  f files  T tools  Enter yolo  l launch  c copy  d delete  ? help  q quit "
    );
    assert_eq!(color, Color::Rgb(40, 40, 40));
    app.print_mode = true;
    app.size_filter = Some("deep");
    app.search_query = "x".into();
    let shown = text(&status_bar(&app, 0).0);
    assert!(shown.contains("sort:relevance  "));
    assert!(shown.contains("1-4 [deep]  "));
    assert!(shown.contains("Enter print  "));
    app.confirm_delete = true;
    let (line, color) = status_bar(&app, 0);
    assert_eq!(
        text(&line),
        format!(" DELETE \"{}\"? d/y confirm  any key cancel ", "t".repeat(40))
    );
    assert_eq!(color, Color::Red);
    app.set_status("done".into());
    assert_eq!(text(&status_bar(&app, 2).0), " done");
    assert_eq!(status_bar(&app, 2).1, Color::Rgb(0, 80, 40));
    assert_eq!(status_bar(&app, 3).1, Color::Red);
}

#[test]
fn help_lists_every_key() {
    let rows = help_lines("run");
    assert_eq!(rows.len(), 19);
    assert_eq!(text(&rows[0]), " j / k  ↑ / ↓      move selection (wraps)");
    assert_eq!(text(&rows[15]), " c                 copy `run --resume <id>`");
    assert_eq!(text(&rows[18]), " ? / Esc           close help / quit");
}

#[test]
fn help_lies_in_the_middle() {
    let screen = Area { x: 0, y: 0, width: 100, height: 41 };
    assert_eq!(help_area(screen), Area { x: 22, y: 10, width: 56, height: 21 });
    let screen = Area { x: 3, y: 4, width: 20, height: 10 };
    assert_eq!(help_area(screen), Area { x: 4, y: 5, width: 18, height: 8 });
    let screen = Area { x: 0, y: 0, width: 1, height: 0 };
    assert_eq!(help_area(screen), Area { x: 0, y: 0, width: 0, height: 0 });
}

#[test]
fn cells_fill_with_sessions() {
    let mark = |n: usize| heatmap_cell(n).0.trim().to_string();
    assert_eq!(mark(0), "░");
    assert_eq!(mark(1), "░");
    assert_ne!(heatmap_cell(0).1, heatmap_cell(1).1);
    assert_eq!(mark(3), "▒");
    assert_eq!(mark(5), "▓");
    assert_eq!(mark(6), "█");
    assert_eq!(month_abbrev(1), "Ja");
    assert_eq!(month_abbrev(12), "Dc");
    assert_eq!(month_abbrev(13), "??");
}

#[test]
fn the_timeline_counts_days_up_to_today() {
    // Day 737996 was Sunday, July 25, 2021.
    let today = 737996;
    let mut sessions: Vec<SessionMeta> = (0..6).map(|i| make_session(&i.to_string())).collect();
    sessions[5].file_path = "/elsewhere/5.jsonl".into();
    let mut app = app_of(sessions);
    let days = vec![
        Some(today),
        Some(today),
        Some(today - 1),
        Some(today - 27),
        Some(today - 28),
        Some(today - 6),
    ];
    let rows = texts(&timeline_lines(&app, &days, today, 10));
    assert_eq!(rows.len(), 13);
    assert_eq!(rows[0], "     JnJl    ");
    assert_eq!(rows[1], "Mon ░ ░ ░ ░ ");
    assert_eq!(rows[7], "Sun ░ ░ ░ ▒ ");
    assert_eq!(rows[8], "");
    assert_eq!(rows[9], "  Total: 5 sessions  Active days: 4");
    assert_eq!(rows[10], "  Peak: Jul 25 (2)");
    assert_eq!(rows[12], "  ░ 0  ░ 1  ▒ 2-3  ▓ 4-5  █ 6+");
    app.scope = Scope::Current;
    app.cwd_encoded = Some("tmp".into());
    let rows = texts(&timeline_lines(&app, &days, today, 10));
    assert_eq!(rows[9], "  Total: 4 sessions  Active days: 3");
    // Two days later the week has only begun.
    let rows = texts(&timeline_lines(&app, &days, today + 2, 10));
    assert_eq!(rows[2], "Tue ░ ░ ░ ░ ");
    assert_eq!(rows[3], "Wed ░ ░ ░   ");
    app.cwd_encoded = Some("nowhere".into());
    let rows = texts(&timeline_lines(&app, &days, today, 200));
    assert_eq!(rows[9], "  Total: 0 sessions  Active days: 0");
    assert_eq!(rows[10], "  Peak: —");
    assert_eq!(rows[1].chars().count(), 4 + 2 * 26);
}

#[test]
fn sizes_are_colored_by_their_category() {
    let mb = 1024 * 1024;
    let color = |bytes: u64| {
        let mut s = make_session("a");
        s.file_size = bytes;
        let rows = list_lines(&app_of(vec![s]), &vec!["t".into()], 80, 4);
        (rows[1][2].text.clone(), rows[1][2].style.fg)
    };
    assert_eq!(color(mb - 1), ("[quick]".to_string(), Color::Green));
    assert_eq!(color(mb), ("[medium]".to_string(), Color::Yellow));
    assert_eq!(color(10 * mb), ("[deep]".to_string(), Color::Magenta));
    assert_eq!(color(30 * mb), ("[deep]".to_string(), Color::Magenta));
    assert_eq!(color(30 * mb + 1), ("[massive]".to_string(), Color::Red));
}

#[test]
fn dates_are_padded_to_two_places() {
    assert_eq!(date_label(7, 25), "Jul 25");
    assert_eq!(date_label(7, 4), "Jul  4");
    assert_eq!(date_label(1, 10), "Jan 10");
    for day in 737791..738521 {
        let date = chrono::NaiveDate::from_num_days_from_ce_opt(day).unwrap();
        assert_eq!(date_label(date.month(), date.day()), date.format("%b %e").to_string());
    }
}

#[test]
fn the_peak_is_told_by_its_date() {
    let app = app_of(vec![make_session("a")]);
    for day in [737791, 737976, 737996, 738155] {
        let date = chrono::NaiveDate::from_num_days_from_ce_opt(day).unwrap();
        let rows = texts(&timeline_lines(&app, &vec![Some(day)], day, 60));
        assert_eq!(rows[10], format!("  Peak: {} (1)", date.format("%b %e")));
    }
}
