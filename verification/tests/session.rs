use sessy::session::{
    extract_project_name, format_duration, format_file_size, size_category, SessionMeta,
};

#[test]
fn test_project_name_from_cwd() {
    let home = "/Users/me";
    assert_eq!(extract_project_name("/Users/me/code/agile-turtles", home), "agile-turtles");
}

#[test]
fn test_project_name_from_cwd_nested() {
    let home = "/Users/me";
    assert_eq!(extract_project_name("/Users/me/code/agile-turtles/side-income", home), "agile-turtles/side-income");
}

#[test]
fn test_project_name_from_cwd_deep() {
    let home = "/Users/me";
    assert_eq!(extract_project_name("/Users/me/code/pitcher/web", home), "pitcher/web");
}

#[test]
fn test_project_name_fallback() {
    let home = "/Users/me";
    assert_eq!(extract_project_name("/other/path/project", home), "/other/path/project");
}

#[test]
fn test_format_duration_minutes() {
    assert_eq!(format_duration(300), "5m");
}

#[test]
fn test_format_duration_hours_minutes() {
    assert_eq!(format_duration(7920), "2h12m");
}

#[test]
fn test_format_duration_under_minute() {
    assert_eq!(format_duration(30), "< 1m");
}

#[test]
fn test_format_duration_zero() {
    assert_eq!(format_duration(0), "< 1m");
}

#[test]
fn test_format_duration_exact_hour() {
    assert_eq!(format_duration(3600), "1h0m");
}

#[test]
fn test_session_meta_has_search_fields() {
    let m = SessionMeta {
        id: "x".into(),
        project: "P".into(),
        branch: "main".into(),
        name: String::new(),
        title: "Title".into(),
        last_message: String::new(),
        duration_secs: 0,
        timestamp: 0,
        file_size: 0,
        file_mtime: 0,
        file_path: "/tmp/x".into(),
        cwd: String::new(),
        message_count: 0,
        tickets: vec!["PROJ-1".into()],
        text_offset: 100,
        text_len: 50,
        name_lc: String::new(),
        title_lc: "title".into(),
        project_lc: "p".into(),
        branch_lc: "main".into(),
        permission_mode: String::new(),
        cc_version: String::new(),
        skills: vec![],
        changed_files: vec![],
        changed_files_lc: String::new(),
    };
    assert_eq!(m.tickets[0], "PROJ-1");
    assert_eq!(m.text_offset, 100);
    assert_eq!(m.title_lc, "title");
}

#[test]
fn project_name_below_home_but_not_code() {
    assert_eq!(extract_project_name("/Users/me/notes", "/Users/me"), "notes");
    assert_eq!(extract_project_name("/Users/me/code", "/Users/me"), "code");
    assert_eq!(extract_project_name("/Users/me", "/Users/me"), "/Users/me");
    assert_eq!(extract_project_name("/code/x", ""), "x");
}

fn by_floats(bytes: u64) -> String {
    if bytes < 1024 {
        format!("{} B", bytes)
    } else if bytes < 1024 * 1024 {
        format!("{:.1} KB", bytes as f64 / 1024.0).replace(".0 ", " ")
    } else {
        format!("{:.1} MB", bytes as f64 / (1024.0 * 1024.0)).replace(".0 ", " ")
    }
}

#[test]
fn file_sizes_have_at_most_one_decimal() {
    assert_eq!(format_file_size(0), "0 B");
    assert_eq!(format_file_size(1023), "1023 B");
    assert_eq!(format_file_size(1024), "1 KB");
    assert_eq!(format_file_size(1229), "1.2 KB");
    assert_eq!(format_file_size(1024 * 1024 - 1), "1024 KB");
    assert_eq!(format_file_size(4404019), "4.2 MB");
    assert_eq!(format_file_size(34 * 1024 * 1024), "34 MB");
}

#[test]
fn file_sizes_round_like_floating_point() {
    let mut bytes: u64 = 1;
    let mut step: u64 = 7;
    while bytes < u64::MAX / 3 {
        assert_eq!(format_file_size(bytes), by_floats(bytes));
        assert_eq!(format_file_size(bytes + 13107), by_floats(bytes + 13107));
        bytes += step;
        step += bytes / 97 + 1;
    }
    for k in 0..4000u64 {
        let b = 1024 * 128 + k * 64;
        assert_eq!(format_file_size(b), by_floats(b));
        let b = (1 << 53) + k * 52429 + k;
        assert_eq!(format_file_size(b), by_floats(b));
        let b = u64::MAX - k * 1023;
        assert_eq!(format_file_size(b), by_floats(b));
    }
}

#[test]
fn size_categories_change_at_their_limits() {
    assert_eq!(size_category(0), "quick");
    assert_eq!(size_category(1024 * 1024 - 1), "quick");
    assert_eq!(size_category(1024 * 1024), "medium");
    assert_eq!(size_category(10 * 1024 * 1024), "deep");
    assert_eq!(size_category(30 * 1024 * 1024), "deep");
    assert_eq!(size_category(30 * 1024 * 1024 + 1), "massive");
}

#[test]
fn durations_leave_seconds_out() {
    assert_eq!(format_duration(59), "< 1m");
    assert_eq!(format_duration(60), "1m");
    assert_eq!(format_duration(3599), "59m");
    assert_eq!(format_duration(u64::MAX), "5124095576030431h0m");
}
