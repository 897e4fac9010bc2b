use sessy::export::{export_session, sanitize_filename};
use sessy::parser::{extract_conversation, lines_of};
use sessy::session::SessionMeta;

#[test]
fn test_sanitize_filename() {
    assert_eq!(sanitize_filename("hello world/foo"), "hello-world-foo");
    assert_eq!(sanitize_filename("my-session_v2"), "my-session_v2");
    assert_eq!(sanitize_filename("a.b.c"), "a-b-c");
}

#[test]
fn letters_of_any_script_stay_in_file_names() {
    assert_eq!(sanitize_filename("καλημέρα κόσμε!"), "καλημέρα-κόσμε-");
    let once = sanitize_filename("a/b c");
    assert_eq!(sanitize_filename(&once), once);
}

fn session(name: &str, branch: &str) -> SessionMeta {
    SessionMeta {
        id: "abc/1".into(),
        project: "web".into(),
        branch: branch.into(),
        name: name.into(),
        title: "first words".into(),
        last_message: String::new(),
        duration_secs: 7920,
        timestamp: 0,
        file_size: 1536,
        file_mtime: 0,
        file_path: String::new(),
        cwd: String::new(),
        message_count: 0,
        tickets: vec![],
        text_offset: 0,
        text_len: 0,
        name_lc: String::new(),
        title_lc: String::new(),
        project_lc: String::new(),
        branch_lc: String::new(),
        permission_mode: String::new(),
        cc_version: String::new(),
        skills: vec![],
        changed_files: vec![],
        changed_files_lc: String::new(),
    }
}

#[test]
fn exports_are_markdown() {
    let text = r#"{"type":"user","message":{"content":"hi"}}
{"type":"assistant","message":{"content":[{"type":"text","text":"hello"}]}}"#;
    let messages = extract_conversation(&lines_of(text.as_bytes()));
    let (name, md) = export_session(&session("My Name", "main"), &messages);
    assert_eq!(name, "My-Name.md");
    assert_eq!(
        md,
        "# My Name\n\n- **Project**: web\n- **Branch**: main\n- **Duration**: 2h12m\n- **Size**: 1.5 KB\n\n---\n\n**User**\n\nhi\n\n**Assistant**\n\nhello\n\n"
    );
}

#[test]
fn exports_without_a_name_or_branch() {
    let (name, md) = export_session(&session("", ""), &Vec::new());
    assert_eq!(name, "abc-1.md");
    assert_eq!(
        md,
        "# first words\n\n- **Project**: web\n- **Duration**: 2h12m\n- **Size**: 1.5 KB\n\n---\n\n"
    );
}
