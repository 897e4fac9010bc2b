use sessy::app::App;
use sessy::index::{
    build_index, compute_duration, current_index, deserialize_index, elapsed, encode_project_path,
    fits_text_cache, load_cached_index, parse_recent_filter, reuse_session, scan_session_file,
    serialize_index, SessionFile, SessionIndex, INDEX_VERSION,
};
use sessy::session::SessionMeta;
use sessy::string_set::StringSet;
use sessy::text_cache::TextCache;

const SIMPLE: &str = r#"{"type":"user","timestamp":"2026-03-13T10:00:00Z","cwd":"/Users/me/code/agile-turtles","gitBranch":"main","slug":"cool-thing","message":{"role":"user","content":"build a cool thing"}}
{"type":"assistant","timestamp":"2026-03-13T10:00:05Z","message":{"role":"assistant","content":[{"type":"text","text":"Sure, let me help you build that."}]}}
{"type":"user","timestamp":"2026-03-13T10:05:00Z","message":{"role":"user","content":"looks good, ship it"}}
{"type":"assistant","timestamp":"2026-03-13T10:06:00Z","message":{"role":"assistant","content":[{"type":"text","text":"Done! Everything is deployed."}]}}
"#;

const MODERN: &str = r#"{"type":"user","version":"2.1.0","gitBranch":"HEAD","cwd":"/Users/me/code/demo","slug":"slug-name","timestamp":"2026-06-01T09:00:00Z","message":{"content":"add login endpoint"}}
{"type":"ai-title","aiTitle":"Add JWT login endpoint"}
{"type":"permission-mode","permissionMode":"plan"}
{"type":"file-history-snapshot","snapshot":{"trackedFileBackups":{"src/Lib.rs":{},"src/auth.rs":{}}}}
{"type":"user","timestamp":"2026-06-01T09:30:00Z","message":{"content":"ship it"}}
{"subtype":"local_command","content":"<command-name>/rename</command-name><command-args>renamed</command-args>"}
"#;

fn file(id: &str) -> SessionFile {
    SessionFile {
        id: id.into(),
        path: format!("/sessions/{}.jsonl", id),
        size: 2048,
        mtime: 1710300000,
    }
}

fn scan(id: &str, text: &str) -> Option<(SessionMeta, Vec<u8>)> {
    scan_session_file(file(id), text.as_bytes(), "/Users/me")
}

#[test]
fn test_scan_session_file_simple() {
    let result = scan("simple_session", SIMPLE);
    let (meta, text) = result.expect("should produce SessionMeta + text");
    assert_eq!(meta.title, "build a cool thing");
    assert_eq!(meta.last_message, "looks good, ship it");
    assert_eq!(meta.branch, "main");
    assert!(meta.duration_secs > 0);
    assert_eq!(meta.title_lc, "build a cool thing");
    assert_eq!(meta.branch_lc, "main");
    assert!(!text.is_empty());
    assert!(text.iter().all(|b| !(*b as char).is_uppercase()));
}

#[test]
fn test_scan_session_file_empty_returns_none() {
    let result = scan("empty_session", "");
    assert!(result.is_none(), "empty session should be filtered out");
}

#[test]
fn test_index_serialization_roundtrip() {
    let sessions = vec![SessionMeta {
        id: "abc-123".to_string(),
        project: "test".to_string(),
        branch: "main".to_string(),
        name: String::new(),
        title: "hello world".to_string(),
        last_message: "goodbye".to_string(),
        duration_secs: 300,
        timestamp: 1710300000,
        file_size: 1024,
        file_mtime: 1710300000,
        file_path: "/tmp/test.jsonl".to_string(),
        cwd: "/Users/me/code/test".to_string(),
        message_count: 0,
        tickets: vec![],
        text_offset: 0,
        text_len: 0,
        name_lc: String::new(),
        title_lc: "hello world".to_string(),
        project_lc: "test".to_string(),
        branch_lc: "main".to_string(),
        permission_mode: String::new(),
        cc_version: String::new(),
        skills: vec![],
        changed_files: vec![],
        changed_files_lc: String::new(),
    }];
    let index = SessionIndex {
        version: INDEX_VERSION,
        sessions,
    };
    let bytes = serialize_index(&index);
    let restored = deserialize_index(&bytes);
    assert!(restored.is_some());
    let restored = restored.unwrap();
    assert_eq!(restored.sessions.len(), 1);
    assert_eq!(restored.sessions[0].title, "hello world");
    assert_eq!(restored.sessions[0].last_message, "goodbye");
}

#[test]
fn test_index_deserialization_wrong_version_returns_none() {
    let index = SessionIndex {
        version: 999,
        sessions: vec![],
    };
    let bytes = serialize_index(&index);
    let restored = deserialize_index(&bytes);
    assert!(restored.is_none());
}

#[test]
fn test_parse_recent_filter() {
    assert_eq!(parse_recent_filter("7d"), Some(7 * 86400));
    assert_eq!(parse_recent_filter("1h"), Some(3600));
    assert_eq!(parse_recent_filter("2w"), Some(14 * 86400));
    assert_eq!(parse_recent_filter("1m"), Some(30 * 86400));
    assert_eq!(parse_recent_filter("garbage"), None);
}

#[test]
fn recent_filters_of_other_forms() {
    assert_eq!(parse_recent_filter(" 3h\n"), Some(3 * 3600));
    assert_eq!(parse_recent_filter("+5d"), Some(5 * 86400));
    assert_eq!(parse_recent_filter("007d"), Some(7 * 86400));
    assert_eq!(parse_recent_filter("0w"), Some(0));
    assert_eq!(parse_recent_filter(""), None);
    assert_eq!(parse_recent_filter("d"), None);
    assert_eq!(parse_recent_filter("+d"), None);
    assert_eq!(parse_recent_filter("-1d"), None);
    assert_eq!(parse_recent_filter("7 d"), None);
    assert_eq!(parse_recent_filter("7"), None);
    assert_eq!(parse_recent_filter("7y"), None);
    assert_eq!(parse_recent_filter("٣d"), None);
    assert_eq!(parse_recent_filter("18446744073709551616h"), None);
    assert_eq!(parse_recent_filter("5124095576030431h"), Some(18446744073709551600));
    assert_eq!(parse_recent_filter("5124095576030432h"), None);
}

#[test]
fn test_scan_session_file_uses_ai_title() {
    let (meta, _) = scan("modern", MODERN).unwrap();
    assert_eq!(meta.name, "Add JWT login endpoint");
    assert_eq!(meta.name_lc, "add jwt login endpoint");
    assert_eq!(meta.message_count, 2);
    assert_eq!(meta.permission_mode, "plan");
    assert_eq!(meta.cc_version, "2.1.0");
    assert!(meta.changed_files_lc.contains("src/auth.rs"));
    assert_eq!(meta.changed_files, vec!["src/Lib.rs", "src/auth.rs"]);
    assert_eq!(meta.changed_files_lc, "src/lib.rs\nsrc/auth.rs");
}

#[test]
fn a_detached_head_is_no_branch() {
    let (meta, _) = scan("modern", MODERN).unwrap();
    assert_eq!(meta.branch, "");
    assert_eq!(meta.branch_lc, "");
    assert_eq!(meta.duration_secs, 1800);
    assert_eq!(meta.project, "demo");
}

#[test]
fn names_fall_back_to_the_rename_and_the_slug() {
    let (meta, _) = scan("simple", SIMPLE).unwrap();
    assert_eq!(meta.name, "cool-thing");
    let renamed = format!(
        "{}{}",
        SIMPLE,
        r#"{"subtype":"local_command","content":"<command-name>/rename</command-name><command-args>better</command-args>"}"#
    );
    let (meta, _) = scan("simple", &renamed).unwrap();
    assert_eq!(meta.name, "better");
}

#[test]
fn file_facts_are_kept() {
    let (meta, text) = scan("simple", SIMPLE).unwrap();
    assert_eq!(meta.id, "simple");
    assert_eq!(meta.file_path, "/sessions/simple.jsonl");
    assert_eq!(meta.file_size, 2048);
    assert_eq!(meta.file_mtime, 1710300000);
    assert_eq!(meta.timestamp, 1710300000);
    assert_eq!(meta.text_offset, 0);
    assert_eq!(meta.text_len as usize, text.len());
    assert_eq!(meta.project, "agile-turtles");
    assert_eq!(meta.cwd, "/Users/me/code/agile-turtles");
}

#[test]
fn durations_between_times() {
    assert_eq!(compute_duration("2026-03-13T10:00:00Z", "2026-03-13T12:00:00+01:00"), 3600);
    assert_eq!(compute_duration("2026-03-13T10:00:00Z", "2026-03-13T09:59:59Z"), 0);
    assert_eq!(compute_duration("2026-03-13T10:00:00Z", "yesterday"), 0);
    assert_eq!(compute_duration("", ""), 0);
    assert_eq!(elapsed(Some(3), Some(10)), 7);
    assert_eq!(elapsed(Some(i64::MIN), Some(i64::MAX)), u64::MAX);
    assert_eq!(elapsed(Some(10), Some(3)), 0);
    assert_eq!(elapsed(None, Some(3)), 0);
}

#[test]
fn an_index_is_read_back_whole() {
    let scanned = vec![scan("modern", MODERN).unwrap(), scan("simple", SIMPLE).unwrap()];
    let (_, index) = build_index(scanned);
    let restored = deserialize_index(&serialize_index(&index)).unwrap();
    assert_eq!(format!("{:?}", restored), format!("{:?}", index));
}

#[test]
fn bytes_that_are_no_index_are_refused() {
    assert!(deserialize_index(b"").is_none());
    assert!(deserialize_index(b"\x04\0\0\0\xff").is_none());
    assert!(deserialize_index(b"not an index at all").is_none());
    assert!(current_index(None).is_none());
    assert!(current_index(Some((INDEX_VERSION + 1, Vec::new()))).is_none());
    assert!(current_index(Some((INDEX_VERSION, Vec::new()))).is_some());
}

#[test]
fn an_index_finds_the_texts_that_were_written_with_it() {
    let a = scan("modern", MODERN).unwrap();
    let b = scan("simple", SIMPLE).unwrap();
    let (text_a, text_b) = (a.1.clone(), b.1.clone());
    let (contents, index) = build_index(vec![a, b]);
    assert_eq!(index.version, INDEX_VERSION);
    let cache = TextCache::open(Some(&contents));
    let s = &index.sessions;
    assert_eq!(cache.slice(s[0].text_offset, s[0].text_len), text_a.as_slice());
    assert_eq!(cache.slice(s[1].text_offset, s[1].text_len), text_b.as_slice());
    assert!(fits_text_cache(&index, contents.len()));
    assert!(!fits_text_cache(&index, contents.len() - 1));
}

#[test]
fn an_index_without_its_texts_is_not_loaded() {
    let (contents, index) = build_index(vec![scan("simple", SIMPLE).unwrap()]);
    let bytes = serialize_index(&index);
    assert!(load_cached_index(Some(&bytes), contents.len()).is_some());
    assert!(load_cached_index(Some(&bytes), contents.len() - 1).is_none());
    assert!(load_cached_index(None, contents.len()).is_none());
    let far = SessionIndex { version: INDEX_VERSION, sessions: Vec::new() };
    assert!(load_cached_index(Some(&serialize_index(&far)), 0).is_some());
}

#[test]
fn unchanged_sessions_are_reused() {
    let scanned = scan("simple", SIMPLE).unwrap();
    let text = scanned.1.clone();
    let (contents, index) = build_index(vec![scan("modern", MODERN).unwrap(), scanned]);
    let cache = TextCache::open(Some(&contents));
    let cached = Some(index);
    let path = "/sessions/simple.jsonl";
    let (meta, bytes) = reuse_session(&cached, false, &cache, path, 1710300000, 2048).unwrap();
    assert_eq!(bytes, text);
    assert_eq!(meta.title, "build a cool thing");
    assert_eq!(meta.text_offset, 0);
    assert!(reuse_session(&cached, true, &cache, path, 1710300000, 2048).is_none());
    assert!(reuse_session(&cached, false, &cache, path, 1710300001, 2048).is_none());
    assert!(reuse_session(&cached, false, &cache, path, 1710300000, 2049).is_none());
    assert!(reuse_session(&cached, false, &cache, "/elsewhere", 1710300000, 2048).is_none());
    assert!(reuse_session(&None, false, &cache, path, 1710300000, 2048).is_none());
}

#[test]
fn directories_become_folder_names() {
    assert_eq!(encode_project_path("/Users/me/my app.v2"), "-Users-me-my-app-v2");
    assert_eq!(encode_project_path("/tmp/é"), "-tmp--");
    assert_eq!(encode_project_path(""), "");
}

#[test]
fn written_words_find_their_session() {
    let text = r#"{"type":"user","message":{"content":"Write the PARSER by hand"}}
{"type":"user","message":{"content":"then sharpen the needle"}}
"#;
    let other = r#"{"type":"user","message":{"content":"nothing of the kind"}}
"#;
    let (contents, built) =
        build_index(vec![scan("a", other).unwrap(), scan("b", text).unwrap()]);
    let mut app =
        App::new(built.sessions, false, StringSet::new(), TextCache::open(Some(&contents)));
    for query in ["parser", "Needle hand", "sharpen WRITE the"] {
        app.search_query = query.into();
        app.apply_search();
        assert_eq!(app.filtered_indices, vec![1]);
    }
    app.search_query = "parser kind".into();
    app.apply_search();
    assert!(app.filtered_indices.is_empty());
}
