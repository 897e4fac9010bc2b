use sessy::json::{parse_json, Json};
use sessy::parser::{
    command_noise_title, extract_command_args, extract_conversation, extract_conversation_ext,
    extract_tickets_into, human_message_text, is_command_noise, lines_of, push_search_text, scan_session,
    summarize_tool_use, Role, Speaker,
};
use sessy::scan::scan_entries;
use sessy::string_set::StringSet;

const SIMPLE: &str = r#"{"type":"file-history-snapshot","snapshot":{}}
{"type":"user","timestamp":"2026-03-13T10:00:00Z","cwd":"/Users/me/code/agile-turtles","gitBranch":"main","slug":"cool-thing","message":{"role":"user","content":"build a cool thing"}}
{"type":"assistant","timestamp":"2026-03-13T10:00:05Z","message":{"role":"assistant","content":[{"type":"text","text":"Sure, let me help you build that."}]}}
{"type":"progress","timestamp":"2026-03-13T10:00:06Z"}
{"type":"user","timestamp":"2026-03-13T10:05:00Z","message":{"role":"user","content":"looks good, ship it"}}
{"type":"assistant","timestamp":"2026-03-13T10:06:00Z","message":{"role":"assistant","content":[{"type":"text","text":"Done! Everything is deployed."}]}}
"#;

const COMPLEX: &str = r#"{"type":"user","timestamp":"2026-03-13T10:00:00Z","cwd":"/Users/me/code/web","gitBranch":"feat/auth","message":{"content":"add auth"}}
{"type":"user","isMeta":true,"message":{"content":"<local-command-caveat>Caveat: generated</local-command-caveat>"}}
{"type":"user","isMeta":true,"message":{"content":[{"type":"text","text":"skill loaded: auth-helper"}]}}
{"type":"assistant","timestamp":"2026-03-13T10:00:05Z","message":{"content":[{"type":"thinking","thinking":"tokens or cookies"},{"type":"text","text":"I'll set up JWT auth."},{"type":"tool_use","id":"t1","name":"Edit","input":{"file_path":"src/auth.rs","old_string":"a","new_string":"b"}}]}}
{"type":"user","toolUseResult":{},"message":{"content":[{"type":"tool_result","tool_use_id":"t1","content":"ok"}]}}
{"type":"assistant","isSidechain":true,"message":{"content":[{"type":"text","text":"This is a sidechain message."}]}}
{"type":"user","timestamp":"2026-03-13T10:09:00Z","message":{"content":"thanks"}}
"#;

const TICKETS: &str = r#"{"type":"user","timestamp":"2026-05-13T10:00:00Z","cwd":"/Users/me/code/agile-turtles/sessy","gitBranch":"main","slug":"ticket-session","message":{"content":"working on PROJ-123 today"}}
{"type":"assistant","timestamp":"2026-05-13T10:00:10Z","message":{"content":[{"type":"text","text":"ABC-78 is also relevant, #456"}]}}
{"type":"user","timestamp":"2026-05-13T10:01:00Z","message":{"content":"final question on PROJ-123"}}
"#;

const MODERN: &str = r#"{"type":"user","version":"2.1.0","gitBranch":"feat/auth","cwd":"/Users/me/code/demo","timestamp":"2026-06-01T09:00:00Z","message":{"content":"add login endpoint"}}
{"type":"assistant","message":{"content":[{"type":"text","text":"On it."}]}}
{"type":"ai-title","aiTitle":"Add JWT login endpoint"}
{"type":"permission-mode","permissionMode":"plan"}
{"type":"user","isMeta":true,"attributionSkill":"brainstorming","message":{"content":"skill text"}}
{"type":"assistant","attributionSkill":"test-driven-development","message":{"content":[{"type":"text","text":"Tests first."}]}}
{"type":"file-history-snapshot","snapshot":{"trackedFileBackups":{"src/lib.rs":{},"src/auth.rs":{}}}}
{"type":"user","timestamp":"2026-06-01T09:30:00Z","message":{"content":"ship it"}}
"#;

fn lines(text: &str) -> Vec<String> {
    lines_of(text.as_bytes())
}

#[test]
fn test_extract_conversation_filters_correctly() {
    let messages = extract_conversation(&lines(SIMPLE));
    assert_eq!(messages.len(), 4);
    assert_eq!(messages[0].role, Role::User);
    assert_eq!(messages[0].text, "build a cool thing");
    assert_eq!(messages[1].role, Role::Assistant);
    assert_eq!(messages[1].text, "Sure, let me help you build that.");
    assert_eq!(messages[2].role, Role::User);
    assert_eq!(messages[2].text, "looks good, ship it");
    assert_eq!(messages[3].role, Role::Assistant);
    assert_eq!(messages[3].text, "Done! Everything is deployed.");
}

#[test]
fn test_extract_with_tools_includes_tool_lines() {
    let with = extract_conversation_ext(&lines(COMPLEX), true);
    let without = extract_conversation_ext(&lines(COMPLEX), false);
    assert!(
        with.iter().any(|(sp, _)| *sp == Speaker::Tool),
        "include_tools=true should surface a Tool line"
    );
    assert!(
        !without.iter().any(|(sp, _)| *sp == Speaker::Tool),
        "include_tools=false must not surface Tool lines"
    );
}

#[test]
fn test_extract_conversation_skips_sidechain() {
    let messages = extract_conversation(&lines(COMPLEX));
    let texts: Vec<&str> = messages.iter().map(|m| m.text.as_str()).collect();
    assert!(!texts.contains(&"This is a sidechain message."));
}

#[test]
fn test_extract_conversation_skips_meta_user() {
    let messages = extract_conversation(&lines(COMPLEX));
    let texts: Vec<&str> = messages.iter().map(|m| m.text.as_str()).collect();
    assert!(!texts.contains(&"skill loaded: auth-helper"));
    assert!(!texts.iter().any(|t| t.contains("local-command-caveat")));
}

#[test]
fn test_extract_tickets_positive() {
    let mut out = StringSet::new();
    extract_tickets_into("see PROJ-123 and ABC-78 please", &mut out);
    assert!(out.contains("PROJ-123"));
    assert!(out.contains("ABC-78"));
}

#[test]
fn test_extract_tickets_hash_form() {
    let mut out = StringSet::new();
    extract_tickets_into("fixes #456 and refs #7", &mut out);
    assert!(out.contains("#456"));
    assert!(out.contains("#7"));
}

#[test]
fn test_extract_tickets_negative() {
    let mut out = StringSet::new();
    extract_tickets_into("lowercase-99 and A-99 and proj-123", &mut out);
    assert!(out.is_empty(), "got: {:?}", out.to_vec());
}

#[test]
fn test_extract_tickets_dedupes() {
    let mut out = StringSet::new();
    extract_tickets_into("PROJ-1 PROJ-1 PROJ-1", &mut out);
    assert_eq!(out.len(), 1);
}

#[test]
fn test_extract_tickets_word_boundaries() {
    let mut out = StringSet::new();
    extract_tickets_into("xPROJ-1y and (PROJ-2)", &mut out);
    assert!(!out.contains("PROJ-1"));
    assert!(out.contains("PROJ-2"));
}

#[test]
fn test_scan_session_simple() {
    let result = scan_session(&lines(SIMPLE));
    let result = result.expect("should scan");
    assert_eq!(result.head.title, "build a cool thing");
    assert_eq!(result.head.branch, "main");
    let tail = result.tail.expect("should have tail");
    assert_eq!(tail.last_human_message, "looks good, ship it");
    assert!(
        result.search_text_lc.contains("build a cool thing"),
        "got: {:?}",
        result.search_text_lc
    );
    assert!(
        result.search_text_lc.contains("looks good, ship it"),
        "got: {:?}",
        result.search_text_lc
    );
    assert!(
        result.search_text_lc.chars().all(|c: char| !c.is_uppercase()),
        "should be lowercased"
    );
}

#[test]
fn test_scan_session_empty_returns_none() {
    let result = scan_session(&lines(""));
    assert!(result.is_none());
}

#[test]
fn test_scan_session_extracts_tickets() {
    let result = scan_session(&lines(TICKETS));
    let result = result.expect("should scan");
    assert!(result.tickets.contains(&"PROJ-123".to_string()), "got {:?}", result.tickets);
    assert!(result.tickets.contains(&"ABC-78".to_string()), "got {:?}", result.tickets);
    assert!(result.tickets.contains(&"#456".to_string()), "got {:?}", result.tickets);
    // sorted + deduped
    let mut sorted = result.tickets.clone();
    sorted.sort();
    sorted.dedup();
    assert_eq!(sorted, result.tickets);
}

#[test]
fn test_extract_command_args_well_formed() {
    assert_eq!(
        extract_command_args("<command-args>new name</command-args>"),
        Some("new name".to_string())
    );
}

#[test]
fn test_extract_command_args_close_before_open_no_panic() {
    // A closing tag before the opening tag.
    let content = "<command-name>/rename</command-name></command-args>junk<command-args>";
    assert_eq!(extract_command_args(content), None);
}

#[test]
fn test_extract_command_args_missing_close() {
    assert_eq!(extract_command_args("<command-args>truncated"), None);
}

#[test]
fn test_scan_session_malformed_rename_line_no_panic() {
    // A valid human message so the scan yields a result, then a local_command
    // whose </command-args> precedes <command-args>.
    let text = r#"{"type":"user","message":{"content":"hello"},"timestamp":"2026-01-01T00:00:00Z"}
{"type":"user","subtype":"local_command","content":"<command-name>/rename</command-name></command-args>junk<command-args>","toolUseResult":{}}
"#;
    let result = scan_session(&lines(text)).expect("should still scan");
    assert_eq!(result.head.title, "hello");
    let tail = result.tail.expect("tail");
    assert_eq!(tail.rename, "", "malformed rename must be ignored");
}

#[test]
fn test_scan_session_non_utf8_and_truncated_lines_no_panic() {
    // Invalid UTF-8 bytes, truncated JSON, unknown types with odd shapes.
    let mut bytes: Vec<u8> = vec![0xff, 0xfe, 0x80, b'\n'];
    bytes.extend_from_slice(b"{\"type\":\"user\",\"message\":{\"content\":\"tr\n");
    bytes.extend_from_slice(b"{\"type\":\"future-thing\",\"message\":42}\n");
    bytes.extend_from_slice(b"{\"type\":\"user\",\"message\":{\"content\":[\"array form\"]}}\n");
    bytes.extend_from_slice(
        b"{\"type\":\"user\",\"message\":{\"content\":\"survivor\"},\"timestamp\":\"2026-01-01T00:00:00Z\"}\n",
    );
    let result = scan_session(&lines_of(&bytes)).expect("should scan despite garbage");
    assert_eq!(result.head.title, "survivor");
    assert_eq!(result.message_count, 1);
}

#[test]
fn test_command_noise_skipped_for_title_and_count() {
    // A slash command and its output arrive before the real first message.
    let text = r#"{"type":"user","message":{"content":"<command-name>/model</command-name><command-args></command-args>"},"timestamp":"2026-01-01T00:00:00Z"}
{"type":"user","message":{"content":"<local-command-stdout>Set model to opus</local-command-stdout>"}}
{"type":"user","message":{"content":"fix the login bug"},"timestamp":"2026-01-01T00:01:00Z"}
{"type":"user","message":{"content":"<task-notification><task-id>x1</task-id>done</task-notification>"},"timestamp":"2026-01-01T00:02:00Z"}
"#;
    let result = scan_session(&lines(text)).expect("should scan");
    assert_eq!(result.head.title, "fix the login bug");
    assert_eq!(result.message_count, 1, "noise turns must not count");
    let tail = result.tail.expect("tail");
    assert_eq!(
        tail.last_human_message, "fix the login bug",
        "task notification must not become the left-off line"
    );
    assert!(
        !result.search_text_lc.contains("command-name"),
        "noise must not enter the search text"
    );
}

#[test]
fn test_command_only_session_gets_fallback_title() {
    let text = r#"{"type":"user","message":{"content":"<command-name>/exit</command-name>"},"timestamp":"2026-01-01T00:00:00Z"}
{"type":"user","message":{"content":"<local-command-stdout>Bye!</local-command-stdout>"}}
"#;
    let result = scan_session(&lines(text)).expect("command-only session must stay listable");
    assert_eq!(result.head.title, "/exit");
    assert_eq!(result.message_count, 0);
}

#[test]
fn test_search_text_includes_assistant_text() {
    let result = scan_session(&lines(COMPLEX)).expect("should scan");
    assert!(
        result.search_text_lc.contains("i'll set up jwt auth."),
        "assistant text must be searchable, got: {:?}",
        result.search_text_lc
    );
}

#[test]
fn test_search_text_includes_array_form_user_text() {
    let result = scan_session(&lines(COMPLEX)).expect("should scan");
    assert!(
        result.search_text_lc.contains("skill loaded: auth-helper"),
        "array-form user text must be searchable, got: {:?}",
        result.search_text_lc
    );
}

#[test]
fn test_search_text_includes_tool_results_inputs_and_thinking() {
    let text = r#"{"type":"user","message":{"content":"start"},"timestamp":"2026-01-01T00:00:00Z"}
{"type":"assistant","message":{"content":[{"type":"thinking","thinking":"maybe the flag is inverted"},{"type":"tool_use","id":"t1","name":"Bash","input":{"command":"cargo build --release"}}]}}
{"type":"user","message":{"content":[{"type":"tool_result","tool_use_id":"t1","content":"error[E0502]: cannot borrow"}]},"toolUseResult":{}}
{"type":"user","message":{"content":[{"type":"tool_result","tool_use_id":"t2","content":[{"type":"text","text":"warning: unused variable `zeta`"}]}]},"toolUseResult":{}}
"#;
    let result = scan_session(&lines(text)).expect("should scan");
    for needle in [
        "maybe the flag is inverted",
        "cargo build --release",
        "error[e0502]: cannot borrow",
        "warning: unused variable `zeta`",
    ] {
        assert!(
            result.search_text_lc.contains(needle),
            "search text must contain {:?}, got: {:?}",
            needle,
            result.search_text_lc
        );
    }
    // Deep content must not affect the human message count.
    assert_eq!(result.message_count, 1);
}

#[test]
fn test_extract_conversation_missing_file_returns_empty() {
    // A file that is not there has no lines.
    let messages = extract_conversation(&Vec::new());
    assert!(messages.is_empty());
}

#[test]
fn test_scan_modern_extracts_metadata() {
    let result = scan_session(&lines(MODERN)).expect("should scan");
    assert_eq!(result.ai_title, "Add JWT login endpoint");
    assert_eq!(result.permission_mode, "plan");
    assert_eq!(result.cc_version, "2.1.0");
    assert!(
        result.skills.contains(&"brainstorming".to_string()),
        "skills: {:?}",
        result.skills
    );
    assert!(
        result.skills.contains(&"test-driven-development".to_string()),
        "skills: {:?}",
        result.skills
    );
    // sorted union of trackedFileBackups keys
    assert_eq!(
        result.changed_files,
        vec!["src/auth.rs".to_string(), "src/lib.rs".to_string()]
    );
    // two human messages: "add login endpoint" and "ship it"
    assert_eq!(result.message_count, 2);
}

#[test]
fn conversation_with_tools_keeps_the_order() {
    let pairs = extract_conversation_ext(&lines(COMPLEX), true);
    let told: Vec<(Speaker, &str)> = pairs.iter().map(|(s, t)| (*s, t.as_str())).collect();
    assert_eq!(
        told,
        vec![
            (Speaker::User, "add auth"),
            (Speaker::Assistant, "I'll set up JWT auth."),
            (Speaker::Tool, "Edit src/auth.rs"),
            (Speaker::User, "thanks"),
        ]
    );
}

#[test]
fn tool_calls_show_their_most_telling_argument() {
    let input = parse_json(r#"{"description":"list","command":"ls\n-la","path":3}"#).unwrap();
    assert_eq!(summarize_tool_use("Bash", Some(&input)), "Bash ls -la");
    let input = parse_json(r#"{"file_path":"","command":"ls"}"#).unwrap();
    assert_eq!(summarize_tool_use("Edit", Some(&input)), "Edit");
    assert_eq!(summarize_tool_use("Edit", None), "Edit");
    let input = Json::Object(Vec::new());
    assert_eq!(summarize_tool_use("X", Some(&input)), "X");
    let long = format!(r#"{{"url":"{}"}}"#, "é".repeat(200));
    let input = parse_json(&long).unwrap();
    assert_eq!(summarize_tool_use("Fetch", Some(&input)), format!("Fetch {}", "é".repeat(120)));
}

#[test]
fn tool_calls_without_a_name_are_called_tool() {
    let text = r#"{"type":"assistant","message":{"content":[{"type":"tool_use","input":{"query":"q"}},{"type":"text","text":"   "}]}}"#;
    let pairs = extract_conversation_ext(&lines(text), true);
    assert_eq!(pairs, vec![(Speaker::Tool, "tool q".to_string())]);
}

#[test]
fn the_last_rename_wins() {
    let text = r#"{"type":"user","message":{"content":"hi"}}
{"subtype":"local_command","content":"<command-name>/rename</command-name><command-args>first</command-args>"}
{"subtype":"local_command","content":"<command-name>/rename</command-name><command-args> second </command-args>"}
"#;
    let tail = scan_session(&lines(text)).unwrap().tail.unwrap();
    assert_eq!(tail.rename.trim(), "second");
}

#[test]
fn noise_is_told_by_how_a_message_starts() {
    assert!(is_command_noise("<command-name>/x</command-name>"));
    assert!(is_command_noise("<local-command-stdout>x</local-command-stdout>"));
    assert!(!is_command_noise("please run <command-name>"));
    assert_eq!(
        command_noise_title("<command-name> /model </command-name><command-args>opus</command-args>"),
        "/model"
    );
    assert_eq!(command_noise_title("<command-name> </command-name>"), "(command output)");
    assert_eq!(
        command_noise_title("<local-command-stdout>x</local-command-stdout>"),
        "(command output)"
    );
}

#[test]
fn long_messages_are_cut_for_titles() {
    let long = "ä".repeat(250);
    let text = format!(r#"{{"type":"user","message":{{"content":"  {}  "}}}}"#, long);
    let result = scan_session(&lines(&text)).unwrap();
    assert_eq!(result.head.title, format!("{}…", "ä".repeat(200)));
}

#[test]
fn search_text_is_lower_case_and_on_lines_of_its_own() {
    let mut out = String::from("before\n");
    push_search_text(&mut out, "  Hello WORLD ");
    push_search_text(&mut out, "   ");
    assert_eq!(out, "before\nhello world\n");
}

#[test]
fn lines_end_with_or_without_a_carriage_return() {
    assert_eq!(lines_of(b"a\r\nb\n\nc"), vec!["a", "b", "", "c"]);
    assert_eq!(lines_of(b"\xffbad\nok\n"), vec!["ok"]);
    assert!(lines_of(b"").is_empty());
}

#[test]
fn speakers_have_prefixes() {
    assert_eq!(Speaker::User.prefix(), "USER: ");
    assert_eq!(Speaker::Assistant.prefix(), "ASST: ");
    assert_eq!(Speaker::Tool.prefix(), "TOOL: ");
    assert_eq!(Speaker::Tool.prefix_lc(), "tool: ");
}

#[test]
fn sessions_keep_the_first_time_and_the_last() {
    let result = scan_session(&lines(SIMPLE)).unwrap();
    assert_eq!(result.head.first_timestamp, "2026-03-13T10:00:00Z");
    assert_eq!(result.tail.unwrap().last_timestamp, "2026-03-13T10:06:00Z");
    assert_eq!(result.head.cwd, "/Users/me/code/agile-turtles");
    assert_eq!(result.head.slug, "cool-thing");
}

#[test]
fn string_sets_are_sorted_and_without_repetition() {
    let mut set = StringSet::new();
    for s in ["b", "a", "c", "b", "ab"] {
        set.insert(s.to_string());
    }
    assert_eq!(set.to_vec(), vec!["a", "ab", "b", "c"]);
    set.remove("b");
    set.remove("zz");
    assert!(!set.contains("b"));
    assert_eq!(set.len(), 3);
    assert_eq!(set.into_vec(), vec!["a", "ab", "c"]);
}

#[test]
fn previews_count_the_messages_that_a_scan_counts() {
    for text in [SIMPLE, COMPLEX, TICKETS, MODERN] {
        let count = scan_session(&lines(text)).unwrap().message_count as usize;
        for tools in [false, true] {
            let said = extract_conversation_ext(&lines(text), tools);
            assert_eq!(said.iter().filter(|m| m.0 == Speaker::User).count(), count);
        }
    }
}

#[test]
fn tool_lines_are_all_that_tools_add() {
    let with = extract_conversation_ext(&lines(COMPLEX), true);
    let without = extract_conversation_ext(&lines(COMPLEX), false);
    assert!(with.len() > without.len());
    let rest: Vec<_> = with.into_iter().filter(|m| m.0 != Speaker::Tool).collect();
    assert_eq!(rest, without);
}

#[test]
fn asides_can_be_left_out() {
    let kept: Vec<String> = lines(COMPLEX)
        .into_iter()
        .filter(|l| !l.contains("isMeta") && !l.contains("toolUseResult") && !l.contains("isSidechain"))
        .collect();
    assert_eq!(kept.len(), 3);
    assert_eq!(
        extract_conversation_ext(&kept, true),
        extract_conversation_ext(&lines(COMPLEX), true)
    );
}

#[test]
fn messages_stand_in_the_search_text() {
    let text = scan_session(&lines(MODERN)).unwrap().search_text_lc;
    assert!(text.contains("add login endpoint"));
    assert!(text.contains("ship it"));
    assert!(text.contains("tests first."));
}

#[test]
fn entries_are_scanned_as_lines_are() {
    let entries: Vec<Json> = lines(MODERN).iter().map(|l| parse_json(l).unwrap()).collect();
    let a = scan_entries(&entries, vec!["ABC-1".to_string()]).unwrap();
    let b = scan_session(&lines(MODERN)).unwrap();
    assert_eq!(a.head.title, b.head.title);
    assert_eq!(a.ai_title, "Add JWT login endpoint");
    assert_eq!(a.skills, b.skills);
    assert_eq!(a.changed_files, vec!["src/auth.rs", "src/lib.rs"]);
    assert_eq!(a.message_count, 2);
    assert_eq!(a.tickets, vec!["ABC-1"]);
    assert!(scan_entries(&vec![], vec![]).is_none());
}

#[test]
fn headlines_are_taken_from_texts_only() {
    let entry = parse_json(r#"{"message":{"content":"  first line\nsecond"}}"#).unwrap();
    assert_eq!(human_message_text(&entry).as_deref(), Some("first line\nsecond"));
    let entry = parse_json(r#"{"message":{"content":[]}}"#).unwrap();
    assert_eq!(human_message_text(&entry), None);
}
