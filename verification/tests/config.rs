use sessy::app::SortMode;
use sessy::config::{load, parse_config};

#[test]
fn test_config_defaults() {
    let c = parse_config("");
    assert!(!c.scope_is_all());
    assert_eq!(c.sort_mode(), SortMode::Date);
    assert!(!c.show_tool_activity);
}

#[test]
fn test_config_parse() {
    let c = parse_config("scope = \"all\"\nsort = \"messages\"\nshow_tool_activity = true\n");
    assert!(c.scope_is_all());
    assert_eq!(c.sort_mode(), SortMode::Messages);
    assert!(c.show_tool_activity);
}

#[test]
fn test_config_malformed_falls_back_to_defaults() {
    let c = parse_config("this is not ]][[ valid toml");
    assert!(!c.scope_is_all());
    assert_eq!(c.sort_mode(), SortMode::Date);
}

#[test]
fn a_setting_of_the_wrong_kind_undoes_all() {
    let c = parse_config("scope = \"all\"\nshow_tool_activity = 1\n");
    assert!(!c.scope_is_all());
    let c = parse_config("scope = 3\nsort = \"size\"\n");
    assert_eq!(c.sort_mode(), SortMode::Date);
    let c = parse_config("sort = [\"size\"]\nshow_tool_activity = true\n");
    assert!(!c.show_tool_activity);
}

#[test]
fn unknown_settings_are_passed_over() {
    let c = parse_config("theme = 7\nsort = \"size\"\n[more]\nscope = \"all\"\n");
    assert_eq!(c.sort_mode(), SortMode::Size);
    assert!(!c.scope_is_all());
}

#[test]
fn settings_are_read_in_any_case() {
    let c = parse_config("scope = \"ALL\"\nsort = \"Duration\"\n");
    assert!(c.scope_is_all());
    assert_eq!(c.sort_mode(), SortMode::Duration);
}

#[test]
fn every_label_names_its_mode() {
    for m in [SortMode::Date, SortMode::Size, SortMode::Duration, SortMode::Messages] {
        let c = parse_config(&format!("sort = \"{}\"", m.label()));
        assert_eq!(c.sort_mode(), m);
    }
}

#[test]
fn a_missing_file_yields_defaults() {
    let c = load(None);
    assert_eq!(c.scope, "current");
    assert_eq!(c.sort, "date");
    assert!(!c.show_tool_activity);
    assert!(load(Some("show_tool_activity = true")).show_tool_activity);
}

#[test]
fn unknown_keys_are_passed_over() {
    let c = parse_config("scope = \"all\"\nother = 99999999999999999999\n[table]\nx = 1\n");
    assert!(c.scope_is_all());
    assert_eq!(c.sort, "date");
}

#[test]
fn numbers_out_of_range_spoil_the_file() {
    let huge = "9".repeat(50);
    for value in [huge.clone(), format!("[{}]", huge), "{ x = 1e999 }".to_string()] {
        let c = parse_config(&format!("scope = \"all\"\nother = {}\n", value));
        assert!(!c.scope_is_all());
    }
    let c = parse_config("scope = \"all\"\nother = 1e99\n");
    assert!(c.scope_is_all());
}
