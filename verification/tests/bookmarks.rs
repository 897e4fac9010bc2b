use sessy::bookmarks::{load_bookmarks, save_bookmarks};
use sessy::string_set::StringSet;

#[test]
fn test_bookmarks_roundtrip() {
    let mut set = StringSet::new();
    set.insert("abc-123".to_string());
    set.insert("def-456".to_string());
    let json = save_bookmarks(&set).unwrap();
    let loaded = load_bookmarks(Some(&json));
    assert_eq!(loaded.to_vec(), set.to_vec());
}

#[test]
fn bookmarks_with_odd_characters_survive() {
    let mut set = StringSet::new();
    set.insert("quote \" and \\ and \n".to_string());
    set.insert("κόσμε 🐢".to_string());
    set.insert(String::new());
    let json = save_bookmarks(&set).unwrap();
    assert_eq!(load_bookmarks(Some(&json)).to_vec(), set.to_vec());
}

#[test]
fn bookmarks_are_a_list() {
    let mut set = StringSet::new();
    set.insert("b".to_string());
    set.insert("a".to_string());
    assert_eq!(save_bookmarks(&set).unwrap(), "[\"a\",\"b\"]");
    assert_eq!(save_bookmarks(&StringSet::new()).unwrap(), "[]");
}

#[test]
fn anything_but_a_list_of_texts_is_no_bookmarks() {
    assert!(load_bookmarks(None).is_empty());
    assert!(load_bookmarks(Some("not json")).is_empty());
    assert!(load_bookmarks(Some("{\"a\":1}")).is_empty());
    assert!(load_bookmarks(Some("[\"a\",1]")).is_empty());
    assert_eq!(load_bookmarks(Some("[\"a\",\"a\"]")).to_vec(), vec!["a"]);
}
