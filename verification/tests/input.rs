use sessy::input::TextInput;

#[test]
fn from_str_puts_cursor_at_end() {
    let input = TextInput::from("hello");
    assert_eq!(input.text(), "hello");
    assert_eq!(input.cursor_chars(), 5);
}

#[test]
fn insert_mid_string_after_moving_left() {
    let mut input = TextInput::from("helo");
    input.move_left();
    input.insert('l');
    assert_eq!(input.text(), "hello");
    assert_eq!(input.cursor_chars(), 4);
}

#[test]
fn backspace_mid_string() {
    let mut input = TextInput::from("heello");
    input.move_left();
    input.move_left();
    input.move_left();
    input.backspace();
    assert_eq!(input.text(), "hello");
    assert_eq!(input.cursor_chars(), 2);
}

#[test]
fn delete_forward_removes_char_at_cursor() {
    let mut input = TextInput::from("hello");
    input.move_home();
    input.delete_forward();
    assert_eq!(input.text(), "ello");
    assert_eq!(input.cursor_chars(), 0);
}

#[test]
fn arrows_clamp_at_edges() {
    let mut input = TextInput::from("ab");
    input.move_right(); // already at end
    assert_eq!(input.cursor_chars(), 2);
    input.move_home();
    input.move_left(); // already at start
    assert_eq!(input.cursor_chars(), 0);
}

#[test]
fn word_moves_jump_over_words() {
    let mut input = TextInput::from("hello brave world");
    input.move_word_left();
    assert_eq!(input.cursor_chars(), 12); // start of "world"
    input.move_word_left();
    assert_eq!(input.cursor_chars(), 6); // start of "brave"
    input.move_word_right();
    assert_eq!(input.cursor_chars(), 11); // end of "brave"
    input.move_word_right();
    assert_eq!(input.cursor_chars(), 17); // end of "world"
}

#[test]
fn delete_word_backwards_strips_trailing_space_then_word() {
    // Readline behavior: skip trailing whitespace, then delete the word,
    // leaving the space *before* it intact.
    let mut input = TextInput::from("hello world ");
    input.delete_word_backwards();
    assert_eq!(input.text(), "hello ");
}

#[test]
fn delete_word_backwards_no_trailing_space() {
    let mut input = TextInput::from("hello world");
    input.delete_word_backwards();
    assert_eq!(input.text(), "hello ");
}

#[test]
fn delete_word_backwards_only_one_word() {
    let mut input = TextInput::from("hello");
    input.delete_word_backwards();
    assert_eq!(input.text(), "");
}

#[test]
fn delete_word_backwards_empty_is_noop() {
    let mut input = TextInput::default();
    input.delete_word_backwards();
    assert_eq!(input.text(), "");
}

#[test]
fn delete_word_backwards_mid_string_keeps_tail() {
    let mut input = TextInput::from("hello brave world");
    input.move_word_left(); // cursor at start of "world"
    input.delete_word_backwards(); // deletes "brave "
    assert_eq!(input.text(), "hello world");
    assert_eq!(input.cursor_chars(), 6);
}

#[test]
fn delete_to_start_keeps_tail_after_cursor() {
    let mut input = TextInput::from("hello world");
    input.move_word_left(); // cursor at start of "world"
    input.delete_to_start();
    assert_eq!(input.text(), "world");
    assert_eq!(input.cursor_chars(), 0);
}

#[test]
fn delete_to_end_keeps_head_before_cursor() {
    let mut input = TextInput::from("hello world");
    input.move_word_left();
    input.delete_to_end();
    assert_eq!(input.text(), "hello ");
}

#[test]
fn handles_unicode() {
    let mut input = TextInput::from("καλημέρα κόσμε");
    input.delete_word_backwards();
    assert_eq!(input.text(), "καλημέρα ");
    input.move_left(); // cursor before the trailing space
    input.backspace(); // removes the 'α'
    assert_eq!(input.text(), "καλημέρ ");
    input.insert('ν');
    assert_eq!(input.text(), "καλημέρν ");
}

#[test]
fn typing_at_the_start_goes_before_the_rest() {
    let mut input = TextInput::from("bc");
    input.move_home();
    input.insert('a');
    assert_eq!(input.text(), "abc");
    assert_eq!(input.cursor_chars(), 1);
}

#[test]
fn backspace_takes_back_what_was_typed() {
    let mut input = TextInput::from("naïve text");
    input.move_word_left();
    input.insert('é');
    input.backspace();
    assert_eq!(input.text(), "naïve text");
    assert_eq!(input.cursor_chars(), 6);
}

#[test]
fn delete_forward_takes_back_what_was_typed() {
    let mut input = TextInput::from("ab");
    input.move_left();
    input.insert('x');
    input.move_left();
    input.delete_forward();
    assert_eq!(input.text(), "ab");
    assert_eq!(input.cursor_chars(), 1);
}

#[test]
fn backspace_at_the_start_and_delete_at_the_end_do_nothing() {
    let mut input = TextInput::from("ab");
    input.delete_forward();
    assert_eq!(input.text(), "ab");
    input.move_home();
    input.backspace();
    assert_eq!(input.text(), "ab");
    assert_eq!(input.cursor_chars(), 0);
}

#[test]
fn deleting_both_ways_parts_the_text() {
    let mut left = TextInput::from("one two three");
    left.move_word_left();
    let mut right = left.clone();
    left.delete_to_end();
    right.delete_to_start();
    assert_eq!(left.text(), "one two ");
    assert_eq!(right.text(), "three");
    assert_eq!(right.cursor_chars(), 0);
}

#[test]
fn clear_leaves_nothing() {
    let mut input = TextInput::from("abc");
    input.clear();
    assert!(input.is_empty());
    assert_eq!(input.cursor_chars(), 0);
    input.insert('z');
    assert_eq!(input.text(), "z");
}

#[test]
fn word_moves_cross_wide_blanks() {
    let mut input = TextInput::from("a\u{2003}\u{2003}b");
    input.move_word_left();
    assert_eq!(input.cursor_chars(), 3);
    input.move_word_left();
    assert_eq!(input.cursor_chars(), 0);
    input.move_word_right();
    assert_eq!(input.cursor_chars(), 1);
    input.move_word_right();
    assert_eq!(input.cursor_chars(), 4);
}
