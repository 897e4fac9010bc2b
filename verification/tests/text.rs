use sessy::text::{is_blank, trimmed};

#[test]
fn blanks_are_the_white_space_characters() {
    let mut found: Vec<u32> = Vec::new();
    for n in 0..=0x10FFFFu32 {
        if let Some(c) = char::from_u32(n) {
            if is_blank(&c.to_string()) {
                found.push(n);
            }
        }
    }
    let mut listed: Vec<u32> = (9..=13).collect();
    listed.extend([32, 0x85, 0xA0, 0x1680]);
    listed.extend(0x2000..=0x200A);
    listed.extend([0x2028, 0x2029, 0x202F, 0x205F, 0x3000]);
    assert_eq!(found, listed);
}

#[test]
fn texts_are_trimmed_at_both_ends() {
    assert_eq!(trimmed(" \u{3000}a b\t\n"), "a b");
    assert_eq!(trimmed("\u{200B}a"), "\u{200B}a");
    assert_eq!(trimmed(" \n "), "");
}
