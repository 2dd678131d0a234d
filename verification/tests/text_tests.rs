use mac_keyboard_mcp::text::{
    chars_of, comes_before, has_substring, occurs_at, same_chars, same_text, string_of,
};

fn v(s: &str) -> Vec<char> {
    s.chars().collect()
}

#[test]
fn strings_and_characters_convert() {
    assert_eq!(chars_of("a⌘b"), vec!['a', '⌘', 'b']);
    assert!(chars_of("").is_empty());
    assert_eq!(string_of(&v("Cmd+⇧A"), 4, 6), "⇧A");
    assert_eq!(string_of(&v("Cmd"), 0, 3), "Cmd");
    assert_eq!(string_of(&v("Cmd"), 2, 2), "");
}

#[test]
fn texts_compare() {
    assert!(same_text("F3", "F3"));
    assert!(!same_text("F3", "f3"));
    assert!(!same_text("F3", "F30"));
    assert!(same_text("", ""));
    assert!(same_chars(&v("⌘"), &v("⌘")));
    assert!(!same_chars(&v("⌘"), &v("⌥")));
}

#[test]
fn substrings_are_found() {
    assert!(has_substring(&v("leftarrow"), &v("arrow")));
    assert!(has_substring(&v("leftarrow"), &v("left")));
    assert!(has_substring(&v("leftarrow"), &v("")));
    assert!(has_substring(&v(""), &v("")));
    assert!(has_substring(&v("aab"), &v("ab")));
    assert!(!has_substring(&v("leftarrow"), &v("arrows")));
    assert!(!has_substring(&v("ab"), &v("ba")));
    assert!(!has_substring(&v(""), &v("a")));
    assert!(occurs_at(&v("leftarrow"), &v("arrow"), 4));
    assert!(!occurs_at(&v("leftarrow"), &v("arrow"), 3));
}

#[test]
fn strings_are_ordered_as_str_orders_them() {
    let words = ["", "A", "B", "F1", "F10", "F2", "a", "ab", "b", "é", "⌘", "Zz", "Z"];
    for a in words {
        for b in words {
            assert_eq!(comes_before(&v(a), &v(b)), a < b);
        }
    }
}
