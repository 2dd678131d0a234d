use mac_keyboard_mcp::analysis::keycodes::{
    create_keycode_mappings, get_keycode_by_alias, get_keycode_by_name,
};

#[test]
fn the_table_holds_two_names() {
    let map = create_keycode_mappings();
    assert_eq!(map.len(), 2);
    assert_eq!(map.get("A"), Some(&1));
    assert_eq!(map.get("E"), Some(&1));
    assert_eq!(map.get("B"), None);
    assert_eq!(get_keycode_by_name("A"), Some(1));
    assert_eq!(get_keycode_by_name("E"), Some(1));
    assert_eq!(get_keycode_by_name("a"), None);
    assert_eq!(get_keycode_by_name(""), None);
}

#[test]
fn short_names_give_codes() {
    for (names, code) in [
        (vec!["cmd", "command", "⌘"], 55),
        (vec!["opt", "option", "alt", "⌥"], 58),
        (vec!["ctrl", "control", "⌃"], 59),
        (vec!["shift", "⇧"], 56),
        (vec!["esc", "escape"], 53),
        (vec!["del", "delete", "backspace"], 51),
        (vec!["enter", "return", "↵"], 36),
        (vec!["space", "spacebar"], 49),
    ] {
        for name in names {
            assert_eq!(get_keycode_by_alias(name), Some(code));
            assert_eq!(get_keycode_by_alias(&name.to_uppercase()), Some(code));
        }
    }
}

#[test]
fn blanks_and_hyphens_in_short_names_are_dropped() {
    assert_eq!(get_keycode_by_alias("Space Bar"), Some(49));
    assert_eq!(get_keycode_by_alias("space-bar"), Some(49));
    assert_eq!(get_keycode_by_alias(" c-m d "), Some(55));
    assert_eq!(get_keycode_by_alias("Back Space"), Some(51));
    assert_eq!(get_keycode_by_alias("- -"), None);
    assert_eq!(get_keycode_by_alias(""), None);
    assert_eq!(get_keycode_by_alias("tab"), None);
    assert_eq!(get_keycode_by_alias("cmd+"), None);
    assert_eq!(get_keycode_by_alias("space_bar"), None);
}
