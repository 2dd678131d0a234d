use mac_keyboard_mcp::keycode::{KeyCategory, KeyCode};

#[test]
fn test_keycode_creation() {
    let key = KeyCode::new("A", 0, KeyCategory::Letters);
    assert_eq!(key.name, "A");
    assert_eq!(key.code, 0);
    assert_eq!(key.category, KeyCategory::Letters);
    assert!(key.aliases.is_empty());
}

#[test]
fn test_keycode_with_aliases() {
    let key = KeyCode::new("Command", 55, KeyCategory::ModifierKeys)
        .with_alias("Cmd")
        .with_alias("⌘");

    assert_eq!(key.aliases.len(), 2);
    assert!(key.matches("Command"));
    assert!(key.matches("cmd"));
    assert!(key.matches("⌘"));
}

#[test]
fn test_category_display() {
    assert_eq!(KeyCategory::Letters.to_string(), "letters");
    assert_eq!(KeyCategory::FunctionKeys.to_string(), "function_keys");
}

#[test]
fn with_aliases_appends_in_order() {
    let key = KeyCode::new("Option", 58, KeyCategory::ModifierKeys)
        .with_alias("Opt")
        .with_aliases(vec!["Alt".to_string(), "⌥".to_string()]);
    assert_eq!(key.aliases, ["Opt", "Alt", "⌥"]);
    assert_eq!(key.name, "Option");
    assert_eq!(key.code, 58);
    assert_eq!(key.clone(), key);
}

#[test]
fn matches_is_exact_up_to_case() {
    let key = KeyCode::new("Space", 49, KeyCategory::SpecialKeys).with_alias("Space Bar");
    assert!(key.matches("SPACE"));
    assert!(key.matches("space bar"));
    assert!(!key.matches("spacebar"));
    assert!(!key.matches("Spac"));
    assert!(!key.matches(" Space"));
    assert!(!key.matches(""));
}

#[test]
fn categories_have_names_and_are_found_by_them() {
    let all = [
        (KeyCategory::Letters, "letters"),
        (KeyCategory::Numbers, "numbers"),
        (KeyCategory::FunctionKeys, "function_keys"),
        (KeyCategory::ModifierKeys, "modifier_keys"),
        (KeyCategory::NavigationKeys, "navigation_keys"),
        (KeyCategory::SpecialKeys, "special_keys"),
        (KeyCategory::NumpadKeys, "numpad_keys"),
        (KeyCategory::Punctuation, "punctuation"),
    ];
    for (category, name) in all {
        assert_eq!(category.as_str(), name);
        assert_eq!(category.to_string(), name);
        assert_eq!(KeyCategory::from_name(name), Some(category));
    }
    assert_eq!(KeyCategory::from_name("Letters"), None);
    assert_eq!(KeyCategory::from_name("function keys"), None);
    assert_eq!(KeyCategory::from_name("FunctionKeys"), None);
    assert_eq!(KeyCategory::from_name(""), None);
    assert_eq!(KeyCategory::from_name("letters "), None);
}

#[test]
fn categories_are_described() {
    assert_eq!(KeyCategory::Letters.description(), "Letter keys A-Z");
    assert_eq!(KeyCategory::Numbers.description(), "Number keys 0-9");
    assert_eq!(KeyCategory::FunctionKeys.description(), "Function keys F1-F20");
    assert_eq!(
        KeyCategory::ModifierKeys.description(),
        "Modifier keys (Command, Shift, Option, Control)"
    );
    assert_eq!(
        KeyCategory::NavigationKeys.description(),
        "Navigation keys (arrows, page up/down, home, end)"
    );
    assert_eq!(
        KeyCategory::SpecialKeys.description(),
        "Special keys (space, tab, return, delete, escape)"
    );
    assert_eq!(KeyCategory::NumpadKeys.description(), "Numeric keypad keys");
    assert_eq!(KeyCategory::Punctuation.description(), "Punctuation and symbol keys");
}

#[test]
fn case_folding_of_ascii_text_changes_the_capital_letters_alone() {
    let all: String = (0u8..128).map(|b| b as char).collect();
    let lower: String = all.chars().map(|c| c.to_ascii_lowercase()).collect();
    let upper: String = all.chars().map(|c| c.to_ascii_uppercase()).collect();
    let key = KeyCode::new(&all, 1, KeyCategory::SpecialKeys);
    assert!(key.matches(&all));
    assert!(key.matches(&lower));
    assert!(key.matches(&upper));
    for b in 0u8..128 {
        let c = b as char;
        let key = KeyCode::new(&c.to_string(), 1, KeyCategory::SpecialKeys);
        for d in 0u8..128 {
            let d = d as char;
            assert_eq!(
                key.matches(&d.to_string()),
                c.to_ascii_lowercase() == d.to_ascii_lowercase()
            );
        }
    }
}
