use mac_keyboard_mcp::keycode::{parse_shortcut, KeyDatabase, ParseError};

#[test]
fn test_parse_simple_shortcut() {
    let db = KeyDatabase::load().unwrap();
    let combo = parse_shortcut(&db, "Cmd+A").unwrap();
    assert_eq!(combo.modifiers.len(), 1);
    assert_eq!(combo.modifiers[0].name, "Command");
    assert_eq!(combo.key.name, "A");
}

#[test]
fn test_parse_multiple_modifiers() {
    let db = KeyDatabase::load().unwrap();
    let combo = parse_shortcut(&db, "Cmd+Shift+S").unwrap();
    assert_eq!(combo.modifiers.len(), 2);
    assert!(combo.modifiers.iter().any(|m| m.name == "Command"));
    assert!(combo.modifiers.iter().any(|m| m.name == "Shift"));
    assert_eq!(combo.key.name, "S");
}

#[test]
fn test_parse_symbol_shortcut() {
    let db = KeyDatabase::load().unwrap();
    let combo = parse_shortcut(&db, "⌘⇧A").unwrap();
    assert_eq!(combo.modifiers.len(), 2);
    assert!(combo.modifiers.iter().any(|m| m.name == "Command"));
    assert!(combo.modifiers.iter().any(|m| m.name == "Shift"));
    assert_eq!(combo.key.name, "A");
}

#[test]
fn test_parse_with_different_separators() {
    let db = KeyDatabase::load().unwrap();
    let combo1 = parse_shortcut(&db, "Cmd+A").unwrap();
    let combo2 = parse_shortcut(&db, "Cmd-A").unwrap();
    assert_eq!(combo1.to_keycodes(), combo2.to_keycodes());
}

#[test]
fn test_parse_errors() {
    let db = KeyDatabase::load().unwrap();
    assert!(matches!(parse_shortcut(&db, ""), Err(ParseError::EmptyShortcut)));
    assert!(matches!(parse_shortcut(&db, "XYZ"), Err(ParseError::UnknownKey(_))));
    assert!(matches!(parse_shortcut(&db, "Cmd+Shift"), Err(ParseError::NoMainKey)));
    assert!(matches!(parse_shortcut(&db, "A+B"), Err(ParseError::MultipleMainKeys)));
}

#[test]
fn test_to_string() {
    let db = KeyDatabase::load().unwrap();
    let combo = parse_shortcut(&db, "Shift+Cmd+A").unwrap();
    // Should normalize order to Command+Shift+A
    assert_eq!(combo.to_string(), "Command+Shift+A");
}

fn tokens(text: &str) -> Vec<String> {
    mac_keyboard_mcp::keycode::parser::split_shortcut(text)
}

#[test]
fn shortcuts_are_cut_at_separators_and_glyphs() {
    assert_eq!(tokens("Cmd+A"), ["Cmd", "A"]);
    assert_eq!(tokens("Cmd-A"), ["Cmd", "A"]);
    assert_eq!(tokens("⌘⇧A"), ["⌘", "⇧", "A"]);
    assert_eq!(tokens("Ctrl⌥Delete"), ["Ctrl", "⌥", "Delete"]);
    assert_eq!(tokens("⌃+⌘-F5"), ["⌃", "⌘", "F5"]);
    assert_eq!(tokens("++A--"), ["A"]);
    assert_eq!(tokens("Left Shift+Page Up"), ["Left Shift", "Page Up"]);
    assert_eq!(tokens("Cmd + A"), ["Cmd ", " A"]);
    assert!(tokens("").is_empty());
    assert!(tokens("+-+").is_empty());
}

#[test]
fn parse_names_the_unknown_token() {
    let db = KeyDatabase::load().unwrap();
    match parse_shortcut(&db, "XYZ") {
        Err(ParseError::UnknownKey(token)) => assert_eq!(token, "XYZ"),
        other => panic!("{:?}", other),
    }
    match parse_shortcut(&db, "Cmd+Foo+Bar") {
        Err(ParseError::UnknownKey(token)) => assert_eq!(token, "Foo"),
        other => panic!("{:?}", other),
    }
    match parse_shortcut(&db, "Cmd + A") {
        Err(ParseError::UnknownKey(token)) => assert_eq!(token, "Cmd "),
        other => panic!("{:?}", other),
    }
}

#[test]
fn parse_reports_the_first_token_that_cannot_be_taken() {
    let db = KeyDatabase::load().unwrap();
    assert!(matches!(parse_shortcut(&db, "A+B+XYZ"), Err(ParseError::MultipleMainKeys)));
    assert!(matches!(parse_shortcut(&db, "A+XYZ+B"), Err(ParseError::UnknownKey(_))));
    assert!(matches!(parse_shortcut(&db, "A+A"), Err(ParseError::MultipleMainKeys)));
    assert!(matches!(parse_shortcut(&db, "+"), Err(ParseError::NoMainKey)));
    assert!(matches!(parse_shortcut(&db, "⌘"), Err(ParseError::NoMainKey)));
    assert!(matches!(parse_shortcut(&db, "Cmd+"), Err(ParseError::NoMainKey)));
}

#[test]
fn parse_gives_the_codes_in_order() {
    let db = KeyDatabase::load().unwrap();
    let combo = parse_shortcut(&db, "Cmd+A").unwrap();
    assert_eq!(combo.modifiers.len(), 1);
    assert_eq!(combo.modifiers[0].code, 55);
    assert_eq!(combo.key.code, 0);
    assert_eq!(combo.to_keycodes(), [55, 0]);
    assert_eq!(parse_shortcut(&db, "Cmd+Shift+S").unwrap().to_keycodes(), [55, 56, 1]);
    assert_eq!(parse_shortcut(&db, "Shift+Cmd+S").unwrap().to_keycodes(), [56, 55, 1]);
    assert_eq!(parse_shortcut(&db, "S+Shift+Cmd").unwrap().to_keycodes(), [56, 55, 1]);
    assert_eq!(parse_shortcut(&db, "Ctrl+Option+Delete").unwrap().to_keycodes(), [59, 58, 51]);
    assert_eq!(parse_shortcut(&db, "space").unwrap().to_keycodes(), [49]);
    assert_eq!(parse_shortcut(&db, "⌃⌥⇧⌘F12").unwrap().to_keycodes(), [59, 58, 56, 55, 111]);
}

#[test]
fn parse_keeps_one_modifier_for_each_code() {
    let db = KeyDatabase::load().unwrap();
    let combo = parse_shortcut(&db, "Shift+ShiftLeft+⇧+ShiftRight+A").unwrap();
    let names: Vec<&str> = combo.modifiers.iter().map(|m| m.name.as_str()).collect();
    assert_eq!(names, ["Shift", "ShiftRight"]);
    assert_eq!(combo.to_keycodes(), [56, 60, 0]);
    let combo = parse_shortcut(&db, "ShiftLeft+Shift+A").unwrap();
    assert_eq!(combo.modifiers.len(), 1);
    assert_eq!(combo.modifiers[0].name, "ShiftLeft");
}

#[test]
fn display_uses_the_fixed_order_of_the_four_modifiers() {
    let db = KeyDatabase::load().unwrap();
    let shown = |text: &str| parse_shortcut(&db, text).unwrap().to_string();
    assert_eq!(shown("⇧⌥⌃⌘A"), "Command+Control+Option+Shift+A");
    assert_eq!(shown("Opt+Ctrl+Delete"), "Control+Option+Delete");
    assert_eq!(shown("a"), "A");
    assert_eq!(shown("Fn+Cmd+CapsLock+f5"), "Command+F5");
    assert_eq!(shown("ShiftLeft+A"), "A");
    assert_eq!(shown("enter"), "Return");
}

#[test]
fn parse_errors_have_texts() {
    assert_eq!(ParseError::EmptyShortcut.to_string(), "Empty shortcut string");
    assert_eq!(ParseError::UnknownKey("XYZ".to_string()).to_string(), "Unknown key: XYZ");
    assert_eq!(
        ParseError::MultipleMainKeys.to_string(),
        "Multiple non-modifier keys in shortcut"
    );
    assert_eq!(ParseError::NoMainKey.to_string(), "No main key in shortcut (only modifiers)");
    assert_eq!(ParseError::InvalidFormat.to_string(), "Invalid shortcut format");
}

#[test]
fn parses_repeat() {
    let db = KeyDatabase::load().unwrap();
    for text in ["Cmd+A", "⌘⇧A", "A+B", "", "XYZ", "Cmd+Shift"] {
        let first = parse_shortcut(&db, text);
        let second = parse_shortcut(&db, text);
        match (first, second) {
            (Ok(a), Ok(b)) => assert_eq!(a, b),
            (Err(a), Err(b)) => assert_eq!(a.to_string(), b.to_string()),
            _ => panic!("two parses of {:?} differ", text),
        }
    }
}
