use mac_keyboard_mcp::keycode::{parse_shortcut, KeyCategory, KeyDatabase};
use mac_keyboard_mcp::search::FuzzySearcher;

#[test]
fn test_key_database_loading() {
    let db = KeyDatabase::load().unwrap();

    // Check some basic keys
    assert!(db.lookup("A").is_some());
    assert!(db.lookup("Space").is_some());
    assert!(db.lookup("F17").is_some());
    assert_eq!(db.lookup("F17").unwrap().code, 160);
}

#[test]
fn lib_tests_test_case_insensitive_lookup() {
    let db = KeyDatabase::load().unwrap();

    let key1 = db.lookup("command");
    let key2 = db.lookup("Command");
    let key3 = db.lookup("COMMAND");

    assert!(key1.is_some());
    assert_eq!(key1.unwrap().code, key2.unwrap().code);
    assert_eq!(key2.unwrap().code, key3.unwrap().code);
}

#[test]
fn lib_tests_test_alias_lookup() {
    let db = KeyDatabase::load().unwrap();

    // Test Command aliases
    assert_eq!(db.lookup("Cmd").unwrap().name, "Command");
    assert_eq!(db.lookup("⌘").unwrap().name, "Command");

    // Test other aliases
    assert_eq!(db.lookup("Enter").unwrap().name, "Return");
    assert_eq!(db.lookup("Backspace").unwrap().name, "Delete");
}

#[test]
fn test_function_key_codes() {
    let db = KeyDatabase::load().unwrap();

    assert_eq!(db.lookup("F7").unwrap().code, 98);
    assert_eq!(db.lookup("F8").unwrap().code, 100);
    assert_eq!(db.lookup("F10").unwrap().code, 109);
    assert_eq!(db.lookup("F17").unwrap().code, 160);
    assert_eq!(db.lookup("F18").unwrap().code, 131);
}

#[test]
fn test_shortcut_parsing() {
    let db = KeyDatabase::load().unwrap();

    // Simple shortcuts
    let combo1 = parse_shortcut(&db, "Cmd+A").unwrap();
    assert_eq!(combo1.modifiers.len(), 1);
    assert_eq!(combo1.key.name, "A");

    // Multiple modifiers
    let combo2 = parse_shortcut(&db, "Cmd+Shift+S").unwrap();
    assert_eq!(combo2.modifiers.len(), 2);
    assert_eq!(combo2.key.name, "S");

    // Symbol shortcuts
    let combo3 = parse_shortcut(&db, "⌘⇧A").unwrap();
    assert_eq!(combo3.modifiers.len(), 2);
    assert_eq!(combo3.key.name, "A");
}

#[test]
fn lib_tests_test_fuzzy_search() {
    let db = KeyDatabase::load().unwrap();
    let searcher = FuzzySearcher::new();

    // Test typo tolerance
    let results = searcher.search_keys(&db, "comand", 3);
    assert!(!results.is_empty());
    assert_eq!(results[0].0.name, "Command");

    // Test partial matching
    let results = searcher.search_keys(&db, "arr", 10);
    assert!(results.iter().any(|(k, _)| k.name.contains("Arrow")));
}

#[test]
fn test_categories() {
    let db = KeyDatabase::load().unwrap();

    let letters = db.by_category(KeyCategory::Letters);
    assert_eq!(letters.len(), 26);

    let numbers = db.by_category(KeyCategory::Numbers);
    assert_eq!(numbers.len(), 10);

    let functions = db.by_category(KeyCategory::FunctionKeys);
    assert!(functions.len() >= 20); // F1-F20
}
