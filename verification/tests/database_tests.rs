use mac_keyboard_mcp::keycode::{KeyCategory, KeyDatabase};

#[test]
fn test_database_loading() {
    let db = KeyDatabase::load().unwrap();

    // Check some basic keys exist
    assert!(db.lookup("A").is_some());
    assert!(db.lookup("Space").is_some());
    assert!(db.lookup("Command").is_some());
}

#[test]
fn database_test_case_insensitive_lookup() {
    let db = KeyDatabase::load().unwrap();

    assert_eq!(db.lookup("a").unwrap().code, 0);
    assert_eq!(db.lookup("A").unwrap().code, 0);
    assert_eq!(db.lookup("SPACE").unwrap().code, 49);
}

#[test]
fn database_test_alias_lookup() {
    let db = KeyDatabase::load().unwrap();

    assert_eq!(db.lookup("Cmd").unwrap().name, "Command");
    assert_eq!(db.lookup("⌘").unwrap().name, "Command");
    assert_eq!(db.lookup("Enter").unwrap().name, "Return");
}

#[test]
fn test_category_lookup() {
    let db = KeyDatabase::load().unwrap();

    let letters = db.by_category(KeyCategory::Letters);
    assert_eq!(letters.len(), 26);

    let numbers = db.by_category(KeyCategory::Numbers);
    assert_eq!(numbers.len(), 10);
}
