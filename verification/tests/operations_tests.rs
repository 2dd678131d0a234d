use mac_keyboard_mcp::keycode::{KeyCategory, KeyCode, KeyDatabase};
use mac_keyboard_mcp::operations::{
    find_keys, list_categories, lookup_key, parse_resource_uri, LookupAnswer, Resource,
    ResourceError, SUGGESTION_LIMIT,
};
use mac_keyboard_mcp::search::FuzzySearcher;

#[test]
fn lookup_key_finds_a_key() {
    let db = KeyDatabase::load().unwrap();
    let searcher = FuzzySearcher::new();
    match lookup_key(&db, &searcher, "esc", false) {
        LookupAnswer::Found(key) => {
            assert_eq!(key.name, "Escape");
            assert_eq!(key.code, 53);
            assert_eq!(key.category, KeyCategory::SpecialKeys);
            assert_eq!(key.aliases, ["Esc"]);
        }
        _ => panic!("expected the key"),
    }
    assert!(matches!(lookup_key(&db, &searcher, "F3", true), LookupAnswer::Found(k) if k.code == 99));
}

#[test]
fn lookup_key_answers_a_secondary_function_query() {
    let db = KeyDatabase::load().unwrap();
    let searcher = FuzzySearcher::new();
    match lookup_key(&db, &searcher, "f3+", false) {
        LookupAnswer::SecondaryFunction { f_key, primary, secondary } => {
            assert_eq!(f_key, "F3");
            assert_eq!(primary.unwrap().name, "F3");
            assert_eq!(primary.unwrap().code, 99);
            assert_eq!(secondary.name, "Mission Control");
            assert_eq!(secondary.keycode, 160);
            assert_eq!(secondary.description, "Show all open windows");
        }
        _ => panic!("expected the secondary function"),
    }
    let bare = KeyDatabase::from_keys(vec![KeyCode::new("A", 0, KeyCategory::Letters)]).unwrap();
    match lookup_key(&bare, &searcher, "F12+", true) {
        LookupAnswer::SecondaryFunction { f_key, primary, secondary } => {
            assert_eq!(f_key, "F12");
            assert!(primary.is_none());
            assert_eq!(secondary.name, "Volume Up");
        }
        _ => panic!("expected the secondary function"),
    }
}

#[test]
fn lookup_key_suggests_only_when_asked() {
    let db = KeyDatabase::load().unwrap();
    let searcher = FuzzySearcher::new();
    assert!(matches!(lookup_key(&db, &searcher, "comand", false), LookupAnswer::NotFound));
    assert!(matches!(lookup_key(&db, &searcher, "F13+", false), LookupAnswer::NotFound));
    match lookup_key(&db, &searcher, "comand", true) {
        LookupAnswer::Suggestions(hits) => {
            assert_eq!(hits, searcher.search_keys(&db, "comand", 5));
            assert_eq!(hits[0].0.name, "Command");
        }
        _ => panic!("expected suggestions"),
    }
    match lookup_key(&db, &searcher, "num", true) {
        LookupAnswer::Suggestions(hits) => assert_eq!(hits.len(), SUGGESTION_LIMIT),
        _ => panic!("expected suggestions"),
    }
    match lookup_key(&db, &searcher, "qqqq", true) {
        LookupAnswer::Suggestions(hits) => assert!(hits.is_empty()),
        _ => panic!("expected suggestions"),
    }
}

fn names(keys: Vec<&KeyCode>) -> Vec<String> {
    keys.iter().map(|k| k.name.clone()).collect()
}

#[test]
fn find_keys_by_category_query_or_both() {
    let db = KeyDatabase::load().unwrap();
    assert_eq!(find_keys(&db, None, None).unwrap(), db.all_keys());
    assert_eq!(
        find_keys(&db, None, Some("numbers")).unwrap(),
        db.by_category(KeyCategory::Numbers)
    );
    assert_eq!(
        names(find_keys(&db, Some("ARROW"), Some("navigation_keys")).unwrap()),
        ["DownArrow", "LeftArrow", "RightArrow", "UpArrow"]
    );
    assert_eq!(
        names(find_keys(&db, Some("1"), Some("function_keys")).unwrap()),
        ["F1", "F10", "F11", "F12", "F13", "F14", "F15", "F16", "F17", "F18", "F19"]
    );
    assert!(find_keys(&db, Some("cmd"), Some("modifier_keys")).unwrap().is_empty());
    assert_eq!(names(find_keys(&db, Some("cmd"), None).unwrap()), ["Command"]);
    assert_eq!(
        names(find_keys(&db, Some("page"), None).unwrap()),
        ["PageUp", "PageDown"]
    );
    assert!(find_keys(&db, Some("qqq"), None).unwrap().is_empty());
}

#[test]
fn find_keys_rejects_a_string_that_names_no_category() {
    let db = KeyDatabase::load().unwrap();
    assert_eq!(find_keys(&db, None, Some("Letters")).err().unwrap().name, "Letters");
    assert_eq!(find_keys(&db, Some("a"), Some("keys")).err().unwrap().name, "keys");
    assert_eq!(find_keys(&db, Some("a"), Some("")).err().unwrap().name, "");
}

#[test]
fn list_categories_gives_counts_and_descriptions() {
    let db = KeyDatabase::load().unwrap();
    assert_eq!(
        list_categories(&db),
        vec![
            (KeyCategory::FunctionKeys, 20, "Function keys F1-F20"),
            (KeyCategory::Letters, 26, "Letter keys A-Z"),
            (KeyCategory::ModifierKeys, 12, "Modifier keys (Command, Shift, Option, Control)"),
            (KeyCategory::NavigationKeys, 8, "Navigation keys (arrows, page up/down, home, end)"),
            (KeyCategory::Numbers, 10, "Number keys 0-9"),
            (KeyCategory::NumpadKeys, 18, "Numeric keypad keys"),
            (KeyCategory::Punctuation, 11, "Punctuation and symbol keys"),
            (KeyCategory::SpecialKeys, 11, "Special keys (space, tab, return, delete, escape)"),
        ]
    );
}

#[test]
fn resource_addresses_are_read() {
    assert_eq!(parse_resource_uri("keycode://all").unwrap(), Resource::AllKeys);
    assert_eq!(parse_resource_uri("keycode://aliases").unwrap(), Resource::Aliases);
    assert_eq!(
        parse_resource_uri("keycode://category/letters").unwrap(),
        Resource::Category(KeyCategory::Letters)
    );
    assert_eq!(
        parse_resource_uri("keycode://category/numpad_keys").unwrap(),
        Resource::Category(KeyCategory::NumpadKeys)
    );
    match parse_resource_uri("keycode://category/Letters") {
        Err(ResourceError::UnknownCategory(name)) => assert_eq!(name, "Letters"),
        other => panic!("{:?}", other),
    }
    match parse_resource_uri("keycode://category/") {
        Err(ResourceError::UnknownCategory(name)) => assert_eq!(name, ""),
        other => panic!("{:?}", other),
    }
    assert!(matches!(parse_resource_uri("keycode://category"), Err(ResourceError::UnknownUri)));
    assert!(matches!(parse_resource_uri("keycode://All"), Err(ResourceError::UnknownUri)));
    assert!(matches!(parse_resource_uri("keycode://all/"), Err(ResourceError::UnknownUri)));
    assert!(matches!(parse_resource_uri(""), Err(ResourceError::UnknownUri)));
    assert!(matches!(parse_resource_uri("http://all"), Err(ResourceError::UnknownUri)));
}
