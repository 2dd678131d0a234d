use mac_keyboard_mcp::keycode::{KeyCategory, KeyCode, KeyDatabase};

fn names(keys: &[&KeyCode]) -> Vec<String> {
    keys.iter().map(|k| k.name.clone()).collect()
}

#[test]
fn catalog_has_all_keys_in_catalog_order() {
    let db = KeyDatabase::load().unwrap();
    let all = db.all_keys();
    assert_eq!(all.len(), 116);
    assert_eq!(all[0].name, "A");
    assert_eq!(all[25].name, "Z");
    assert_eq!(all[26].name, "0");
    assert_eq!(all[115].name, "Slash");
    assert_eq!(all, KeyDatabase::create_all_keys().iter().collect::<Vec<_>>());
}

#[test]
fn every_name_is_found_in_any_case() {
    let db = KeyDatabase::load().unwrap();
    for key in db.all_keys() {
        let plain = db.lookup(&key.name).unwrap();
        let lower = db.lookup(&key.name.to_lowercase()).unwrap();
        let upper = db.lookup(&key.name.to_uppercase()).unwrap();
        assert_eq!(plain, key);
        assert_eq!(lower, key);
        assert_eq!(upper, key);
    }
}

#[test]
fn every_alias_finds_its_key() {
    let db = KeyDatabase::load().unwrap();
    let mut aliases = 0;
    for key in db.all_keys() {
        for alias in &key.aliases {
            assert_eq!(db.lookup(alias).unwrap().name, key.name);
            aliases += 1;
        }
    }
    assert_eq!(aliases, 65);
}

#[test]
fn no_two_keys_share_a_label() {
    let db = KeyDatabase::load().unwrap();
    let mut seen: Vec<(String, String)> = Vec::new();
    for key in db.all_keys() {
        let mut labels = vec![key.name.to_lowercase()];
        labels.extend(key.aliases.iter().map(|a| a.to_lowercase()));
        for label in labels {
            for (other, owner) in &seen {
                assert!(other != &label || owner == &key.name);
            }
            seen.push((label, key.name.clone()));
        }
    }
}

#[test]
fn lookup_misses_return_none() {
    let db = KeyDatabase::load().unwrap();
    assert!(db.lookup("XYZ").is_none());
    assert!(db.lookup("").is_none());
    assert!(db.lookup(" A").is_none());
    assert!(db.lookup("Comand").is_none());
}

#[test]
fn lookup_by_code_returns_the_last_key_with_the_code() {
    let db = KeyDatabase::load().unwrap();
    assert_eq!(db.lookup_by_code(0).unwrap().name, "A");
    assert_eq!(db.lookup_by_code(49).unwrap().name, "Space");
    assert_eq!(db.lookup_by_code(71).unwrap().name, "NumpadClear");
    assert_eq!(db.lookup_by_code(56).unwrap().name, "ShiftLeft");
    assert_eq!(db.lookup_by_code(58).unwrap().name, "OptionLeft");
    assert_eq!(db.lookup_by_code(59).unwrap().name, "ControlLeft");
    assert_eq!(db.lookup_by_code(160).unwrap().name, "F17");
    assert!(db.lookup_by_code(999).is_none());
    assert!(db.lookup_by_code(10).is_none());
}

#[test]
fn by_category_sorts_by_name() {
    let db = KeyDatabase::load().unwrap();
    assert_eq!(
        names(&db.by_category(KeyCategory::Numbers)),
        ["0", "1", "2", "3", "4", "5", "6", "7", "8", "9"]
    );
    assert_eq!(
        names(&db.by_category(KeyCategory::FunctionKeys)),
        [
            "F1", "F10", "F11", "F12", "F13", "F14", "F15", "F16", "F17", "F18", "F19", "F2",
            "F20", "F3", "F4", "F5", "F6", "F7", "F8", "F9"
        ]
    );
    assert_eq!(
        names(&db.by_category(KeyCategory::NavigationKeys)),
        [
            "DownArrow", "End", "Home", "LeftArrow", "PageDown", "PageUp", "RightArrow",
            "UpArrow"
        ]
    );
    assert_eq!(
        names(&db.by_category(KeyCategory::ModifierKeys)),
        [
            "CapsLock", "Command", "Control", "ControlLeft", "ControlRight", "Fn", "Option",
            "OptionLeft", "OptionRight", "Shift", "ShiftLeft", "ShiftRight"
        ]
    );
}

#[test]
fn by_category_agrees_with_a_std_sort() {
    let db = KeyDatabase::load().unwrap();
    for category in [
        KeyCategory::Letters,
        KeyCategory::Numbers,
        KeyCategory::FunctionKeys,
        KeyCategory::ModifierKeys,
        KeyCategory::NavigationKeys,
        KeyCategory::SpecialKeys,
        KeyCategory::NumpadKeys,
        KeyCategory::Punctuation,
    ] {
        let mut expected: Vec<String> = db
            .all_keys()
            .iter()
            .filter(|k| k.category == category)
            .map(|k| k.name.clone())
            .collect();
        expected.sort();
        assert_eq!(names(&db.by_category(category)), expected);
    }
}

#[test]
fn categories_are_counted_in_name_order() {
    let db = KeyDatabase::load().unwrap();
    assert_eq!(
        db.categories(),
        vec![
            (KeyCategory::FunctionKeys, 20),
            (KeyCategory::Letters, 26),
            (KeyCategory::ModifierKeys, 12),
            (KeyCategory::NavigationKeys, 8),
            (KeyCategory::Numbers, 10),
            (KeyCategory::NumpadKeys, 18),
            (KeyCategory::Punctuation, 11),
            (KeyCategory::SpecialKeys, 11),
        ]
    );
}

#[test]
fn categories_without_keys_are_left_out() {
    let db = KeyDatabase::from_keys(vec![
        KeyCode::new("Space", 49, KeyCategory::SpecialKeys),
        KeyCode::new("B", 11, KeyCategory::Letters),
        KeyCode::new("A", 0, KeyCategory::Letters),
    ])
    .unwrap();
    assert_eq!(
        db.categories(),
        vec![(KeyCategory::Letters, 2), (KeyCategory::SpecialKeys, 1)]
    );
    assert_eq!(names(&db.by_category(KeyCategory::Letters)), ["A", "B"]);
    assert!(db.by_category(KeyCategory::Numbers).is_empty());
}

#[test]
fn search_finds_exact_matches_first() {
    let db = KeyDatabase::load().unwrap();
    assert_eq!(names(&db.search("cmd", false)), ["Command"]);
    assert_eq!(names(&db.search("SHIFT", true)), ["Shift"]);
    assert_eq!(names(&db.search("left", true)), ["LeftArrow"]);
}

#[test]
fn search_falls_back_to_names_that_hold_the_query() {
    let db = KeyDatabase::load().unwrap();
    assert!(db.search("arrow", false).is_empty());
    assert_eq!(
        names(&db.search("arrow", true)),
        ["LeftArrow", "RightArrow", "UpArrow", "DownArrow"]
    );
    assert_eq!(
        names(&db.search("SHIF", true)),
        ["Shift", "ShiftLeft", "ShiftRight"]
    );
    // aliases are not searched by the fallback
    assert!(db.search("backsp", true).is_empty());
    assert!(db.search("qqq", true).is_empty());
    // the empty query is inside every name
    assert_eq!(db.search("", true).len(), 116);
    assert!(db.search("", false).is_empty());
}

#[test]
fn construction_fails_on_a_shared_alias() {
    let built = KeyDatabase::from_keys(vec![
        KeyCode::new("Return", 36, KeyCategory::SpecialKeys).with_alias("Enter"),
        KeyCode::new("A", 0, KeyCategory::Letters),
        KeyCode::new("NumpadEnter", 76, KeyCategory::NumpadKeys).with_alias("ENTER"),
    ]);
    let e = built.err().unwrap();
    assert_eq!(e.first, "Return");
    assert_eq!(e.second, "NumpadEnter");
}

#[test]
fn construction_fails_on_names_equal_up_to_case() {
    let built = KeyDatabase::from_keys(vec![
        KeyCode::new("Home", 115, KeyCategory::NavigationKeys),
        KeyCode::new("home", 1, KeyCategory::NavigationKeys),
    ]);
    let e = built.err().unwrap();
    assert_eq!(e.first, "Home");
    assert_eq!(e.second, "home");
}

#[test]
fn construction_fails_where_an_alias_is_the_name_of_another_key() {
    let built = KeyDatabase::from_keys(vec![
        KeyCode::new("Delete", 51, KeyCategory::SpecialKeys),
        KeyCode::new("Escape", 53, KeyCategory::SpecialKeys),
        KeyCode::new("ForwardDelete", 117, KeyCategory::SpecialKeys).with_alias("escape"),
        KeyCode::new("Del", 1, KeyCategory::SpecialKeys).with_alias("delete"),
    ]);
    let e = built.err().unwrap();
    assert_eq!(e.first, "Escape");
    assert_eq!(e.second, "ForwardDelete");
}

#[test]
fn a_key_may_repeat_its_own_labels() {
    let db = KeyDatabase::from_keys(vec![
        KeyCode::new("Tab", 48, KeyCategory::SpecialKeys).with_alias("tab").with_alias("TAB"),
    ])
    .unwrap();
    assert_eq!(db.lookup("tAb").unwrap().code, 48);
    assert!(KeyDatabase::from_keys(Vec::new()).unwrap().all_keys().is_empty());
}

#[test]
fn lookups_repeat() {
    let db = KeyDatabase::load().unwrap();
    let other = KeyDatabase::load().unwrap();
    for query in ["Cmd", "⌘", "space bar", "nothing", "F3"] {
        assert_eq!(db.lookup(query), db.lookup(query));
        assert_eq!(db.lookup(query), other.lookup(query));
        assert_eq!(db.search(query, true), db.search(query, true));
        assert_eq!(db.search(query, true), other.search(query, true));
    }
}

#[test]
fn keys_that_share_a_code_are_listed() {
    let db = KeyDatabase::load().unwrap();
    let pairs: Vec<(String, String, u16)> = db
        .code_collisions()
        .iter()
        .map(|(a, b)| {
            assert_eq!(a.code, b.code);
            (a.name.clone(), b.name.clone(), a.code)
        })
        .collect();
    assert_eq!(
        pairs,
        [
            ("Shift".to_string(), "ShiftLeft".to_string(), 56),
            ("Option".to_string(), "OptionLeft".to_string(), 58),
            ("Control".to_string(), "ControlLeft".to_string(), 59),
            ("Clear".to_string(), "NumpadClear".to_string(), 71),
        ]
    );
    let three = KeyDatabase::from_keys(vec![
        KeyCode::new("A", 7, KeyCategory::Letters),
        KeyCode::new("B", 8, KeyCategory::Letters),
        KeyCode::new("C", 7, KeyCategory::Letters),
        KeyCode::new("D", 7, KeyCategory::Letters),
        KeyCode::new("E", 8, KeyCategory::Letters),
    ])
    .unwrap();
    let names: Vec<(&str, &str)> = three
        .code_collisions()
        .iter()
        .map(|(a, b)| (a.name.as_str(), b.name.as_str()))
        .collect();
    assert_eq!(names, [("A", "C"), ("A", "D"), ("C", "D"), ("B", "E")]);
    assert!(KeyDatabase::from_keys(Vec::new()).unwrap().code_collisions().is_empty());
}
