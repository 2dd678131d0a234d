use mac_keyboard_mcp::keycode::{get_secondary_function, is_secondary_function_query};

#[test]
fn test_secondary_function_query_detection() {
    assert_eq!(is_secondary_function_query("F3+"), Some("F3"));
    assert_eq!(is_secondary_function_query("f3+"), Some("F3"));
    assert_eq!(is_secondary_function_query("F12+"), Some("F12"));
    assert_eq!(is_secondary_function_query("F13+"), None); // Only F1-F12
    assert_eq!(is_secondary_function_query("F3"), None); // No +
    assert_eq!(is_secondary_function_query("G3+"), None); // Not F
}

#[test]
fn test_get_secondary_function() {
    let f3_secondary = get_secondary_function("F3").unwrap();
    assert_eq!(f3_secondary.name, "Mission Control");
    assert_eq!(f3_secondary.keycode, 160);
}

#[test]
fn every_function_key_up_to_twelve_has_a_secondary_function() {
    let table = [
        ("F1", "Brightness Down", 107, "Decrease display brightness"),
        ("F2", "Brightness Up", 113, "Increase display brightness"),
        ("F3", "Mission Control", 160, "Show all open windows"),
        ("F4", "Launchpad", 131, "Show all apps"),
        ("F5", "Keyboard Illumination Down", 105, "Decrease keyboard backlight"),
        ("F6", "Keyboard Illumination Up", 106, "Increase keyboard backlight"),
        ("F7", "Previous Track", 98, "Skip to previous track"),
        ("F8", "Play/Pause", 100, "Play or pause media"),
        ("F9", "Next Track", 101, "Skip to next track"),
        ("F10", "Mute", 74, "Mute/unmute audio"),
        ("F11", "Volume Down", 73, "Decrease volume"),
        ("F12", "Volume Up", 72, "Increase volume"),
    ];
    for (key, name, code, description) in table {
        let f = get_secondary_function(key).unwrap();
        assert_eq!(f.name, name);
        assert_eq!(f.keycode, code);
        assert_eq!(f.description, description);
        let query = format!("{}+", key);
        assert_eq!(is_secondary_function_query(&query), Some(key));
        assert_eq!(is_secondary_function_query(&query.to_lowercase()), Some(key));
    }
}

#[test]
fn other_names_have_no_secondary_function() {
    assert!(get_secondary_function("F13").is_none());
    assert!(get_secondary_function("F0").is_none());
    assert!(get_secondary_function("f3").is_none());
    assert!(get_secondary_function("F3+").is_none());
    assert!(get_secondary_function("F03").is_none());
    assert!(get_secondary_function("").is_none());
    assert!(get_secondary_function("Mute").is_none());
}

#[test]
fn secondary_function_queries_are_f_digits_plus() {
    assert_eq!(is_secondary_function_query("F1+"), Some("F1"));
    assert_eq!(is_secondary_function_query("F10+"), Some("F10"));
    assert_eq!(is_secondary_function_query("F03+"), Some("F3"));
    assert_eq!(is_secondary_function_query("f0012+"), Some("F12"));
    assert_eq!(is_secondary_function_query("F0+"), None);
    assert_eq!(is_secondary_function_query("F00+"), None);
    assert_eq!(is_secondary_function_query("F+"), None);
    assert_eq!(is_secondary_function_query("F++"), None);
    assert_eq!(is_secondary_function_query("F+3+"), None);
    assert_eq!(is_secondary_function_query("F-3+"), None);
    assert_eq!(is_secondary_function_query("F3++"), None);
    assert_eq!(is_secondary_function_query("F3 +"), None);
    assert_eq!(is_secondary_function_query(" F3+"), None);
    assert_eq!(is_secondary_function_query("F3+ "), None);
    assert_eq!(is_secondary_function_query("F20+"), None);
    assert_eq!(is_secondary_function_query("F120+"), None);
    assert_eq!(is_secondary_function_query("F99999999999999999999+"), None);
    assert_eq!(is_secondary_function_query("F1a+"), None);
    assert_eq!(is_secondary_function_query("FF1+"), None);
    assert_eq!(is_secondary_function_query("F٣+"), None);
    assert_eq!(is_secondary_function_query("+"), None);
    assert_eq!(is_secondary_function_query(""), None);
    assert_eq!(is_secondary_function_query("⌘3+"), None);
}
