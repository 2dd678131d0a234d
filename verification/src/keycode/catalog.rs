//! The built-in key catalog: every key with its name, numeric code, category
//! and aliases, one group per category.

use vstd::prelude::*;

use crate::keycode::types::{KeyCategory, KeyCode, KeyCodeView};
use crate::text::is_ascii;

verus! {

/// The records held by a list of keys.
pub open spec fn key_views(keys: Seq<KeyCode>) -> Seq<KeyCodeView> {
    Seq::new(keys.len(), |i: int| keys[i]@)
}

/// The letter keys A-Z.
#[verifier::opaque]
pub open spec fn catalog_letters() -> Seq<KeyCodeView> {
    seq![
        KeyCodeView::plain("A"@, 0, KeyCategory::Letters),
        KeyCodeView::plain("B"@, 11, KeyCategory::Letters),
        KeyCodeView::plain("C"@, 8, KeyCategory::Letters),
        KeyCodeView::plain("D"@, 2, KeyCategory::Letters),
        KeyCodeView::plain("E"@, 14, KeyCategory::Letters),
        KeyCodeView::plain("F"@, 3, KeyCategory::Letters),
        KeyCodeView::plain("G"@, 5, KeyCategory::Letters),
        KeyCodeView::plain("H"@, 4, KeyCategory::Letters),
        KeyCodeView::plain("I"@, 34, KeyCategory::Letters),
        KeyCodeView::plain("J"@, 38, KeyCategory::Letters),
        KeyCodeView::plain("K"@, 40, KeyCategory::Letters),
        KeyCodeView::plain("L"@, 37, KeyCategory::Letters),
        KeyCodeView::plain("M"@, 46, KeyCategory::Letters),
        KeyCodeView::plain("N"@, 45, KeyCategory::Letters),
        KeyCodeView::plain("O"@, 31, KeyCategory::Letters),
        KeyCodeView::plain("P"@, 35, KeyCategory::Letters),
        KeyCodeView::plain("Q"@, 12, KeyCategory::Letters),
        KeyCodeView::plain("R"@, 15, KeyCategory::Letters),
        KeyCodeView::plain("S"@, 1, KeyCategory::Letters),
        KeyCodeView::plain("T"@, 17, KeyCategory::Letters),
        KeyCodeView::plain("U"@, 32, KeyCategory::Letters),
        KeyCodeView::plain("V"@, 9, KeyCategory::Letters),
        KeyCodeView::plain("W"@, 13, KeyCategory::Letters),
        KeyCodeView::plain("X"@, 7, KeyCategory::Letters),
        KeyCodeView::plain("Y"@, 16, KeyCategory::Letters),
        KeyCodeView::plain("Z"@, 6, KeyCategory::Letters),
    ]
}

/// The number keys 0-9.
#[verifier::opaque]
pub open spec fn catalog_numbers() -> Seq<KeyCodeView> {
    seq![
        KeyCodeView::plain("0"@, 29, KeyCategory::Numbers),
        KeyCodeView::plain("1"@, 18, KeyCategory::Numbers),
        KeyCodeView::plain("2"@, 19, KeyCategory::Numbers),
        KeyCodeView::plain("3"@, 20, KeyCategory::Numbers),
        KeyCodeView::plain("4"@, 21, KeyCategory::Numbers),
        KeyCodeView::plain("5"@, 23, KeyCategory::Numbers),
        KeyCodeView::plain("6"@, 22, KeyCategory::Numbers),
        KeyCodeView::plain("7"@, 26, KeyCategory::Numbers),
        KeyCodeView::plain("8"@, 28, KeyCategory::Numbers),
        KeyCodeView::plain("9"@, 25, KeyCategory::Numbers),
    ]
}

/// The function keys F1-F20.
#[verifier::opaque]
pub open spec fn catalog_function_keys() -> Seq<KeyCodeView> {
    seq![
        KeyCodeView::plain("F1"@, 122, KeyCategory::FunctionKeys),
        KeyCodeView::plain("F2"@, 120, KeyCategory::FunctionKeys),
        KeyCodeView::plain("F3"@, 99, KeyCategory::FunctionKeys),
        KeyCodeView::plain("F4"@, 118, KeyCategory::FunctionKeys),
        KeyCodeView::plain("F5"@, 96, KeyCategory::FunctionKeys),
        KeyCodeView::plain("F6"@, 97, KeyCategory::FunctionKeys),
        KeyCodeView::plain("F7"@, 98, KeyCategory::FunctionKeys),
        KeyCodeView::plain("F8"@, 100, KeyCategory::FunctionKeys),
        KeyCodeView::plain("F9"@, 101, KeyCategory::FunctionKeys),
        KeyCodeView::plain("F10"@, 109, KeyCategory::FunctionKeys),
        KeyCodeView::plain("F11"@, 103, KeyCategory::FunctionKeys),
        KeyCodeView::plain("F12"@, 111, KeyCategory::FunctionKeys),
        KeyCodeView::plain("F13"@, 105, KeyCategory::FunctionKeys)
            .with_alias("Keyboard Backlight Down"@),
        KeyCodeView::plain("F14"@, 107, KeyCategory::FunctionKeys).with_alias("Brightness Down"@),
        KeyCodeView::plain("F15"@, 113, KeyCategory::FunctionKeys).with_alias("Brightness Up"@),
        KeyCodeView::plain("F16"@, 106, KeyCategory::FunctionKeys)
            .with_alias("Keyboard Backlight Up"@),
        KeyCodeView::plain("F17"@, 160, KeyCategory::FunctionKeys).with_alias("Mission Control"@),
        KeyCodeView::plain("F18"@, 131, KeyCategory::FunctionKeys).with_alias("Launchpad"@),
        KeyCodeView::plain("F19"@, 80, KeyCategory::FunctionKeys),
        KeyCodeView::plain("F20"@, 90, KeyCategory::FunctionKeys),
    ]
}

/// The modifier keys.
#[verifier::opaque]
pub open spec fn catalog_modifiers() -> Seq<KeyCodeView> {
    seq![
        KeyCodeView::plain("Command"@, 55, KeyCategory::ModifierKeys)
            .with_alias("Cmd"@)
            .with_alias("⌘"@),
        KeyCodeView::plain("Shift"@, 56, KeyCategory::ModifierKeys).with_alias("⇧"@),
        KeyCodeView::plain("ShiftLeft"@, 56, KeyCategory::ModifierKeys).with_alias("Left Shift"@),
        KeyCodeView::plain("ShiftRight"@, 60, KeyCategory::ModifierKeys).with_alias("Right Shift"@),
        KeyCodeView::plain("Option"@, 58, KeyCategory::ModifierKeys)
            .with_alias("Opt"@)
            .with_alias("Alt"@)
            .with_alias("⌥"@),
        KeyCodeView::plain("OptionLeft"@, 58, KeyCategory::ModifierKeys).with_alias("Left Option"@),
        KeyCodeView::plain("OptionRight"@, 61, KeyCategory::ModifierKeys)
            .with_alias("Right Option"@),
        KeyCodeView::plain("Control"@, 59, KeyCategory::ModifierKeys)
            .with_alias("Ctrl"@)
            .with_alias("⌃"@),
        KeyCodeView::plain("ControlLeft"@, 59, KeyCategory::ModifierKeys)
            .with_alias("Left Control"@),
        KeyCodeView::plain("ControlRight"@, 62, KeyCategory::ModifierKeys)
            .with_alias("Right Control"@),
        KeyCodeView::plain("CapsLock"@, 57, KeyCategory::ModifierKeys).with_alias("Caps Lock"@),
        KeyCodeView::plain("Fn"@, 63, KeyCategory::ModifierKeys).with_alias("Function"@),
    ]
}

/// The navigation keys.
#[verifier::opaque]
pub open spec fn catalog_navigation() -> Seq<KeyCodeView> {
    seq![
        KeyCodeView::plain("LeftArrow"@, 123, KeyCategory::NavigationKeys)
            .with_alias("Left"@)
            .with_alias("←"@),
        KeyCodeView::plain("RightArrow"@, 124, KeyCategory::NavigationKeys)
            .with_alias("Right"@)
            .with_alias("→"@),
        KeyCodeView::plain("UpArrow"@, 126, KeyCategory::NavigationKeys)
            .with_alias("Up"@)
            .with_alias("↑"@),
        KeyCodeView::plain("DownArrow"@, 125, KeyCategory::NavigationKeys)
            .with_alias("Down"@)
            .with_alias("↓"@),
        KeyCodeView::plain("PageUp"@, 116, KeyCategory::NavigationKeys).with_alias("Page Up"@),
        KeyCodeView::plain("PageDown"@, 121, KeyCategory::NavigationKeys).with_alias("Page Down"@),
        KeyCodeView::plain("Home"@, 115, KeyCategory::NavigationKeys),
        KeyCodeView::plain("End"@, 119, KeyCategory::NavigationKeys),
    ]
}

/// The special keys: space, return, tab and the like.
#[verifier::opaque]
pub open spec fn catalog_special() -> Seq<KeyCodeView> {
    seq![
        KeyCodeView::plain("Space"@, 49, KeyCategory::SpecialKeys)
            .with_alias("Spacebar"@)
            .with_alias("Space Bar"@),
        KeyCodeView::plain("Return"@, 36, KeyCategory::SpecialKeys)
            .with_alias("Enter"@)
            .with_alias("↵"@),
        KeyCodeView::plain("Tab"@, 48, KeyCategory::SpecialKeys).with_alias("⇥"@),
        KeyCodeView::plain("Delete"@, 51, KeyCategory::SpecialKeys)
            .with_alias("Backspace"@)
            .with_alias("Del"@),
        KeyCodeView::plain("ForwardDelete"@, 117, KeyCategory::SpecialKeys)
            .with_alias("Forward Delete"@),
        KeyCodeView::plain("Escape"@, 53, KeyCategory::SpecialKeys).with_alias("Esc"@),
        KeyCodeView::plain("Clear"@, 71, KeyCategory::SpecialKeys),
        KeyCodeView::plain("Help"@, 114, KeyCategory::SpecialKeys),
        KeyCodeView::plain("Mute"@, 74, KeyCategory::SpecialKeys),
        KeyCodeView::plain("VolumeUp"@, 72, KeyCategory::SpecialKeys).with_alias("Volume Up"@),
        KeyCodeView::plain("VolumeDown"@, 73, KeyCategory::SpecialKeys).with_alias("Volume Down"@),
    ]
}

/// The keys of the numeric keypad.
#[verifier::opaque]
pub open spec fn catalog_numpad() -> Seq<KeyCodeView> {
    seq![
        KeyCodeView::plain("Numpad0"@, 82, KeyCategory::NumpadKeys),
        KeyCodeView::plain("Numpad1"@, 83, KeyCategory::NumpadKeys),
        KeyCodeView::plain("Numpad2"@, 84, KeyCategory::NumpadKeys),
        KeyCodeView::plain("Numpad3"@, 85, KeyCategory::NumpadKeys),
        KeyCodeView::plain("Numpad4"@, 86, KeyCategory::NumpadKeys),
        KeyCodeView::plain("Numpad5"@, 87, KeyCategory::NumpadKeys),
        KeyCodeView::plain("Numpad6"@, 88, KeyCategory::NumpadKeys),
        KeyCodeView::plain("Numpad7"@, 89, KeyCategory::NumpadKeys),
        KeyCodeView::plain("Numpad8"@, 91, KeyCategory::NumpadKeys),
        KeyCodeView::plain("Numpad9"@, 92, KeyCategory::NumpadKeys),
        KeyCodeView::plain("NumpadClear"@, 71, KeyCategory::NumpadKeys),
        KeyCodeView::plain("NumpadDecimal"@, 65, KeyCategory::NumpadKeys),
        KeyCodeView::plain("NumpadDivide"@, 75, KeyCategory::NumpadKeys),
        KeyCodeView::plain("NumpadEnter"@, 76, KeyCategory::NumpadKeys),
        KeyCodeView::plain("NumpadEquals"@, 81, KeyCategory::NumpadKeys),
        KeyCodeView::plain("NumpadMinus"@, 78, KeyCategory::NumpadKeys),
        KeyCodeView::plain("NumpadMultiply"@, 67, KeyCategory::NumpadKeys),
        KeyCodeView::plain("NumpadPlus"@, 69, KeyCategory::NumpadKeys),
    ]
}

/// The punctuation and symbol keys.
#[verifier::opaque]
pub open spec fn catalog_punctuation() -> Seq<KeyCodeView> {
    seq![
        KeyCodeView::plain("Grave"@, 50, KeyCategory::Punctuation)
            .with_alias("`"@)
            .with_alias("~"@),
        KeyCodeView::plain("Minus"@, 27, KeyCategory::Punctuation)
            .with_alias("-"@)
            .with_alias("_"@),
        KeyCodeView::plain("Equal"@, 24, KeyCategory::Punctuation)
            .with_alias("="@)
            .with_alias("+"@),
        KeyCodeView::plain("LeftBracket"@, 33, KeyCategory::Punctuation)
            .with_alias("["@)
            .with_alias("{"@),
        KeyCodeView::plain("RightBracket"@, 30, KeyCategory::Punctuation)
            .with_alias("]"@)
            .with_alias("}"@),
        KeyCodeView::plain("Backslash"@, 42, KeyCategory::Punctuation)
            .with_alias("\\"@)
            .with_alias("|"@),
        KeyCodeView::plain("Semicolon"@, 41, KeyCategory::Punctuation)
            .with_alias(";"@)
            .with_alias(":"@),
        KeyCodeView::plain("Quote"@, 39, KeyCategory::Punctuation)
            .with_alias("'"@)
            .with_alias("\""@),
        KeyCodeView::plain("Comma"@, 43, KeyCategory::Punctuation)
            .with_alias(","@)
            .with_alias("<"@),
        KeyCodeView::plain("Period"@, 47, KeyCategory::Punctuation)
            .with_alias("."@)
            .with_alias(">"@),
        KeyCodeView::plain("Slash"@, 44, KeyCategory::Punctuation)
            .with_alias("/"@)
            .with_alias("?"@),
    ]
}

/// A group of the catalog in its due form: it has `size` keys, each of the
/// category `category` and with a name in ASCII.
pub open spec fn is_group(group: Seq<KeyCodeView>, size: nat, category: KeyCategory) -> bool {
    &&& group.len() == size
    &&& forall|i: int|
        0 <= i < group.len() ==> (#[trigger] group[i]).category == category && is_ascii(
            group[i].name,
        )
}

/// The whole catalog, category by category.
#[verifier::opaque]
pub open spec fn catalog() -> Seq<KeyCodeView> {
    catalog_letters() + catalog_numbers() + catalog_function_keys() + catalog_modifiers()
        + catalog_navigation() + catalog_special() + catalog_numpad() + catalog_punctuation()
}

/// The letter keys A-Z.
pub fn letter_keys() -> (keys: Vec<KeyCode>)
    ensures
        key_views(keys@) == catalog_letters(),
{
    let mut keys: Vec<KeyCode> = Vec::new();
    keys.push(KeyCode::new("A", 0, KeyCategory::Letters));
    keys.push(KeyCode::new("B", 11, KeyCategory::Letters));
    keys.push(KeyCode::new("C", 8, KeyCategory::Letters));
    keys.push(KeyCode::new("D", 2, KeyCategory::Letters));
    keys.push(KeyCode::new("E", 14, KeyCategory::Letters));
    keys.push(KeyCode::new("F", 3, KeyCategory::Letters));
    keys.push(KeyCode::new("G", 5, KeyCategory::Letters));
    keys.push(KeyCode::new("H", 4, KeyCategory::Letters));
    keys.push(KeyCode::new("I", 34, KeyCategory::Letters));
    keys.push(KeyCode::new("J", 38, KeyCategory::Letters));
    keys.push(KeyCode::new("K", 40, KeyCategory::Letters));
    keys.push(KeyCode::new("L", 37, KeyCategory::Letters));
    keys.push(KeyCode::new("M", 46, KeyCategory::Letters));
    keys.push(KeyCode::new("N", 45, KeyCategory::Letters));
    keys.push(KeyCode::new("O", 31, KeyCategory::Letters));
    keys.push(KeyCode::new("P", 35, KeyCategory::Letters));
    keys.push(KeyCode::new("Q", 12, KeyCategory::Letters));
    keys.push(KeyCode::new("R", 15, KeyCategory::Letters));
    keys.push(KeyCode::new("S", 1, KeyCategory::Letters));
    keys.push(KeyCode::new("T", 17, KeyCategory::Letters));
    keys.push(KeyCode::new("U", 32, KeyCategory::Letters));
    keys.push(KeyCode::new("V", 9, KeyCategory::Letters));
    keys.push(KeyCode::new("W", 13, KeyCategory::Letters));
    keys.push(KeyCode::new("X", 7, KeyCategory::Letters));
    keys.push(KeyCode::new("Y", 16, KeyCategory::Letters));
    keys.push(KeyCode::new("Z", 6, KeyCategory::Letters));
    assert(key_views(keys@) =~= catalog_letters()) by {
        reveal(catalog_letters);
    }
    keys
}

/// The number keys 0-9.
pub fn number_keys() -> (keys: Vec<KeyCode>)
    ensures
        key_views(keys@) == catalog_numbers(),
{
    let mut keys: Vec<KeyCode> = Vec::new();
    keys.push(KeyCode::new("0", 29, KeyCategory::Numbers));
    keys.push(KeyCode::new("1", 18, KeyCategory::Numbers));
    keys.push(KeyCode::new("2", 19, KeyCategory::Numbers));
    keys.push(KeyCode::new("3", 20, KeyCategory::Numbers));
    keys.push(KeyCode::new("4", 21, KeyCategory::Numbers));
    keys.push(KeyCode::new("5", 23, KeyCategory::Numbers));
    keys.push(KeyCode::new("6", 22, KeyCategory::Numbers));
    keys.push(KeyCode::new("7", 26, KeyCategory::Numbers));
    keys.push(KeyCode::new("8", 28, KeyCategory::Numbers));
    keys.push(KeyCode::new("9", 25, KeyCategory::Numbers));
    assert(key_views(keys@) =~= catalog_numbers()) by {
        reveal(catalog_numbers);
    }
    keys
}

/// The function keys F1-F20.
pub fn function_keys() -> (keys: Vec<KeyCode>)
    ensures
        key_views(keys@) == catalog_function_keys(),
{
    let mut keys: Vec<KeyCode> = Vec::new();
    keys.push(KeyCode::new("F1", 122, KeyCategory::FunctionKeys));
    keys.push(KeyCode::new("F2", 120, KeyCategory::FunctionKeys));
    keys.push(KeyCode::new("F3", 99, KeyCategory::FunctionKeys));
    keys.push(KeyCode::new("F4", 118, KeyCategory::FunctionKeys));
    keys.push(KeyCode::new("F5", 96, KeyCategory::FunctionKeys));
    keys.push(KeyCode::new("F6", 97, KeyCategory::FunctionKeys));
    keys.push(KeyCode::new("F7", 98, KeyCategory::FunctionKeys));
    keys.push(KeyCode::new("F8", 100, KeyCategory::FunctionKeys));
    keys.push(KeyCode::new("F9", 101, KeyCategory::FunctionKeys));
    keys.push(KeyCode::new("F10", 109, KeyCategory::FunctionKeys));
    keys.push(KeyCode::new("F11", 103, KeyCategory::FunctionKeys));
    keys.push(KeyCode::new("F12", 111, KeyCategory::FunctionKeys));
    keys.push(
        KeyCode::new("F13", 105, KeyCategory::FunctionKeys)
            .with_alias("Keyboard Backlight Down"),
    );
    keys.push(KeyCode::new("F14", 107, KeyCategory::FunctionKeys).with_alias("Brightness Down"));
    keys.push(KeyCode::new("F15", 113, KeyCategory::FunctionKeys).with_alias("Brightness Up"));
    keys.push(
        KeyCode::new("F16", 106, KeyCategory::FunctionKeys)
            .with_alias("Keyboard Backlight Up"),
    );
    keys.push(KeyCode::new("F17", 160, KeyCategory::FunctionKeys).with_alias("Mission Control"));
    keys.push(KeyCode::new("F18", 131, KeyCategory::FunctionKeys).with_alias("Launchpad"));
    keys.push(KeyCode::new("F19", 80, KeyCategory::FunctionKeys));
    keys.push(KeyCode::new("F20", 90, KeyCategory::FunctionKeys));
    assert(key_views(keys@) =~= catalog_function_keys()) by {
        reveal(catalog_function_keys);
    }
    keys
}

/// The modifier keys.
pub fn modifier_keys() -> (keys: Vec<KeyCode>)
    ensures
        key_views(keys@) == catalog_modifiers(),
{
    let mut keys: Vec<KeyCode> = Vec::new();
    keys.push(
        KeyCode::new("Command", 55, KeyCategory::ModifierKeys)
            .with_alias("Cmd")
            .with_alias("⌘"),
    );
    keys.push(KeyCode::new("Shift", 56, KeyCategory::ModifierKeys).with_alias("⇧"));
    keys.push(KeyCode::new("ShiftLeft", 56, KeyCategory::ModifierKeys).with_alias("Left Shift"));
    keys.push(KeyCode::new("ShiftRight", 60, KeyCategory::ModifierKeys).with_alias("Right Shift"));
    keys.push(
        KeyCode::new("Option", 58, KeyCategory::ModifierKeys)
            .with_alias("Opt")
            .with_alias("Alt")
            .with_alias("⌥"),
    );
    keys.push(KeyCode::new("OptionLeft", 58, KeyCategory::ModifierKeys).with_alias("Left Option"));
    keys.push(
        KeyCode::new("OptionRight", 61, KeyCategory::ModifierKeys)
            .with_alias("Right Option"),
    );
    keys.push(
        KeyCode::new("Control", 59, KeyCategory::ModifierKeys)
            .with_alias("Ctrl")
            .with_alias("⌃"),
    );
    keys.push(
        KeyCode::new("ControlLeft", 59, KeyCategory::ModifierKeys)
            .with_alias("Left Control"),
    );
    keys.push(
        KeyCode::new("ControlRight", 62, KeyCategory::ModifierKeys)
            .with_alias("Right Control"),
    );
    keys.push(KeyCode::new("CapsLock", 57, KeyCategory::ModifierKeys).with_alias("Caps Lock"));
    keys.push(KeyCode::new("Fn", 63, KeyCategory::ModifierKeys).with_alias("Function"));
    assert(key_views(keys@) =~= catalog_modifiers()) by {
        reveal(catalog_modifiers);
    }
    keys
}

/// The navigation keys.
pub fn navigation_keys() -> (keys: Vec<KeyCode>)
    ensures
        key_views(keys@) == catalog_navigation(),
{
    let mut keys: Vec<KeyCode> = Vec::new();
    keys.push(
        KeyCode::new("LeftArrow", 123, KeyCategory::NavigationKeys)
            .with_alias("Left")
            .with_alias("←"),
    );
    keys.push(
        KeyCode::new("RightArrow", 124, KeyCategory::NavigationKeys)
            .with_alias("Right")
            .with_alias("→"),
    );
    keys.push(
        KeyCode::new("UpArrow", 126, KeyCategory::NavigationKeys)
            .with_alias("Up")
            .with_alias("↑"),
    );
    keys.push(
        KeyCode::new("DownArrow", 125, KeyCategory::NavigationKeys)
            .with_alias("Down")
            .with_alias("↓"),
    );
    keys.push(KeyCode::new("PageUp", 116, KeyCategory::NavigationKeys).with_alias("Page Up"));
    keys.push(KeyCode::new("PageDown", 121, KeyCategory::NavigationKeys).with_alias("Page Down"));
    keys.push(KeyCode::new("Home", 115, KeyCategory::NavigationKeys));
    keys.push(KeyCode::new("End", 119, KeyCategory::NavigationKeys));
    assert(key_views(keys@) =~= catalog_navigation()) by {
        reveal(catalog_navigation);
    }
    keys
}

/// The special keys: space, return, tab and the like.
pub fn special_keys() -> (keys: Vec<KeyCode>)
    ensures
        key_views(keys@) == catalog_special(),
{
    let mut keys: Vec<KeyCode> = Vec::new();
    keys.push(
        KeyCode::new("Space", 49, KeyCategory::SpecialKeys)
            .with_alias("Spacebar")
            .with_alias("Space Bar"),
    );
    keys.push(
        KeyCode::new("Return", 36, KeyCategory::SpecialKeys)
            .with_alias("Enter")
            .with_alias("↵"),
    );
    keys.push(KeyCode::new("Tab", 48, KeyCategory::SpecialKeys).with_alias("⇥"));
    keys.push(
        KeyCode::new("Delete", 51, KeyCategory::SpecialKeys)
            .with_alias("Backspace")
            .with_alias("Del"),
    );
    keys.push(
        KeyCode::new("ForwardDelete", 117, KeyCategory::SpecialKeys)
            .with_alias("Forward Delete"),
    );
    keys.push(KeyCode::new("Escape", 53, KeyCategory::SpecialKeys).with_alias("Esc"));
    keys.push(KeyCode::new("Clear", 71, KeyCategory::SpecialKeys));
    keys.push(KeyCode::new("Help", 114, KeyCategory::SpecialKeys));
    keys.push(KeyCode::new("Mute", 74, KeyCategory::SpecialKeys));
    keys.push(KeyCode::new("VolumeUp", 72, KeyCategory::SpecialKeys).with_alias("Volume Up"));
    keys.push(KeyCode::new("VolumeDown", 73, KeyCategory::SpecialKeys).with_alias("Volume Down"));
    assert(key_views(keys@) =~= catalog_special()) by {
        reveal(catalog_special);
    }
    keys
}

/// The keys of the numeric keypad.
pub fn numpad_keys() -> (keys: Vec<KeyCode>)
    ensures
        key_views(keys@) == catalog_numpad(),
{
    let mut keys: Vec<KeyCode> = Vec::new();
    keys.push(KeyCode::new("Numpad0", 82, KeyCategory::NumpadKeys));
    keys.push(KeyCode::new("Numpad1", 83, KeyCategory::NumpadKeys));
    keys.push(KeyCode::new("Numpad2", 84, KeyCategory::NumpadKeys));
    keys.push(KeyCode::new("Numpad3", 85, KeyCategory::NumpadKeys));
    keys.push(KeyCode::new("Numpad4", 86, KeyCategory::NumpadKeys));
    keys.push(KeyCode::new("Numpad5", 87, KeyCategory::NumpadKeys));
    keys.push(KeyCode::new("Numpad6", 88, KeyCategory::NumpadKeys));
    keys.push(KeyCode::new("Numpad7", 89, KeyCategory::NumpadKeys));
    keys.push(KeyCode::new("Numpad8", 91, KeyCategory::NumpadKeys));
    keys.push(KeyCode::new("Numpad9", 92, KeyCategory::NumpadKeys));
    keys.push(KeyCode::new("NumpadClear", 71, KeyCategory::NumpadKeys));
    keys.push(KeyCode::new("NumpadDecimal", 65, KeyCategory::NumpadKeys));
    keys.push(KeyCode::new("NumpadDivide", 75, KeyCategory::NumpadKeys));
    keys.push(KeyCode::new("NumpadEnter", 76, KeyCategory::NumpadKeys));
    keys.push(KeyCode::new("NumpadEquals", 81, KeyCategory::NumpadKeys));
    keys.push(KeyCode::new("NumpadMinus", 78, KeyCategory::NumpadKeys));
    keys.push(KeyCode::new("NumpadMultiply", 67, KeyCategory::NumpadKeys));
    keys.push(KeyCode::new("NumpadPlus", 69, KeyCategory::NumpadKeys));
    assert(key_views(keys@) =~= catalog_numpad()) by {
        reveal(catalog_numpad);
    }
    keys
}

/// The punctuation and symbol keys.
pub fn punctuation_keys() -> (keys: Vec<KeyCode>)
    ensures
        key_views(keys@) == catalog_punctuation(),
{
    let mut keys: Vec<KeyCode> = Vec::new();
    keys.push(KeyCode::new("Grave", 50, KeyCategory::Punctuation).with_alias("`").with_alias("~"));
    keys.push(KeyCode::new("Minus", 27, KeyCategory::Punctuation).with_alias("-").with_alias("_"));
    keys.push(KeyCode::new("Equal", 24, KeyCategory::Punctuation).with_alias("=").with_alias("+"));
    keys.push(
        KeyCode::new("LeftBracket", 33, KeyCategory::Punctuation)
            .with_alias("[")
            .with_alias("{"),
    );
    keys.push(
        KeyCode::new("RightBracket", 30, KeyCategory::Punctuation)
            .with_alias("]")
            .with_alias("}"),
    );
    keys.push(
        KeyCode::new("Backslash", 42, KeyCategory::Punctuation)
            .with_alias("\\")
            .with_alias("|"),
    );
    keys.push(
        KeyCode::new("Semicolon", 41, KeyCategory::Punctuation)
            .with_alias(";")
            .with_alias(":"),
    );
    keys.push(KeyCode::new("Quote", 39, KeyCategory::Punctuation).with_alias("'").with_alias("\""));
    keys.push(KeyCode::new("Comma", 43, KeyCategory::Punctuation).with_alias(",").with_alias("<"));
    keys.push(KeyCode::new("Period", 47, KeyCategory::Punctuation).with_alias(".").with_alias(">"));
    keys.push(KeyCode::new("Slash", 44, KeyCategory::Punctuation).with_alias("/").with_alias("?"));
    assert(key_views(keys@) =~= catalog_punctuation()) by {
        reveal(catalog_punctuation);
    }
    keys
}

/// The group of the letter keys is in its due form.
proof fn lemma_letter_group()
    ensures
        is_group(catalog_letters(), 26, KeyCategory::Letters),
{
    reveal(catalog_letters);
    reveal_strlit("A");
    reveal_strlit("B");
    reveal_strlit("C");
    reveal_strlit("D");
    reveal_strlit("E");
    reveal_strlit("F");
    reveal_strlit("G");
    reveal_strlit("H");
    reveal_strlit("I");
    reveal_strlit("J");
    reveal_strlit("K");
    reveal_strlit("L");
    reveal_strlit("M");
    reveal_strlit("N");
    reveal_strlit("O");
    reveal_strlit("P");
    reveal_strlit("Q");
    reveal_strlit("R");
    reveal_strlit("S");
    reveal_strlit("T");
    reveal_strlit("U");
    reveal_strlit("V");
    reveal_strlit("W");
    reveal_strlit("X");
    reveal_strlit("Y");
    reveal_strlit("Z");
    assert(is_ascii("A"@));
    assert(is_ascii("B"@));
    assert(is_ascii("C"@));
    assert(is_ascii("D"@));
    assert(is_ascii("E"@));
    assert(is_ascii("F"@));
    assert(is_ascii("G"@));
    assert(is_ascii("H"@));
    assert(is_ascii("I"@));
    assert(is_ascii("J"@));
    assert(is_ascii("K"@));
    assert(is_ascii("L"@));
    assert(is_ascii("M"@));
    assert(is_ascii("N"@));
    assert(is_ascii("O"@));
    assert(is_ascii("P"@));
    assert(is_ascii("Q"@));
    assert(is_ascii("R"@));
    assert(is_ascii("S"@));
    assert(is_ascii("T"@));
    assert(is_ascii("U"@));
    assert(is_ascii("V"@));
    assert(is_ascii("W"@));
    assert(is_ascii("X"@));
    assert(is_ascii("Y"@));
    assert(is_ascii("Z"@));
}

/// The group of the number keys is in its due form.
proof fn lemma_number_group()
    ensures
        is_group(catalog_numbers(), 10, KeyCategory::Numbers),
{
    reveal(catalog_numbers);
    reveal_strlit("0");
    reveal_strlit("1");
    reveal_strlit("2");
    reveal_strlit("3");
    reveal_strlit("4");
    reveal_strlit("5");
    reveal_strlit("6");
    reveal_strlit("7");
    reveal_strlit("8");
    reveal_strlit("9");
    assert(is_ascii("0"@));
    assert(is_ascii("1"@));
    assert(is_ascii("2"@));
    assert(is_ascii("3"@));
    assert(is_ascii("4"@));
    assert(is_ascii("5"@));
    assert(is_ascii("6"@));
    assert(is_ascii("7"@));
    assert(is_ascii("8"@));
    assert(is_ascii("9"@));
}

/// The group of the function keys is in its due form.
proof fn lemma_function_group()
    ensures
        is_group(catalog_function_keys(), 20, KeyCategory::FunctionKeys),
{
    reveal(catalog_function_keys);
    reveal_strlit("F1");
    reveal_strlit("F2");
    reveal_strlit("F3");
    reveal_strlit("F4");
    reveal_strlit("F5");
    reveal_strlit("F6");
    reveal_strlit("F7");
    reveal_strlit("F8");
    reveal_strlit("F9");
    reveal_strlit("F10");
    reveal_strlit("F11");
    reveal_strlit("F12");
    reveal_strlit("F13");
    reveal_strlit("F14");
    reveal_strlit("F15");
    reveal_strlit("F16");
    reveal_strlit("F17");
    reveal_strlit("F18");
    reveal_strlit("F19");
    reveal_strlit("F20");
    assert(is_ascii("F1"@));
    assert(is_ascii("F2"@));
    assert(is_ascii("F3"@));
    assert(is_ascii("F4"@));
    assert(is_ascii("F5"@));
    assert(is_ascii("F6"@));
    assert(is_ascii("F7"@));
    assert(is_ascii("F8"@));
    assert(is_ascii("F9"@));
    assert(is_ascii("F10"@));
    assert(is_ascii("F11"@));
    assert(is_ascii("F12"@));
    assert(is_ascii("F13"@));
    assert(is_ascii("F14"@));
    assert(is_ascii("F15"@));
    assert(is_ascii("F16"@));
    assert(is_ascii("F17"@));
    assert(is_ascii("F18"@));
    assert(is_ascii("F19"@));
    assert(is_ascii("F20"@));
}

/// The group of the modifier keys is in its due form.
proof fn lemma_modifier_group()
    ensures
        is_group(catalog_modifiers(), 12, KeyCategory::ModifierKeys),
{
    reveal(catalog_modifiers);
    reveal_strlit("Command");
    reveal_strlit("Shift");
    reveal_strlit("ShiftLeft");
    reveal_strlit("ShiftRight");
    reveal_strlit("Option");
    reveal_strlit("OptionLeft");
    reveal_strlit("OptionRight");
    reveal_strlit("Control");
    reveal_strlit("ControlLeft");
    reveal_strlit("ControlRight");
    reveal_strlit("CapsLock");
    reveal_strlit("Fn");
    assert(is_ascii("Command"@));
    assert(is_ascii("Shift"@));
    assert(is_ascii("ShiftLeft"@));
    assert(is_ascii("ShiftRight"@));
    assert(is_ascii("Option"@));
    assert(is_ascii("OptionLeft"@));
    assert(is_ascii("OptionRight"@));
    assert(is_ascii("Control"@));
    assert(is_ascii("ControlLeft"@));
    assert(is_ascii("ControlRight"@));
    assert(is_ascii("CapsLock"@));
    assert(is_ascii("Fn"@));
}

/// The group of the navigation keys is in its due form.
proof fn lemma_navigation_group()
    ensures
        is_group(catalog_navigation(), 8, KeyCategory::NavigationKeys),
{
    reveal(catalog_navigation);
    reveal_strlit("LeftArrow");
    reveal_strlit("RightArrow");
    reveal_strlit("UpArrow");
    reveal_strlit("DownArrow");
    reveal_strlit("PageUp");
    reveal_strlit("PageDown");
    reveal_strlit("Home");
    reveal_strlit("End");
    assert(is_ascii("LeftArrow"@));
    assert(is_ascii("RightArrow"@));
    assert(is_ascii("UpArrow"@));
    assert(is_ascii("DownArrow"@));
    assert(is_ascii("PageUp"@));
    assert(is_ascii("PageDown"@));
    assert(is_ascii("Home"@));
    assert(is_ascii("End"@));
}

/// The group of the special keys is in its due form.
proof fn lemma_special_group()
    ensures
        is_group(catalog_special(), 11, KeyCategory::SpecialKeys),
{
    reveal(catalog_special);
    reveal_strlit("Space");
    reveal_strlit("Return");
    reveal_strlit("Tab");
    reveal_strlit("Delete");
    reveal_strlit("ForwardDelete");
    reveal_strlit("Escape");
    reveal_strlit("Clear");
    reveal_strlit("Help");
    reveal_strlit("Mute");
    reveal_strlit("VolumeUp");
    reveal_strlit("VolumeDown");
    assert(is_ascii("Space"@));
    assert(is_ascii("Return"@));
    assert(is_ascii("Tab"@));
    assert(is_ascii("Delete"@));
    assert(is_ascii("ForwardDelete"@));
    assert(is_ascii("Escape"@));
    assert(is_ascii("Clear"@));
    assert(is_ascii("Help"@));
    assert(is_ascii("Mute"@));
    assert(is_ascii("VolumeUp"@));
    assert(is_ascii("VolumeDown"@));
}

/// The group of the keypad keys is in its due form.
proof fn lemma_numpad_group()
    ensures
        is_group(catalog_numpad(), 18, KeyCategory::NumpadKeys),
{
    reveal(catalog_numpad);
    reveal_strlit("Numpad0");
    reveal_strlit("Numpad1");
    reveal_strlit("Numpad2");
    reveal_strlit("Numpad3");
    reveal_strlit("Numpad4");
    reveal_strlit("Numpad5");
    reveal_strlit("Numpad6");
    reveal_strlit("Numpad7");
    reveal_strlit("Numpad8");
    reveal_strlit("Numpad9");
    reveal_strlit("NumpadClear");
    reveal_strlit("NumpadDecimal");
    reveal_strlit("NumpadDivide");
    reveal_strlit("NumpadEnter");
    reveal_strlit("NumpadEquals");
    reveal_strlit("NumpadMinus");
    reveal_strlit("NumpadMultiply");
    reveal_strlit("NumpadPlus");
    assert(is_ascii("Numpad0"@));
    assert(is_ascii("Numpad1"@));
    assert(is_ascii("Numpad2"@));
    assert(is_ascii("Numpad3"@));
    assert(is_ascii("Numpad4"@));
    assert(is_ascii("Numpad5"@));
    assert(is_ascii("Numpad6"@));
    assert(is_ascii("Numpad7"@));
    assert(is_ascii("Numpad8"@));
    assert(is_ascii("Numpad9"@));
    assert(is_ascii("NumpadClear"@));
    assert(is_ascii("NumpadDecimal"@));
    assert(is_ascii("NumpadDivide"@));
    assert(is_ascii("NumpadEnter"@));
    assert(is_ascii("NumpadEquals"@));
    assert(is_ascii("NumpadMinus"@));
    assert(is_ascii("NumpadMultiply"@));
    assert(is_ascii("NumpadPlus"@));
}

/// The group of the punctuation keys is in its due form.
proof fn lemma_punctuation_group()
    ensures
        is_group(catalog_punctuation(), 11, KeyCategory::Punctuation),
{
    reveal(catalog_punctuation);
    reveal_strlit("Grave");
    reveal_strlit("Minus");
    reveal_strlit("Equal");
    reveal_strlit("LeftBracket");
    reveal_strlit("RightBracket");
    reveal_strlit("Backslash");
    reveal_strlit("Semicolon");
    reveal_strlit("Quote");
    reveal_strlit("Comma");
    reveal_strlit("Period");
    reveal_strlit("Slash");
    assert(is_ascii("Grave"@));
    assert(is_ascii("Minus"@));
    assert(is_ascii("Equal"@));
    assert(is_ascii("LeftBracket"@));
    assert(is_ascii("RightBracket"@));
    assert(is_ascii("Backslash"@));
    assert(is_ascii("Semicolon"@));
    assert(is_ascii("Quote"@));
    assert(is_ascii("Comma"@));
    assert(is_ascii("Period"@));
    assert(is_ascii("Slash"@));
}

/// The groups of the catalog: how many keys each has, that each key is of
/// the category of its group, and that the name of each is ASCII.
pub proof fn lemma_catalog_groups()
    ensures
        is_group(catalog_letters(), 26, KeyCategory::Letters),
        is_group(catalog_numbers(), 10, KeyCategory::Numbers),
        is_group(catalog_function_keys(), 20, KeyCategory::FunctionKeys),
        is_group(catalog_modifiers(), 12, KeyCategory::ModifierKeys),
        is_group(catalog_navigation(), 8, KeyCategory::NavigationKeys),
        is_group(catalog_special(), 11, KeyCategory::SpecialKeys),
        is_group(catalog_numpad(), 18, KeyCategory::NumpadKeys),
        is_group(catalog_punctuation(), 11, KeyCategory::Punctuation),
{
    lemma_letter_group();
    lemma_number_group();
    lemma_function_group();
    lemma_modifier_group();
    lemma_navigation_group();
    lemma_special_group();
    lemma_numpad_group();
    lemma_punctuation_group();
}

/// The catalog has 116 keys, and the name of each is ASCII: so every name
/// finds its key in lower case and in upper case as well.
pub proof fn lemma_catalog_names_ascii()
    ensures
        catalog().len() == 116,
        forall|i: int| 0 <= i < catalog().len() ==> is_ascii((#[trigger] catalog()[i]).name),
{
    reveal(catalog);
    lemma_catalog_groups();
}

} // verus!
