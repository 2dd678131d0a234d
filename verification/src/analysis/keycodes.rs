//! Key codes by name for a handful of keys, and by the usual short names of
//! the modifier and editing keys.

use vstd::hash_map::StringHashMap;
use vstd::prelude::*;

use crate::text::{chars_of, folded, same_chars, to_lowercase};

verus! {

/// The table of key codes by name.
pub open spec fn keycode_mappings() -> Map<Seq<char>, u16> {
    Map::<Seq<char>, u16>::empty().insert("A"@, 1u16).insert("E"@, 1u16)
}

/// Builds the table of key codes by name.
pub fn create_keycode_mappings() -> (map: StringHashMap<u16>)
    ensures
        map@ == keycode_mappings(),
{
    let mut map: StringHashMap<u16> = StringHashMap::new();
    map.insert("A".to_owned(), 1);
    map.insert("E".to_owned(), 1);
    map
}

/// The code that the table holds for a name, written as the table writes
/// it.
pub fn get_keycode_by_name(name: &str) -> (code: Option<u16>)
    ensures
        code == if keycode_mappings().dom().contains(name@) {
            Some(keycode_mappings()[name@])
        } else {
            None::<u16>
        },
{
    let mappings = create_keycode_mappings();
    match mappings.get(name) {
        Some(code) => Some(*code),
        None => None,
    }
}

/// A blank or a hyphen: what is dropped from a short name before it is
/// compared.
pub open spec fn is_filler(c: char) -> bool {
    c == ' ' || c == '-'
}

/// The test "is no filler".
pub open spec fn no_filler() -> spec_fn(char) -> bool {
    |c: char| !is_filler(c)
}

/// The form in which a short name is compared: case-folded, without blanks
/// and hyphens.
pub open spec fn normalized(alias: Seq<char>) -> Seq<char> {
    folded(alias).filter(no_filler())
}

/// The code of a short name in its compared form.
pub open spec fn alias_code(name: Seq<char>) -> Option<u16> {
    if name == "cmd"@ || name == "command"@ || name == "⌘"@ {
        Some(55u16)
    } else if name == "opt"@ || name == "option"@ || name == "alt"@ || name == "⌥"@ {
        Some(58u16)
    } else if name == "ctrl"@ || name == "control"@ || name == "⌃"@ {
        Some(59u16)
    } else if name == "shift"@ || name == "⇧"@ {
        Some(56u16)
    } else if name == "esc"@ || name == "escape"@ {
        Some(53u16)
    } else if name == "del"@ || name == "delete"@ || name == "backspace"@ {
        Some(51u16)
    } else if name == "enter"@ || name == "return"@ || name == "↵"@ {
        Some(36u16)
    } else if name == "space"@ || name == "spacebar"@ {
        Some(49u16)
    } else {
        None
    }
}

/// Whether the characters are those of the string slice.
fn is_text(chars: &Vec<char>, text: &str) -> (same: bool)
    ensures
        same == (chars@ == text@),
{
    same_chars(chars, &chars_of(text))
}

/// The code of a key by one of its usual short names: `cmd`, `Ctrl`,
/// `space bar`. Case, blanks and hyphens make no difference. Of a key with
/// a left and a right form the code is that of the left one.
pub fn get_keycode_by_alias(alias: &str) -> (code: Option<u16>)
    ensures
        code == alias_code(normalized(alias@)),
{
    let lowered = chars_of(to_lowercase(alias).as_str());
    let ghost keep = no_filler();
    let mut name: Vec<char> = Vec::new();
    let mut i: usize = 0;
    assert(lowered@.take(0) =~= Seq::empty());
    assert(name@ =~= lowered@.take(0).filter(keep)) by {
        reveal(Seq::filter);
    }
    while i < lowered.len()
        invariant
            i <= lowered.len(),
            keep == no_filler(),
            name@ == lowered@.take(i as int).filter(keep),
        decreases lowered.len() - i,
    {
        let c = lowered[i];
        proof {
            assert(lowered@.take(i + 1) =~= lowered@.take(i as int).push(c));
            lowered@.take(i as int).lemma_filter_push(c, keep);
        }
        if !(c == ' ' || c == '-') {
            name.push(c);
        }
        i += 1;
    }
    assert(lowered@.take(i as int) =~= lowered@);

    if is_text(&name, "cmd") || is_text(&name, "command") || is_text(&name, "⌘") {
        Some(55)
    } else if is_text(&name, "opt") || is_text(&name, "option") || is_text(&name, "alt")
        || is_text(&name, "⌥") {
        Some(58)
    } else if is_text(&name, "ctrl") || is_text(&name, "control") || is_text(&name, "⌃") {
        Some(59)
    } else if is_text(&name, "shift") || is_text(&name, "⇧") {
        Some(56)
    } else if is_text(&name, "esc") || is_text(&name, "escape") {
        Some(53)
    } else if is_text(&name, "del") || is_text(&name, "delete") || is_text(&name, "backspace") {
        Some(51)
    } else if is_text(&name, "enter") || is_text(&name, "return") || is_text(&name, "↵") {
        Some(36)
    } else if is_text(&name, "space") || is_text(&name, "spacebar") {
        Some(49)
    } else {
        None
    }
}

} // verus!
