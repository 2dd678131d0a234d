//! The secondary functions of F1..F12: what each key does on a current
//! keyboard when it is pressed without Fn, and the query form `F3+` that
//! asks for it.

use vstd::prelude::*;

use crate::text::{chars_of, same_text};

verus! {

/// The secondary function of a function key.
#[derive(Debug, Clone, Copy)]
pub struct SecondaryFunction {
    /// What the function is called
    pub name: &'static str,
    /// The key code that triggers it
    pub keycode: u8,
    /// What it does
    pub description: &'static str,
}

/// What a secondary function is, as plain values.
pub struct SecondaryFunctionView {
    pub name: Seq<char>,
    pub keycode: u8,
    pub description: Seq<char>,
}

impl View for SecondaryFunction {
    type V = SecondaryFunctionView;

    open spec fn view(&self) -> SecondaryFunctionView {
        SecondaryFunctionView {
            name: self.name@,
            keycode: self.keycode,
            description: self.description@,
        }
    }
}

/// A row of the table of secondary functions.
pub open spec fn entry(
    name: Seq<char>,
    keycode: u8,
    description: Seq<char>,
) -> SecondaryFunctionView {
    SecondaryFunctionView { name, keycode, description }
}

/// The secondary function of the key F`number`, for the numbers 1 to 12.
pub open spec fn secondary_of(number: int) -> Option<SecondaryFunctionView> {
    if number == 1 {
        Some(entry("Brightness Down"@, 107, "Decrease display brightness"@))
    } else if number == 2 {
        Some(entry("Brightness Up"@, 113, "Increase display brightness"@))
    } else if number == 3 {
        Some(entry("Mission Control"@, 160, "Show all open windows"@))
    } else if number == 4 {
        Some(entry("Launchpad"@, 131, "Show all apps"@))
    } else if number == 5 {
        Some(entry("Keyboard Illumination Down"@, 105, "Decrease keyboard backlight"@))
    } else if number == 6 {
        Some(entry("Keyboard Illumination Up"@, 106, "Increase keyboard backlight"@))
    } else if number == 7 {
        Some(entry("Previous Track"@, 98, "Skip to previous track"@))
    } else if number == 8 {
        Some(entry("Play/Pause"@, 100, "Play or pause media"@))
    } else if number == 9 {
        Some(entry("Next Track"@, 101, "Skip to next track"@))
    } else if number == 10 {
        Some(entry("Mute"@, 74, "Mute/unmute audio"@))
    } else if number == 11 {
        Some(entry("Volume Down"@, 73, "Decrease volume"@))
    } else if number == 12 {
        Some(entry("Volume Up"@, 72, "Increase volume"@))
    } else {
        None
    }
}

/// The name of the key F`number`, for the numbers 1 to 12; empty elsewhere.
pub open spec fn f_key_name(number: int) -> Seq<char> {
    if number == 1 {
        "F1"@
    } else if number == 2 {
        "F2"@
    } else if number == 3 {
        "F3"@
    } else if number == 4 {
        "F4"@
    } else if number == 5 {
        "F5"@
    } else if number == 6 {
        "F6"@
    } else if number == 7 {
        "F7"@
    } else if number == 8 {
        "F8"@
    } else if number == 9 {
        "F9"@
    } else if number == 10 {
        "F10"@
    } else if number == 11 {
        "F11"@
    } else if number == 12 {
        "F12"@
    } else {
        Seq::empty()
    }
}

/// The number of the function key with this name, for the names `F1` to
/// `F12` as they are written here.
pub open spec fn f_key_number(name: Seq<char>) -> Option<int> {
    if name == "F1"@ {
        Some(1)
    } else if name == "F2"@ {
        Some(2)
    } else if name == "F3"@ {
        Some(3)
    } else if name == "F4"@ {
        Some(4)
    } else if name == "F5"@ {
        Some(5)
    } else if name == "F6"@ {
        Some(6)
    } else if name == "F7"@ {
        Some(7)
    } else if name == "F8"@ {
        Some(8)
    } else if name == "F9"@ {
        Some(9)
    } else if name == "F10"@ {
        Some(10)
    } else if name == "F11"@ {
        Some(11)
    } else if name == "F12"@ {
        Some(12)
    } else {
        None
    }
}

/// The secondary function of the key with this name.
pub open spec fn secondary_named(name: Seq<char>) -> Option<SecondaryFunctionView> {
    match f_key_number(name) {
        Some(number) => secondary_of(number),
        None => None,
    }
}

/// The plain values of an optional secondary function.
pub open spec fn function_view(function: Option<SecondaryFunction>) -> Option<
    SecondaryFunctionView,
> {
    match function {
        Some(f) => Some(f@),
        None => None,
    }
}

/// `c` is one of the digits `0`..`9`.
pub open spec fn is_digit(c: char) -> bool {
    '0' <= c && c <= '9'
}

/// The number that a string of digits writes in base ten.
pub open spec fn decimal(digits: Seq<char>) -> int
    decreases digits.len(),
{
    if digits.len() == 0 {
        0
    } else {
        10 * decimal(digits.drop_last()) + (digits.last() as int - '0' as int)
    }
}

/// The function key that a query asks the secondary function of: the query
/// is `F` or `f`, then digits and nothing but digits that write a number
/// from 1 to 12, then one `+`.
pub open spec fn secondary_query(query: Seq<char>) -> Option<int> {
    let digits = query.subrange(1, query.len() - 1);
    if query.len() >= 3 && query.last() == '+' && (query[0] == 'F' || query[0] == 'f') && (
    forall|i: int| 0 <= i < digits.len() ==> is_digit(#[trigger] digits[i])) && 1 <= decimal(digits)
        <= 12 {
        Some(decimal(digits))
    } else {
        None
    }
}

/// The name of the function key of a number from 1 to 12.
fn f_key(number: u8) -> (name: &'static str)
    requires
        1 <= number <= 12,
    ensures
        name@ == f_key_name(number as int),
{
    if number == 1 {
        "F1"
    } else if number == 2 {
        "F2"
    } else if number == 3 {
        "F3"
    } else if number == 4 {
        "F4"
    } else if number == 5 {
        "F5"
    } else if number == 6 {
        "F6"
    } else if number == 7 {
        "F7"
    } else if number == 8 {
        "F8"
    } else if number == 9 {
        "F9"
    } else if number == 10 {
        "F10"
    } else if number == 11 {
        "F11"
    } else {
        "F12"
    }
}

/// Tells whether a query asks for the secondary function of a function key,
/// as `F3+` and `f3+` do, and returns the name of that key, `F3`.
pub fn is_secondary_function_query(query: &str) -> (key: Option<&'static str>)
    ensures
        match secondary_query(query@) {
            Some(number) => key matches Some(name) && name@ == f_key_name(number),
            None => key is None,
        },
{
    let text = chars_of(query);
    let n = text.len();
    if n < 3 || text[n - 1] != '+' || !(text[0] == 'F' || text[0] == 'f') {
        return None;
    }
    let ghost digits = text@.subrange(1, n - 1);
    let mut value: u8 = 0;
    let mut i: usize = 1;
    assert(digits.take(0) =~= Seq::empty());
    while i < n - 1
        invariant
            text@ == query@,
            3 <= n == text@.len(),
            text@[n - 1] == '+',
            text@[0] == 'F' || text@[0] == 'f',
            1 <= i <= n - 1,
            digits == text@.subrange(1, n - 1),
            forall|k: int| 0 <= k < i - 1 ==> is_digit(#[trigger] digits[k]),
            value == decimal(digits.take(i - 1)),
            value <= 12,
        decreases n - i,
    {
        let c = text[i];
        assert(digits[i - 1] == c);
        if !('0' <= c && c <= '9') {
            assert(!is_digit(digits[i - 1]));
            return None;
        }
        let d: u8 = (c as u32 - '0' as u32) as u8;
        proof {
            assert(digits.take(i as int).drop_last() =~= digits.take(i - 1));
            assert(digits.take(i as int).last() == c);
        }
        if value > 1 || (value == 1 && d > 2) {
            proof {
                if forall|k: int| 0 <= k < digits.len() ==> is_digit(#[trigger] digits[k]) {
                    lemma_decimal_grows(digits, i as int);
                }
            }
            return None;
        }
        value = value * 10 + d;
        i += 1;
    }
    assert(digits.take(n - 2) =~= digits);
    if value < 1 {
        return None;
    }
    Some(f_key(value))
}

/// The row of the table for the key F`number`.
fn secondary(number: u8) -> (function: SecondaryFunction)
    requires
        1 <= number <= 12,
    ensures
        Some(function@) == secondary_of(number as int),
{
    if number == 1 {
        SecondaryFunction {
            name: "Brightness Down",
            keycode: 107,
            description: "Decrease display brightness",
        }
    } else if number == 2 {
        SecondaryFunction {
            name: "Brightness Up",
            keycode: 113,
            description: "Increase display brightness",
        }
    } else if number == 3 {
        SecondaryFunction {
            name: "Mission Control",
            keycode: 160,
            description: "Show all open windows",
        }
    } else if number == 4 {
        SecondaryFunction { name: "Launchpad", keycode: 131, description: "Show all apps" }
    } else if number == 5 {
        SecondaryFunction {
            name: "Keyboard Illumination Down",
            keycode: 105,
            description: "Decrease keyboard backlight",
        }
    } else if number == 6 {
        SecondaryFunction {
            name: "Keyboard Illumination Up",
            keycode: 106,
            description: "Increase keyboard backlight",
        }
    } else if number == 7 {
        SecondaryFunction {
            name: "Previous Track",
            keycode: 98,
            description: "Skip to previous track",
        }
    } else if number == 8 {
        SecondaryFunction { name: "Play/Pause", keycode: 100, description: "Play or pause media" }
    } else if number == 9 {
        SecondaryFunction { name: "Next Track", keycode: 101, description: "Skip to next track" }
    } else if number == 10 {
        SecondaryFunction { name: "Mute", keycode: 74, description: "Mute/unmute audio" }
    } else if number == 11 {
        SecondaryFunction { name: "Volume Down", keycode: 73, description: "Decrease volume" }
    } else {
        SecondaryFunction { name: "Volume Up", keycode: 72, description: "Increase volume" }
    }
}

/// Each of the keys F1 to F12 is found by its name, and has a secondary
/// function: so has every key that a query of the form `F3+` asks for.
pub proof fn lemma_f_key_has_secondary(number: int)
    requires
        1 <= number <= 12,
    ensures
        f_key_number(f_key_name(number)) == Some(number),
        secondary_named(f_key_name(number)) == secondary_of(number),
        secondary_of(number) is Some,
{
    reveal_strlit("F1");
    reveal_strlit("F2");
    reveal_strlit("F3");
    reveal_strlit("F4");
    reveal_strlit("F5");
    reveal_strlit("F6");
    reveal_strlit("F7");
    reveal_strlit("F8");
    reveal_strlit("F9");
    reveal_strlit("F10");
    reveal_strlit("F11");
    reveal_strlit("F12");
    assert("F1"@.len() == 2 && "F1"@[1] == '1');
    assert("F2"@.len() == 2 && "F2"@[1] == '2');
    assert("F3"@.len() == 2 && "F3"@[1] == '3');
    assert("F4"@.len() == 2 && "F4"@[1] == '4');
    assert("F5"@.len() == 2 && "F5"@[1] == '5');
    assert("F6"@.len() == 2 && "F6"@[1] == '6');
    assert("F7"@.len() == 2 && "F7"@[1] == '7');
    assert("F8"@.len() == 2 && "F8"@[1] == '8');
    assert("F9"@.len() == 2 && "F9"@[1] == '9');
    assert("F10"@.len() == 3 && "F10"@[1] == '1' && "F10"@[2] == '0');
    assert("F11"@.len() == 3 && "F11"@[1] == '1' && "F11"@[2] == '1');
    assert("F12"@.len() == 3 && "F12"@[1] == '1' && "F12"@[2] == '2');
}

/// The names of the function keys, number by number.
proof fn lemma_f_key_numbers()
    ensures
        f_key_name(1) == "F1"@,
        f_key_name(2) == "F2"@,
        f_key_name(3) == "F3"@,
        f_key_name(4) == "F4"@,
        f_key_name(5) == "F5"@,
        f_key_name(6) == "F6"@,
        f_key_name(7) == "F7"@,
        f_key_name(8) == "F8"@,
        f_key_name(9) == "F9"@,
        f_key_name(10) == "F10"@,
        f_key_name(11) == "F11"@,
        f_key_name(12) == "F12"@,
{
}

/// The secondary function of a function key, by the name of the key as the
/// table writes it: `F1` to `F12`, with a capital `F`.
pub fn get_secondary_function(f_key: &str) -> (function: Option<SecondaryFunction>)
    ensures
        function_view(function) == secondary_named(f_key@),
{
    let mut number: u8 = 1;
    while number <= 12
        invariant
            1 <= number <= 13,
            forall|n: int| 1 <= n < number ==> #[trigger] f_key_name(n) != f_key@,
        decreases 13 - number,
    {
        if same_text(f_key, self::f_key(number)) {
            proof {
                lemma_f_key_numbers();
            }
            return Some(secondary(number));
        }
        number += 1;
    }
    proof {
        lemma_f_key_numbers();
    }
    None
}

/// A number written by digits does not shrink when more digits follow, once
/// it is above zero; so a prefix above 12 decides.
proof fn lemma_decimal_grows(digits: Seq<char>, upto: int)
    requires
        0 <= upto <= digits.len(),
        forall|k: int| 0 <= k < digits.len() ==> is_digit(#[trigger] digits[k]),
    ensures
        0 <= decimal(digits.take(upto)),
        decimal(digits.take(upto)) <= decimal(digits),
    decreases digits.len() - upto,
{
    lemma_decimal_nonnegative(digits.take(upto));
    if upto < digits.len() {
        lemma_decimal_grows(digits, upto + 1);
        assert(digits.take(upto + 1).drop_last() =~= digits.take(upto));
    } else {
        assert(digits.take(upto) =~= digits);
    }
}

/// Digits write no negative number.
proof fn lemma_decimal_nonnegative(digits: Seq<char>)
    requires
        forall|k: int| 0 <= k < digits.len() ==> is_digit(#[trigger] digits[k]),
    ensures
        0 <= decimal(digits),
    decreases digits.len(),
{
    if digits.len() > 0 {
        lemma_decimal_nonnegative(digits.drop_last());
    }
}

} // verus!
