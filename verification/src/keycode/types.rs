//! The key record and the closed set of key categories.

use vstd::prelude::*;

use crate::text::{folded, same_text, string_views, to_lowercase};

verus! {

/// The categories into which the keys of the catalog fall.
#[derive(Debug, Clone, Copy, PartialEq, Eq, Hash, Structural)]
pub enum KeyCategory {
    /// Letter keys A-Z
    Letters,
    /// Number keys 0-9
    Numbers,
    /// Function keys F1-F20
    FunctionKeys,
    /// Modifier keys (Cmd, Shift, Option, Control)
    ModifierKeys,
    /// Navigation keys (arrows, page up/down, home, end)
    NavigationKeys,
    /// Special keys (space, tab, return, delete, escape)
    SpecialKeys,
    /// Numeric keypad keys
    NumpadKeys,
    /// Punctuation and symbol keys
    Punctuation,
}

/// The name of a category, in lower case with `_` between its words.
pub open spec fn category_name(category: KeyCategory) -> Seq<char> {
    match category {
        KeyCategory::Letters => "letters"@,
        KeyCategory::Numbers => "numbers"@,
        KeyCategory::FunctionKeys => "function_keys"@,
        KeyCategory::ModifierKeys => "modifier_keys"@,
        KeyCategory::NavigationKeys => "navigation_keys"@,
        KeyCategory::SpecialKeys => "special_keys"@,
        KeyCategory::NumpadKeys => "numpad_keys"@,
        KeyCategory::Punctuation => "punctuation"@,
    }
}

/// The category with this name, for the names as `category_name` writes
/// them; other strings name no category.
pub open spec fn category_named(name: Seq<char>) -> Option<KeyCategory> {
    if name == "letters"@ {
        Some(KeyCategory::Letters)
    } else if name == "numbers"@ {
        Some(KeyCategory::Numbers)
    } else if name == "function_keys"@ {
        Some(KeyCategory::FunctionKeys)
    } else if name == "modifier_keys"@ {
        Some(KeyCategory::ModifierKeys)
    } else if name == "navigation_keys"@ {
        Some(KeyCategory::NavigationKeys)
    } else if name == "special_keys"@ {
        Some(KeyCategory::SpecialKeys)
    } else if name == "numpad_keys"@ {
        Some(KeyCategory::NumpadKeys)
    } else if name == "punctuation"@ {
        Some(KeyCategory::Punctuation)
    } else {
        None
    }
}

/// What a category holds, in a sentence for readers.
pub open spec fn category_description(category: KeyCategory) -> Seq<char> {
    match category {
        KeyCategory::Letters => "Letter keys A-Z"@,
        KeyCategory::Numbers => "Number keys 0-9"@,
        KeyCategory::FunctionKeys => "Function keys F1-F20"@,
        KeyCategory::ModifierKeys => "Modifier keys (Command, Shift, Option, Control)"@,
        KeyCategory::NavigationKeys => "Navigation keys (arrows, page up/down, home, end)"@,
        KeyCategory::SpecialKeys => "Special keys (space, tab, return, delete, escape)"@,
        KeyCategory::NumpadKeys => "Numeric keypad keys"@,
        KeyCategory::Punctuation => "Punctuation and symbol keys"@,
    }
}

/// Every category is found again by its name.
pub proof fn lemma_category_name_round_trip(category: KeyCategory)
    ensures
        category_named(category_name(category)) == Some(category),
{
    reveal_strlit("letters");
    reveal_strlit("numbers");
    reveal_strlit("function_keys");
    reveal_strlit("modifier_keys");
    reveal_strlit("navigation_keys");
    reveal_strlit("special_keys");
    reveal_strlit("numpad_keys");
    reveal_strlit("punctuation");
    assert("letters"@.len() == 7 && "numbers"@.len() == 7 && "function_keys"@.len() == 13);
    assert("modifier_keys"@.len() == 13 && "navigation_keys"@.len() == 15);
    assert("special_keys"@.len() == 12 && "numpad_keys"@.len() == 11 && "punctuation"@.len() == 11);
    assert("letters"@[0] != "numbers"@[0]);
    assert("function_keys"@[0] != "modifier_keys"@[0]);
    assert("numpad_keys"@[0] != "punctuation"@[0]);
}

impl KeyCategory {
    /// The name of the category, `function_keys` for the function keys.
    pub fn as_str(&self) -> (name: &'static str)
        ensures
            name@ == category_name(*self),
    {
        match self {
            KeyCategory::Letters => "letters",
            KeyCategory::Numbers => "numbers",
            KeyCategory::FunctionKeys => "function_keys",
            KeyCategory::ModifierKeys => "modifier_keys",
            KeyCategory::NavigationKeys => "navigation_keys",
            KeyCategory::SpecialKeys => "special_keys",
            KeyCategory::NumpadKeys => "numpad_keys",
            KeyCategory::Punctuation => "punctuation",
        }
    }

    /// The name of the category as an owned string.
    pub fn to_string(&self) -> (name: String)
        ensures
            name@ == category_name(*self),
    {
        self.as_str().to_owned()
    }

    /// What the category holds, in a sentence for readers.
    pub fn description(&self) -> (text: &'static str)
        ensures
            text@ == category_description(*self),
    {
        match self {
            KeyCategory::Letters => "Letter keys A-Z",
            KeyCategory::Numbers => "Number keys 0-9",
            KeyCategory::FunctionKeys => "Function keys F1-F20",
            KeyCategory::ModifierKeys => "Modifier keys (Command, Shift, Option, Control)",
            KeyCategory::NavigationKeys => "Navigation keys (arrows, page up/down, home, end)",
            KeyCategory::SpecialKeys => "Special keys (space, tab, return, delete, escape)",
            KeyCategory::NumpadKeys => "Numeric keypad keys",
            KeyCategory::Punctuation => "Punctuation and symbol keys",
        }
    }

    /// The category of a name. A string that is not the name of a category,
    /// letter for letter, gives `None`.
    pub fn from_name(name: &str) -> (category: Option<KeyCategory>)
        ensures
            category == category_named(name@),
    {
        if same_text(name, "letters") {
            Some(KeyCategory::Letters)
        } else if same_text(name, "numbers") {
            Some(KeyCategory::Numbers)
        } else if same_text(name, "function_keys") {
            Some(KeyCategory::FunctionKeys)
        } else if same_text(name, "modifier_keys") {
            Some(KeyCategory::ModifierKeys)
        } else if same_text(name, "navigation_keys") {
            Some(KeyCategory::NavigationKeys)
        } else if same_text(name, "special_keys") {
            Some(KeyCategory::SpecialKeys)
        } else if same_text(name, "numpad_keys") {
            Some(KeyCategory::NumpadKeys)
        } else if same_text(name, "punctuation") {
            Some(KeyCategory::Punctuation)
        } else {
            None
        }
    }
}

/// A single keyboard key with its numeric code.
#[derive(Debug, PartialEq)]
pub struct KeyCode {
    /// Display name of the key
    pub name: String,
    /// Numeric key code
    pub code: u16,
    /// Category this key belongs to
    pub category: KeyCategory,
    /// Alternative names for this key, glyphs among them
    pub aliases: Vec<String>,
}

/// What a key record is, as plain values.
pub struct KeyCodeView {
    pub name: Seq<char>,
    pub code: u16,
    pub category: KeyCategory,
    pub aliases: Seq<Seq<char>>,
}

impl KeyCodeView {
    /// The record of a key without aliases.
    pub open spec fn plain(name: Seq<char>, code: u16, category: KeyCategory) -> KeyCodeView {
        KeyCodeView { name, code, category, aliases: Seq::empty() }
    }

    /// The record with one more alias at the end of its list.
    pub open spec fn with_alias(self, alias: Seq<char>) -> KeyCodeView {
        KeyCodeView { aliases: self.aliases.push(alias), ..self }
    }

    /// The record with more aliases at the end of its list.
    pub open spec fn with_aliases(self, aliases: Seq<Seq<char>>) -> KeyCodeView {
        KeyCodeView { aliases: self.aliases + aliases, ..self }
    }

    /// Every string by which the key can be asked for: its name, then its
    /// aliases in their order.
    pub open spec fn labels(self) -> Seq<Seq<char>> {
        seq![self.name] + self.aliases
    }

    /// `query` is, up to case, the name of the key or one of its aliases.
    pub open spec fn answers_to(self, query: Seq<char>) -> bool {
        exists|i: int|
            0 <= i < self.labels().len() && folded(#[trigger] self.labels()[i]) == folded(query)
    }
}

impl View for KeyCode {
    type V = KeyCodeView;

    open spec fn view(&self) -> KeyCodeView {
        KeyCodeView {
            name: self.name@,
            code: self.code,
            category: self.category,
            aliases: string_views(self.aliases@),
        }
    }
}

impl Clone for KeyCode {
    fn clone(&self) -> (key: KeyCode)
        ensures
            key@ == self@,
    {
        let key = KeyCode {
            name: self.name.clone(),
            code: self.code,
            category: self.category,
            aliases: self.aliases.clone(),
        };
        assert(string_views(key.aliases@) =~= string_views(self.aliases@));
        key
    }
}

impl KeyCode {
    /// A key record without aliases.
    pub fn new(name: &str, code: u16, category: KeyCategory) -> (key: KeyCode)
        ensures
            key@ == KeyCodeView::plain(name@, code, category),
    {
        let key = KeyCode { name: name.to_owned(), code, category, aliases: Vec::new() };
        assert(string_views(key.aliases@) =~= Seq::empty());
        key
    }

    /// The record with one more alias at the end of its list.
    pub fn with_alias(self, alias: &str) -> (key: KeyCode)
        ensures
            key@ == self@.with_alias(alias@),
    {
        let mut key = self;
        key.aliases.push(alias.to_owned());
        assert(string_views(key.aliases@) =~= string_views(self.aliases@).push(alias@));
        key
    }

    /// The record with the given aliases added, in their order, at the end of
    /// its list.
    pub fn with_aliases(self, aliases: Vec<String>) -> (key: KeyCode)
        ensures
            key@ == self@.with_aliases(string_views(aliases@)),
    {
        let mut key = self;
        let mut extra = aliases;
        key.aliases.append(&mut extra);
        assert(string_views(key.aliases@) =~= string_views(self.aliases@) + string_views(aliases@));
        key
    }

    /// Whether `query` names this key: it equals, up to case, the name or one
    /// of the aliases.
    pub fn matches(&self, query: &str) -> (hit: bool)
        ensures
            hit == self@.answers_to(query@),
    {
        let wanted = to_lowercase(query);
        let name = to_lowercase(self.name.as_str());
        if name == wanted {
            assert(self@.labels()[0] == self@.name);
            return true;
        }
        let mut i: usize = 0;
        while i < self.aliases.len()
            invariant
                i <= self.aliases.len(),
                wanted@ == folded(query@),
                folded(self@.name) != folded(query@),
                forall|j: int| 0 <= j < i ==> folded(#[trigger] self@.aliases[j]) != folded(query@),
            decreases self.aliases.len() - i,
        {
            let alias = to_lowercase(self.aliases[i].as_str());
            if alias == wanted {
                assert(self@.labels()[i + 1] == self@.aliases[i as int]);
                return true;
            }
            i += 1;
        }
        assert forall|j: int| 0 <= j < self@.labels().len() implies folded(
            #[trigger] self@.labels()[j],
        ) != folded(query@) by {
            if j > 0 {
                assert(self@.labels()[j] == self@.aliases[j - 1]);
            }
        }
        false
    }
}

} // verus!
