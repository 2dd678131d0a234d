//! Shortcut strings such as `Cmd+Shift+S` or `⌘⇧S`: how they are cut into
//! tokens, and how the tokens make a key combination.

use vstd::prelude::*;

use crate::keycode::catalog::key_views;
use crate::keycode::database::KeyDatabase;
use crate::keycode::model::resolve;
use crate::keycode::types::{KeyCategory, KeyCode, KeyCodeView};
use crate::text::{chars_of, push_char, same_text, string_of, string_views};

verus! {

/// A keyboard shortcut: modifier keys and one main key.
#[derive(Debug, PartialEq)]
pub struct KeyCombination {
    /// Modifier keys in the combination, in the order in which they were given
    pub modifiers: Vec<KeyCode>,
    /// The main key, which is no modifier
    pub key: KeyCode,
}

/// What a key combination is, as plain values.
pub struct KeyCombinationView {
    pub modifiers: Seq<KeyCodeView>,
    pub key: KeyCodeView,
}

impl View for KeyCombination {
    type V = KeyCombinationView;

    open spec fn view(&self) -> KeyCombinationView {
        KeyCombinationView { modifiers: key_views(self.modifiers@), key: self.key@ }
    }
}

impl Clone for KeyCombination {
    fn clone(&self) -> (combo: KeyCombination)
        ensures
            combo@ == self@,
    {
        let mut modifiers: Vec<KeyCode> = Vec::new();
        let mut m: usize = 0;
        while m < self.modifiers.len()
            invariant
                m <= self.modifiers.len(),
                modifiers@.len() == m,
                forall|k: int| 0 <= k < m ==> (#[trigger] modifiers@[k])@ == self.modifiers@[k]@,
            decreases self.modifiers.len() - m,
        {
            modifiers.push(self.modifiers[m].clone());
            m += 1;
        }
        assert(key_views(modifiers@) =~= key_views(self.modifiers@));
        KeyCombination { modifiers, key: self.key.clone() }
    }
}

/// Why a shortcut string is no key combination.
#[derive(Debug)]
pub enum ParseError {
    /// The string is empty
    EmptyShortcut,
    /// A token names no key
    UnknownKey(String),
    /// More than one key that is no modifier
    MultipleMainKeys,
    /// No key but modifiers
    NoMainKey,
    /// Kept for input that cannot be cut into tokens; no parse returns it
    InvalidFormat,
}

/// What a parse error is, as plain values.
pub enum ParseErrorView {
    EmptyShortcut,
    UnknownKey(Seq<char>),
    MultipleMainKeys,
    NoMainKey,
    InvalidFormat,
}

impl View for ParseError {
    type V = ParseErrorView;

    open spec fn view(&self) -> ParseErrorView {
        match self {
            ParseError::EmptyShortcut => ParseErrorView::EmptyShortcut,
            ParseError::UnknownKey(token) => ParseErrorView::UnknownKey(token@),
            ParseError::MultipleMainKeys => ParseErrorView::MultipleMainKeys,
            ParseError::NoMainKey => ParseErrorView::NoMainKey,
            ParseError::InvalidFormat => ParseErrorView::InvalidFormat,
        }
    }
}

/// `+` and `-` part the tokens of a shortcut and belong to none.
pub open spec fn is_separator(c: char) -> bool {
    c == '+' || c == '-'
}

/// The glyphs of Command, Control, Option and Shift: each is a token by
/// itself, wherever it stands.
pub open spec fn is_glyph(c: char) -> bool {
    c == '⌘' || c == '⌃' || c == '⌥' || c == '⇧'
}

/// The token that the characters gathered so far make, as a list: none where
/// nothing was gathered.
pub open spec fn flushed(current: Seq<char>) -> Seq<Seq<char>> {
    if current.len() == 0 {
        Seq::empty()
    } else {
        seq![current]
    }
}

/// The tokens of `text[from..]`, read left to right with `current` already
/// gathered for the token that is open.
pub open spec fn scan(text: Seq<char>, from: int, current: Seq<char>) -> Seq<Seq<char>>
    decreases text.len() - from,
{
    if from < 0 || from >= text.len() {
        flushed(current)
    } else if is_separator(text[from]) {
        flushed(current) + scan(text, from + 1, Seq::empty())
    } else if is_glyph(text[from]) {
        flushed(current) + seq![seq![text[from]]] + scan(text, from + 1, Seq::empty())
    } else {
        scan(text, from + 1, current.push(text[from]))
    }
}

/// The tokens of a shortcut string.
pub open spec fn tokens(text: Seq<char>) -> Seq<Seq<char>> {
    scan(text, 0, Seq::empty())
}

/// A token in its due form: it is not empty, holds no separator, and holds
/// a glyph only where it is that glyph alone.
pub open spec fn well_cut(token: Seq<char>) -> bool {
    &&& token.len() > 0
    &&& forall|i: int| 0 <= i < token.len() ==> !is_separator(#[trigger] token[i])
    &&& forall|i: int| 0 <= i < token.len() && is_glyph(#[trigger] token[i]) ==> token.len() == 1
}

/// Every token that a scan gives is in its due form, where the characters
/// gathered before are neither separators nor glyphs.
pub proof fn lemma_scan_well_cut(text: Seq<char>, from: int, current: Seq<char>)
    requires
        0 <= from,
        forall|i: int|
            0 <= i < current.len() ==> !is_separator(#[trigger] current[i]) && !is_glyph(
                current[i],
            ),
    ensures
        forall|t: int|
            0 <= t < scan(text, from, current).len() ==> well_cut(
                #[trigger] scan(text, from, current)[t],
            ),
    decreases text.len() - from,
{
    let empty = Seq::<char>::empty();
    let out = scan(text, from, current);
    let head = flushed(current);
    assert(forall|t: int| 0 <= t < head.len() ==> well_cut(#[trigger] head[t]));
    if from >= text.len() {
        assert(out == head);
    } else if is_separator(text[from]) {
        let rest = scan(text, from + 1, empty);
        lemma_scan_well_cut(text, from + 1, empty);
        assert forall|t: int| 0 <= t < out.len() implies well_cut(#[trigger] out[t]) by {
            if t < head.len() {
                assert(out[t] == head[t]);
            } else {
                assert(out[t] == rest[t - head.len()]);
            }
        }
    } else if is_glyph(text[from]) {
        let rest = scan(text, from + 1, empty);
        lemma_scan_well_cut(text, from + 1, empty);
        assert(well_cut(seq![text[from]]));
        assert forall|t: int| 0 <= t < out.len() implies well_cut(#[trigger] out[t]) by {
            if t < head.len() {
                assert(out[t] == head[t]);
            } else if t == head.len() {
                assert(out[t] == seq![text[from]]);
            } else {
                assert(out[t] == rest[t - head.len() - 1]);
            }
        }
    } else {
        let more = current.push(text[from]);
        assert forall|i: int| 0 <= i < more.len() implies !is_separator(#[trigger] more[i])
            && !is_glyph(more[i]) by {
            if i < current.len() {
                assert(more[i] == current[i]);
            }
        }
        lemma_scan_well_cut(text, from + 1, more);
        assert(out == scan(text, from + 1, more));
    }
}

/// Every token of a shortcut string is in its due form.
pub proof fn lemma_tokens_well_cut(text: Seq<char>)
    ensures
        forall|t: int| 0 <= t < tokens(text).len() ==> well_cut(#[trigger] tokens(text)[t]),
{
    lemma_scan_well_cut(text, 0, Seq::empty());
}

/// The tokens written one after the other.
pub open spec fn joined(toks: Seq<Seq<char>>) -> Seq<char>
    decreases toks.len(),
{
    if toks.len() == 0 {
        Seq::empty()
    } else {
        joined(toks.drop_last()) + toks.last()
    }
}

/// The test "is no separator".
pub open spec fn no_separator() -> spec_fn(char) -> bool {
    |c: char| !is_separator(c)
}

/// Writing two lists of tokens one after the other is writing the one, then
/// the other.
proof fn lemma_joined_add(a: Seq<Seq<char>>, b: Seq<Seq<char>>)
    ensures
        joined(a + b) == joined(a) + joined(b),
    decreases b.len(),
{
    if b.len() == 0 {
        assert(a + b =~= a);
        assert(joined(a) + joined(b) =~= joined(a));
    } else {
        lemma_joined_add(a, b.drop_last());
        assert((a + b).drop_last() =~= a + b.drop_last());
        assert((a + b).last() == b.last());
        assert(joined(a) + (joined(b.drop_last()) + b.last()) =~= (joined(a) + joined(
            b.drop_last(),
        )) + b.last());
    }
}

/// A scan loses nothing but separators: its tokens, written one after the
/// other, are the characters gathered before and the rest of the text
/// without its separators.
pub proof fn lemma_scan_keeps_text(text: Seq<char>, from: int, current: Seq<char>)
    requires
        0 <= from <= text.len(),
    ensures
        joined(scan(text, from, current)) == current + text.skip(from).filter(no_separator()),
    decreases text.len() - from,
{
    let keep = no_separator();
    let empty = Seq::<char>::empty();
    let head = flushed(current);
    assert(joined(head) =~= current) by {
        if current.len() > 0 {
            assert(head.drop_last() =~= Seq::<Seq<char>>::empty());
            assert(joined(head.drop_last()) =~= empty);
        }
    }
    if from >= text.len() {
        assert(text.skip(from) =~= empty);
        assert(text.skip(from).filter(keep) =~= empty) by {
            reveal(Seq::filter);
        }
        assert(current + empty =~= current);
    } else {
        let c = text[from];
        let rest = text.skip(from + 1);
        assert(text.skip(from) =~= seq![c] + rest);
        Seq::filter_distributes_over_add(seq![c], rest, keep);
        assert(seq![c].filter(keep) =~= if is_separator(c) {
            empty
        } else {
            seq![c]
        }) by {
            reveal(Seq::filter);
            assert(seq![c].drop_last() =~= empty);
            assert(seq![c].drop_last().filter(keep) =~= empty);
        }
        if is_separator(c) {
            lemma_scan_keeps_text(text, from + 1, empty);
            lemma_joined_add(head, scan(text, from + 1, empty));
            assert(joined(scan(text, from, current)) =~= current + text.skip(from).filter(keep));
        } else if is_glyph(c) {
            let one = seq![seq![c]];
            lemma_scan_keeps_text(text, from + 1, empty);
            lemma_joined_add(head, one);
            lemma_joined_add(head + one, scan(text, from + 1, empty));
            assert(joined(one) =~= seq![c]) by {
                assert(one.drop_last() =~= Seq::<Seq<char>>::empty());
                assert(joined(one.drop_last()) =~= empty);
            }
            assert(joined(scan(text, from, current)) =~= current + text.skip(from).filter(keep));
        } else {
            lemma_scan_keeps_text(text, from + 1, current.push(c));
            assert(joined(scan(text, from, current)) =~= current + text.skip(from).filter(keep));
        }
    }
}

/// The tokens of a shortcut string, written one after the other, are the
/// string without its separators.
pub proof fn lemma_tokens_keep_text(text: Seq<char>)
    ensures
        joined(tokens(text)) == text.filter(no_separator()),
{
    lemma_scan_keeps_text(text, 0, Seq::empty());
    assert(text.skip(0) =~= text);
    assert(Seq::<char>::empty() + text.filter(no_separator()) =~= text.filter(no_separator()));
}

/// Two texts are the same but for which separator stands where.
pub open spec fn same_but_separators(a: Seq<char>, b: Seq<char>) -> bool {
    &&& a.len() == b.len()
    &&& forall|i: int|
        0 <= i < a.len() ==> a[i] == b[i] || (is_separator(#[trigger] a[i]) && is_separator(b[i]))
}

/// Scans of two texts that differ in their separators alone give the same
/// tokens.
pub proof fn lemma_scan_separators_alike(a: Seq<char>, b: Seq<char>, from: int, current: Seq<char>)
    requires
        same_but_separators(a, b),
        0 <= from,
    ensures
        scan(a, from, current) == scan(b, from, current),
    decreases a.len() - from,
{
    if from < a.len() {
        let c = a[from];
        assert(c == b[from] || (is_separator(c) && is_separator(b[from])));
        if is_separator(c) {
            lemma_scan_separators_alike(a, b, from + 1, Seq::empty());
        } else if is_glyph(c) {
            lemma_scan_separators_alike(a, b, from + 1, Seq::empty());
        } else {
            lemma_scan_separators_alike(a, b, from + 1, current.push(c));
        }
    }
}

/// `+` and `-` are one to the parser: two shortcut strings that differ in
/// their separators alone mean the same.
pub proof fn lemma_separators_alike(keys: Seq<KeyCodeView>, a: Seq<char>, b: Seq<char>)
    requires
        same_but_separators(a, b),
    ensures
        tokens(a) == tokens(b),
        parsed(keys, a) == parsed(keys, b),
{
    lemma_scan_separators_alike(a, b, 0, Seq::empty());
}

/// One of the modifiers carries this code.
pub open spec fn has_code(modifiers: Seq<KeyCodeView>, code: u16) -> bool {
    exists|m: int| 0 <= m < modifiers.len() && (#[trigger] modifiers[m]).code == code
}

/// What the tokens from `from` on make of the modifiers and the main key
/// found so far. Tokens are taken in their order, and the first that cannot
/// be taken decides the error.
pub open spec fn classify(
    keys: Seq<KeyCodeView>,
    toks: Seq<Seq<char>>,
    from: int,
    modifiers: Seq<KeyCodeView>,
    main: Option<KeyCodeView>,
) -> Result<KeyCombinationView, ParseErrorView>
    decreases toks.len() - from,
{
    if from < 0 || from >= toks.len() {
        match main {
            Some(key) => Ok(KeyCombinationView { modifiers, key }),
            None => Err(ParseErrorView::NoMainKey),
        }
    } else {
        match resolve(keys, toks[from]) {
            None => Err(ParseErrorView::UnknownKey(toks[from])),
            Some(key) => if key.category == KeyCategory::ModifierKeys {
                if has_code(modifiers, key.code) {
                    classify(keys, toks, from + 1, modifiers, main)
                } else {
                    classify(keys, toks, from + 1, modifiers.push(key), main)
                }
            } else if main is Some {
                Err(ParseErrorView::MultipleMainKeys)
            } else {
                classify(keys, toks, from + 1, modifiers, Some(key))
            },
        }
    }
}

/// What a shortcut string means in a list of keys.
pub open spec fn parsed(keys: Seq<KeyCodeView>, text: Seq<char>) -> Result<
    KeyCombinationView,
    ParseErrorView,
> {
    if text.len() == 0 {
        Err(ParseErrorView::EmptyShortcut)
    } else {
        classify(keys, tokens(text), 0, Seq::empty(), None)
    }
}

/// The plain values of the result of a parse.
pub open spec fn outcome_view(outcome: Result<KeyCombination, ParseError>) -> Result<
    KeyCombinationView,
    ParseErrorView,
> {
    match outcome {
        Ok(combo) => Ok(combo@),
        Err(e) => Err(e@),
    }
}

/// Cuts a shortcut string into its tokens.
pub fn split_shortcut(shortcut: &str) -> (parts: Vec<String>)
    ensures
        string_views(parts@) == tokens(shortcut@),
{
    let text = chars_of(shortcut);
    let mut parts: Vec<String> = Vec::new();
    let mut start: usize = 0;
    let mut i: usize = 0;
    assert(string_views(parts@) =~= Seq::empty());
    assert(text@.subrange(0, 0) =~= Seq::empty());
    while i < text.len()
        invariant
            start <= i <= text.len(),
            text@ == shortcut@,
            string_views(parts@) + scan(text@, i as int, text@.subrange(start as int, i as int))
                == tokens(text@),
        decreases text.len() - i,
    {
        let c = text[i];
        let ghost current = text@.subrange(start as int, i as int);
        let ghost before = string_views(parts@);
        if c == '+' || c == '-' || c == '⌘' || c == '⌃' || c == '⌥' || c == '⇧' {
            if start < i {
                parts.push(string_of(&text, start, i));
            }
            assert(string_views(parts@) =~= before + flushed(current));
            if !(c == '+' || c == '-') {
                let ghost flushed_parts = string_views(parts@);
                parts.push(string_of(&text, i, i + 1));
                assert(text@.subrange(i as int, i + 1) =~= seq![c]);
                assert(string_views(parts@) =~= flushed_parts + seq![seq![c]]);
            }
            start = i + 1;
            assert(text@.subrange(start as int, start as int) =~= Seq::empty());
            assert(string_views(parts@) + scan(text@, i + 1, Seq::empty()) =~= before + scan(
                text@,
                i as int,
                current,
            ));
        } else {
            assert(text@.subrange(start as int, i + 1) =~= current.push(c));
        }
        i += 1;
    }
    let ghost before = string_views(parts@);
    if start < i {
        parts.push(string_of(&text, start, i));
    }
    assert(string_views(parts@) =~= before + flushed(text@.subrange(start as int, i as int)));
    parts
}

/// The codes of a combination: those of the modifiers in their order, then
/// that of the main key.
pub open spec fn codes_of(combo: KeyCombinationView) -> Seq<u16> {
    Seq::new(combo.modifiers.len(), |i: int| combo.modifiers[i].code).push(combo.key.code)
}

/// One of the modifiers has this name.
pub open spec fn has_name(modifiers: Seq<KeyCodeView>, name: Seq<char>) -> bool {
    exists|m: int| 0 <= m < modifiers.len() && (#[trigger] modifiers[m]).name == name
}

/// The share of a modifier name in the displayed form: the name and a `+`
/// where a modifier has that name, nothing elsewhere.
pub open spec fn shown(modifiers: Seq<KeyCodeView>, name: Seq<char>) -> Seq<char> {
    if has_name(modifiers, name) {
        name + seq!['+']
    } else {
        Seq::empty()
    }
}

/// The displayed form of a combination: Command, Control, Option and Shift,
/// those that are among the modifiers and in this order whatever theirs
/// was, then the name of the main key, all joined by `+`. Other modifiers
/// are not shown.
pub open spec fn displayed(combo: KeyCombinationView) -> Seq<char> {
    shown(combo.modifiers, "Command"@) + shown(combo.modifiers, "Control"@) + shown(
        combo.modifiers,
        "Option"@,
    ) + shown(combo.modifiers, "Shift"@) + combo.key.name
}

/// The displayed form does not depend on the order of the modifiers: two
/// combinations with the same main key whose modifiers have the same names
/// are displayed alike.
pub proof fn lemma_display_ignores_order(a: KeyCombinationView, b: KeyCombinationView)
    requires
        a.key == b.key,
        forall|name: Seq<char>| has_name(a.modifiers, name) == has_name(b.modifiers, name),
    ensures
        displayed(a) == displayed(b),
{
}

/// The text of a parse error.
pub open spec fn message_of(e: ParseErrorView) -> Seq<char> {
    match e {
        ParseErrorView::EmptyShortcut => "Empty shortcut string"@,
        ParseErrorView::UnknownKey(token) => "Unknown key: "@ + token,
        ParseErrorView::MultipleMainKeys => "Multiple non-modifier keys in shortcut"@,
        ParseErrorView::NoMainKey => "No main key in shortcut (only modifiers)"@,
        ParseErrorView::InvalidFormat => "Invalid shortcut format"@,
    }
}

impl KeyCombinationView {
    /// What holds of every parsed combination: the modifiers are modifier
    /// keys with different codes, and the main key is no modifier.
    pub open spec fn wf(self) -> bool {
        &&& forall|m: int|
            0 <= m < self.modifiers.len() ==> (#[trigger] self.modifiers[m]).category
                == KeyCategory::ModifierKeys
        &&& forall|m: int, n: int|
            0 <= m < n < self.modifiers.len() ==> (#[trigger] self.modifiers[m]).code != (
            #[trigger] self.modifiers[n]).code
        &&& self.key.category != KeyCategory::ModifierKeys
    }
}

impl ParseError {
    /// The text of the error.
    pub fn to_string(&self) -> (text: String)
        ensures
            text@ == message_of(self@),
    {
        match self {
            ParseError::EmptyShortcut => "Empty shortcut string".to_owned(),
            ParseError::UnknownKey(token) => {
                let mut text = "Unknown key: ".to_owned();
                text.append(token.as_str());
                text
            },
            ParseError::MultipleMainKeys => "Multiple non-modifier keys in shortcut".to_owned(),
            ParseError::NoMainKey => "No main key in shortcut (only modifiers)".to_owned(),
            ParseError::InvalidFormat => "Invalid shortcut format".to_owned(),
        }
    }
}

/// Whether one of the modifiers has this name.
fn any_named(modifiers: &Vec<KeyCode>, name: &str) -> (found: bool)
    ensures
        found == has_name(key_views(modifiers@), name@),
{
    let mut m: usize = 0;
    while m < modifiers.len()
        invariant
            m <= modifiers.len(),
            forall|k: int| 0 <= k < m ==> (#[trigger] key_views(modifiers@)[k]).name != name@,
        decreases modifiers.len() - m,
    {
        if same_text(modifiers[m].name.as_str(), name) {
            assert(key_views(modifiers@)[m as int].name == name@);
            return true;
        }
        m += 1;
    }
    false
}

/// Whether one of the modifiers carries this code.
fn any_coded(modifiers: &Vec<KeyCode>, code: u16) -> (found: bool)
    ensures
        found == has_code(key_views(modifiers@), code),
{
    let mut m: usize = 0;
    while m < modifiers.len()
        invariant
            m <= modifiers.len(),
            forall|k: int| 0 <= k < m ==> (#[trigger] key_views(modifiers@)[k]).code != code,
        decreases modifiers.len() - m,
    {
        if modifiers[m].code == code {
            assert(key_views(modifiers@)[m as int].code == code);
            return true;
        }
        m += 1;
    }
    false
}

impl KeyCombination {
    /// The codes of the combination: modifiers in their order, main key
    /// last.
    pub fn to_keycodes(&self) -> (codes: Vec<u16>)
        ensures
            codes@ == codes_of(self@),
    {
        let mut codes: Vec<u16> = Vec::new();
        let mut m: usize = 0;
        while m < self.modifiers.len()
            invariant
                m <= self.modifiers.len(),
                codes@.len() == m,
                forall|k: int| 0 <= k < m ==> codes@[k] == self@.modifiers[k].code,
            decreases self.modifiers.len() - m,
        {
            codes.push(self.modifiers[m].code);
            m += 1;
        }
        codes.push(self.key.code);
        assert(codes@ =~= codes_of(self@));
        codes
    }

    /// The combination for a reader: `Command+Shift+A`.
    pub fn to_string(&self) -> (text: String)
        ensures
            text@ == displayed(self@),
    {
        let mut text = String::new();
        if any_named(&self.modifiers, "Command") {
            text.append("Command");
            push_plus(&mut text);
        }
        assert(text@ =~= shown(self@.modifiers, "Command"@));
        let ghost one = text@;
        if any_named(&self.modifiers, "Control") {
            text.append("Control");
            push_plus(&mut text);
        }
        assert(text@ =~= one + shown(self@.modifiers, "Control"@));
        let ghost two = text@;
        if any_named(&self.modifiers, "Option") {
            text.append("Option");
            push_plus(&mut text);
        }
        assert(text@ =~= two + shown(self@.modifiers, "Option"@));
        let ghost three = text@;
        if any_named(&self.modifiers, "Shift") {
            text.append("Shift");
            push_plus(&mut text);
        }
        assert(text@ =~= three + shown(self@.modifiers, "Shift"@));
        text.append(self.key.name.as_str());
        text
    }
}

/// Appends the `+` that joins the parts of a displayed combination.
fn push_plus(text: &mut String)
    ensures
        final(text)@ == old(text)@ + seq!['+'],
{
    push_char(text, '+');
    assert(text@ =~= old(text)@ + seq!['+']);
}

/// Parses a shortcut string into a key combination, with the keys of `db`.
///
/// `+` and `-` part the tokens; the glyphs `⌘ ⌃ ⌥ ⇧` are tokens by
/// themselves and need no separator. A blank is a character like any other
/// and stays in its token. Each token must name a key. Modifier keys gather
/// in the order given, one for each code; exactly one other key must be
/// there.
pub fn parse_shortcut(db: &KeyDatabase, shortcut: &str) -> (outcome: Result<
    KeyCombination,
    ParseError,
>)
    ensures
        outcome_view(outcome) == parsed(db@, shortcut@),
        outcome matches Ok(combo) ==> combo@.wf(),
        !(outcome matches Err(ParseError::InvalidFormat)),
{
    if shortcut.is_empty() {
        return Err(ParseError::EmptyShortcut);
    }
    let parts = split_shortcut(shortcut);
    let ghost toks = tokens(shortcut@);
    let mut modifiers: Vec<KeyCode> = Vec::new();
    let mut main_key: Option<KeyCode> = None;
    let mut i: usize = 0;
    assert(key_views(modifiers@) =~= Seq::empty());
    while i < parts.len()
        invariant
            i <= parts.len(),
            toks == tokens(shortcut@),
            string_views(parts@) == toks,
            classify(db@, toks, i as int, key_views(modifiers@), main_view(main_key)) == parsed(
                db@,
                shortcut@,
            ),
            (KeyCombinationView {
                modifiers: key_views(modifiers@),
                key: KeyCodeView::plain(Seq::empty(), 0, KeyCategory::Letters),
            }).wf(),
            main_key matches Some(key) ==> key@.category != KeyCategory::ModifierKeys,
        decreases parts.len() - i,
    {
        assert(string_views(parts@)[i as int] == parts@[i as int]@);
        let ghost gathered = key_views(modifiers@);
        match db.lookup(parts[i].as_str()) {
            None => {
                return Err(ParseError::UnknownKey(parts[i].clone()));
            },
            Some(key) => {
                if key.category == KeyCategory::ModifierKeys {
                    if !any_coded(&modifiers, key.code) {
                        modifiers.push(key.clone());
                        assert(key_views(modifiers@) =~= gathered.push(key@));
                    }
                } else {
                    if main_key.is_some() {
                        return Err(ParseError::MultipleMainKeys);
                    }
                    main_key = Some(key.clone());
                }
            },
        }
        i += 1;
    }
    match main_key {
        Some(key) => Ok(KeyCombination { modifiers, key }),
        None => Err(ParseError::NoMainKey),
    }
}

/// Two parses of one shortcut string with one database give the same
/// combination or the same error.
pub proof fn lemma_parse_repeats(
    db: &KeyDatabase,
    shortcut: &str,
    first: Result<KeyCombination, ParseError>,
    second: Result<KeyCombination, ParseError>,
)
    requires
        outcome_view(first) == parsed(db@, shortcut@),
        outcome_view(second) == parsed(db@, shortcut@),
    ensures
        outcome_view(first) == outcome_view(second),
{
}

/// The record of the main key found so far.
pub open spec fn main_view(main: Option<KeyCode>) -> Option<KeyCodeView> {
    match main {
        Some(key) => Some(key@),
        None => None,
    }
}

} // verus!
