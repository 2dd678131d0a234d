//! The four operations that the library offers to a front end: looking a
//! key up, searching the keys, listing the categories, and naming the
//! resources. Each takes and returns plain values; the front end turns them
//! into its own messages.

use vstd::prelude::*;

use crate::keycode::database::KeyDatabase;
use crate::keycode::model::{
    all_category_counts, key_view, listing, name_holding, ref_views, resolve, search_result,
};
use crate::keycode::secondary_functions::{
    f_key_name, get_secondary_function, is_secondary_function_query, lemma_f_key_has_secondary,
    secondary_of, secondary_query, SecondaryFunction, SecondaryFunctionView,
};
use crate::keycode::types::{
    category_description, category_named, KeyCategory, KeyCode, KeyCodeView,
};
use crate::search::fuzzy::{best, hit_views, scored, FuzzySearcher};
use crate::text::{chars_of, folded, has_substring, string_of, to_lowercase};

verus! {

/// How many keys a lookup suggests where it finds none.
pub const SUGGESTION_LIMIT: usize = 5;

/// What a lookup answers.
pub enum LookupAnswer<'a> {
    /// The query asked, as `F3+` does, for the secondary function of a
    /// function key: the name of that key, its own record where the
    /// database has one, and its secondary function.
    SecondaryFunction {
        f_key: &'static str,
        primary: Option<&'a KeyCode>,
        secondary: SecondaryFunction,
    },
    /// The key that the query names.
    Found(&'a KeyCode),
    /// The query names no key; these keys come close to it, best first.
    Suggestions(Vec<(&'a KeyCode, i64)>),
    /// The query names no key, and no suggestions were asked for.
    NotFound,
}

/// What a lookup answers, as plain values.
pub enum LookupAnswerView {
    SecondaryFunction {
        f_key: Seq<char>,
        primary: Option<KeyCodeView>,
        secondary: SecondaryFunctionView,
    },
    Found(KeyCodeView),
    Suggestions(Seq<(KeyCodeView, i64)>),
    NotFound,
}

impl<'a> View for LookupAnswer<'a> {
    type V = LookupAnswerView;

    open spec fn view(&self) -> LookupAnswerView {
        match self {
            LookupAnswer::SecondaryFunction { f_key, primary, secondary } => {
                LookupAnswerView::SecondaryFunction {
                    f_key: f_key@,
                    primary: key_view(*primary),
                    secondary: secondary@,
                }
            },
            LookupAnswer::Found(key) => LookupAnswerView::Found(key@),
            LookupAnswer::Suggestions(hits) => LookupAnswerView::Suggestions(hit_views(hits@)),
            LookupAnswer::NotFound => LookupAnswerView::NotFound,
        }
    }
}

/// The answer to a lookup. A query of the form `F3+` is answered with the
/// function key and its secondary function; any other query with the key
/// that it names; where it names none, with the five best suggestions if
/// `fuzzy` is set, else with nothing.
pub open spec fn lookup_answer(
    keys: Seq<KeyCodeView>,
    name: Seq<char>,
    fuzzy: bool,
) -> LookupAnswerView {
    match secondary_query(name) {
        Some(number) => LookupAnswerView::SecondaryFunction {
            f_key: f_key_name(number),
            primary: resolve(keys, f_key_name(number)),
            secondary: secondary_of(number)->0,
        },
        None => match resolve(keys, name) {
            Some(key) => LookupAnswerView::Found(key),
            None => if fuzzy {
                LookupAnswerView::Suggestions(best(scored(keys, name), SUGGESTION_LIMIT as int))
            } else {
                LookupAnswerView::NotFound
            },
        },
    }
}

/// Looks a key up for a front end.
pub fn lookup_key<'a>(
    db: &'a KeyDatabase,
    searcher: &FuzzySearcher,
    key_name: &str,
    fuzzy: bool,
) -> (answer: LookupAnswer<'a>)
    ensures
        answer@ == lookup_answer(db@, key_name@, fuzzy),
{
    match is_secondary_function_query(key_name) {
        Some(f_key) => {
            proof {
                lemma_f_key_has_secondary(secondary_query(key_name@)->0);
            }
            match get_secondary_function(f_key) {
                Some(secondary) => {
                    return LookupAnswer::SecondaryFunction {
                        f_key,
                        primary: db.lookup(f_key),
                        secondary,
                    };
                },
                None => {},
            }
        },
        None => {},
    }
    match db.lookup(key_name) {
        Some(key) => LookupAnswer::Found(key),
        None => {
            if fuzzy {
                LookupAnswer::Suggestions(searcher.search_keys(db, key_name, SUGGESTION_LIMIT))
            } else {
                LookupAnswer::NotFound
            }
        },
    }
}

/// The text behind an optional string slice.
pub open spec fn text_view(text: Option<&str>) -> Option<Seq<char>> {
    match text {
        Some(s) => Some(s@),
        None => None,
    }
}

/// The keys that a search for a front end returns, or the category name
/// that it rejects. With a category, the keys of that category sorted by
/// name, and of these, with a query, those whose name holds the query up to
/// case. With a query alone, the keys that answer to it or, where none
/// does, those whose name holds it. With neither, all keys.
pub open spec fn found_keys(
    keys: Seq<KeyCodeView>,
    query: Option<Seq<char>>,
    category: Option<Seq<char>>,
) -> Result<Seq<KeyCodeView>, Seq<char>> {
    match category {
        Some(name) => match category_named(name) {
            Some(c) => match query {
                Some(q) => Ok(listing(keys, c).filter(name_holding(q))),
                None => Ok(listing(keys, c)),
            },
            None => Err(name),
        },
        None => match query {
            Some(q) => Ok(search_result(keys, q, true)),
            None => Ok(keys),
        },
    }
}

/// A string that was given as a category and names none.
#[derive(Debug)]
pub struct InvalidCategory {
    /// The string as it was given
    pub name: String,
}

/// The plain values of the result of a search for a front end.
pub open spec fn find_view(found: Result<Vec<&KeyCode>, InvalidCategory>) -> Result<
    Seq<KeyCodeView>,
    Seq<char>,
> {
    match found {
        Ok(keys) => Ok(ref_views(keys@)),
        Err(e) => Err(e.name@),
    }
}

/// Searches the keys for a front end, by query, by category, or by both.
pub fn find_keys<'a>(db: &'a KeyDatabase, query: Option<&str>, category: Option<&str>) -> (found:
    Result<Vec<&'a KeyCode>, InvalidCategory>)
    ensures
        find_view(found) == found_keys(db@, text_view(query), text_view(category)),
{
    match category {
        Some(name) => {
            match KeyCategory::from_name(name) {
                Some(c) => {
                    let listed = db.by_category(c);
                    match query {
                        Some(q) => Ok(holding(listed, q)),
                        None => Ok(listed),
                    }
                },
                None => Err(InvalidCategory { name: name.to_owned() }),
            }
        },
        None => {
            match query {
                Some(q) => Ok(db.search(q, true)),
                None => Ok(db.all_keys()),
            }
        },
    }
}

/// Those of the keys whose name holds the query up to case, in their order.
fn holding<'a>(keys: Vec<&'a KeyCode>, query: &str) -> (out: Vec<&'a KeyCode>)
    ensures
        ref_views(out@) == ref_views(keys@).filter(name_holding(query@)),
{
    let ghost all = ref_views(keys@);
    let ghost inside = name_holding(query@);
    let needle = chars_of(to_lowercase(query).as_str());
    let mut out: Vec<&'a KeyCode> = Vec::new();
    let mut i: usize = 0;
    assert(all.take(0) =~= Seq::empty());
    assert(ref_views(out@) =~= all.take(0).filter(inside)) by {
        reveal(Seq::filter);
    }
    while i < keys.len()
        invariant
            i <= keys.len(),
            all == ref_views(keys@),
            inside == name_holding(query@),
            needle@ == folded(query@),
            ref_views(out@) == all.take(i as int).filter(inside),
        decreases keys.len() - i,
    {
        let key: &'a KeyCode = keys[i];
        proof {
            assert(all[i as int] == key@);
            assert(all.take(i + 1) =~= all.take(i as int).push(key@));
            all.take(i as int).lemma_filter_push(key@, inside);
        }
        let hay = chars_of(to_lowercase(key.name.as_str()).as_str());
        if has_substring(&hay, &needle) {
            out.push(key);
            assert(ref_views(out@) =~= all.take(i as int).filter(inside).push(key@));
        }
        i += 1;
    }
    assert(all.take(i as int) =~= all);
    out
}

/// The rows of the list of categories: a category, the number of its keys,
/// and what it holds.
pub open spec fn category_rows(counts: Seq<(KeyCategory, usize)>) -> Seq<
    (KeyCategory, usize, Seq<char>),
> {
    Seq::new(counts.len(), |i: int| (counts[i].0, counts[i].1, category_description(counts[i].0)))
}

/// The plain values of a list of category rows.
pub open spec fn row_views(rows: Seq<(KeyCategory, usize, &'static str)>) -> Seq<
    (KeyCategory, usize, Seq<char>),
> {
    Seq::new(rows.len(), |i: int| (rows[i].0, rows[i].1, rows[i].2@))
}

/// Lists the categories that have keys, in the order of their names, each
/// with the number of its keys and a sentence on what it holds.
pub fn list_categories(db: &KeyDatabase) -> (rows: Vec<(KeyCategory, usize, &'static str)>)
    ensures
        row_views(rows@) == category_rows(all_category_counts(db@)),
{
    let counts = db.categories();
    let mut rows: Vec<(KeyCategory, usize, &'static str)> = Vec::new();
    let mut i: usize = 0;
    while i < counts.len()
        invariant
            i <= counts.len(),
            rows@.len() == i,
            forall|k: int|
                0 <= k < i ==> (#[trigger] rows@[k]).0 == counts@[k].0 && rows@[k].1 == counts@[k].1
                    && rows@[k].2@ == category_description(counts@[k].0),
        decreases counts.len() - i,
    {
        let (category, n) = counts[i];
        rows.push((category, n, category.description()));
        i += 1;
    }
    assert(row_views(rows@) =~= category_rows(counts@));
    rows
}

/// What a resource address stands for.
#[derive(Debug, Clone, Copy, PartialEq, Eq, Structural)]
pub enum Resource {
    /// `keycode://all`: every key, category by category
    AllKeys,
    /// `keycode://aliases`: every alias with the key that it names
    Aliases,
    /// `keycode://category/<name>`: the keys of one category
    Category(KeyCategory),
}

/// Why a resource address stands for nothing.
#[derive(Debug)]
pub enum ResourceError {
    /// The address is that of a category, and the name is that of none
    UnknownCategory(String),
    /// The address has none of the known forms
    UnknownUri,
}

/// Why a resource address stands for nothing, as plain values.
pub enum ResourceErrorView {
    UnknownCategory(Seq<char>),
    UnknownUri,
}

impl View for ResourceError {
    type V = ResourceErrorView;

    open spec fn view(&self) -> ResourceErrorView {
        match self {
            ResourceError::UnknownCategory(name) => ResourceErrorView::UnknownCategory(name@),
            ResourceError::UnknownUri => ResourceErrorView::UnknownUri,
        }
    }
}

/// `prefix` is how `text` begins.
pub open spec fn begins_with(text: Seq<char>, prefix: Seq<char>) -> bool {
    prefix.len() <= text.len() && text.take(prefix.len() as int) == prefix
}

/// What a resource address stands for: `keycode://all` and
/// `keycode://aliases` for themselves, `keycode://category/` and the name of
/// a category for that category.
pub open spec fn resource_of(uri: Seq<char>) -> Result<Resource, ResourceErrorView> {
    if uri == "keycode://all"@ {
        Ok(Resource::AllKeys)
    } else if uri == "keycode://aliases"@ {
        Ok(Resource::Aliases)
    } else if begins_with(uri, "keycode://category/"@) {
        let name = uri.skip("keycode://category/"@.len() as int);
        match category_named(name) {
            Some(c) => Ok(Resource::Category(c)),
            None => Err(ResourceErrorView::UnknownCategory(name)),
        }
    } else {
        Err(ResourceErrorView::UnknownUri)
    }
}

/// The plain values of a parsed resource address.
pub open spec fn resource_view(parsed: Result<Resource, ResourceError>) -> Result<
    Resource,
    ResourceErrorView,
> {
    match parsed {
        Ok(r) => Ok(r),
        Err(e) => Err(e@),
    }
}

/// Whether `text` begins with `prefix`.
fn starts_with(text: &Vec<char>, prefix: &Vec<char>) -> (yes: bool)
    ensures
        yes == begins_with(text@, prefix@),
{
    if prefix.len() > text.len() {
        return false;
    }
    let mut i: usize = 0;
    while i < prefix.len()
        invariant
            i <= prefix.len() <= text.len(),
            forall|k: int| 0 <= k < i ==> text@[k] == prefix@[k],
        decreases prefix.len() - i,
    {
        if text[i] != prefix[i] {
            assert(text@.take(prefix@.len() as int)[i as int] != prefix@[i as int]);
            return false;
        }
        i += 1;
    }
    assert(text@.take(prefix@.len() as int) =~= prefix@);
    true
}

/// Reads a resource address.
pub fn parse_resource_uri(uri: &str) -> (parsed: Result<Resource, ResourceError>)
    ensures
        resource_view(parsed) == resource_of(uri@),
{
    let text = chars_of(uri);
    if crate::text::same_chars(&text, &chars_of("keycode://all")) {
        return Ok(Resource::AllKeys);
    }
    if crate::text::same_chars(&text, &chars_of("keycode://aliases")) {
        return Ok(Resource::Aliases);
    }
    let prefix = chars_of("keycode://category/");
    if starts_with(&text, &prefix) {
        let name = string_of(&text, prefix.len(), text.len());
        assert(name@ =~= uri@.skip("keycode://category/"@.len() as int));
        match KeyCategory::from_name(name.as_str()) {
            Some(c) => Ok(Resource::Category(c)),
            None => Err(ResourceError::UnknownCategory(name)),
        }
    } else {
        Err(ResourceError::UnknownUri)
    }
}

} // verus!
