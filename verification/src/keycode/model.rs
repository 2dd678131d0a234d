//! The model of the key catalog: what a list of key records means for
//! lookup, listing and search, and what follows from its consistency.

use vstd::prelude::*;

use crate::keycode::catalog::{
    catalog, catalog_function_keys, catalog_letters, catalog_modifiers, catalog_navigation,
    catalog_numbers, catalog_numpad, catalog_punctuation, catalog_special, lemma_catalog_groups,
    lemma_catalog_names_ascii,
};
use crate::keycode::types::{category_name, KeyCategory, KeyCode, KeyCodeView};
use crate::order::{
    arranged, lemma_arranged_ordered, lemma_arranged_permutes, lemma_slot, slot, strict_order,
};
use crate::text::{
    ascii_lowercase, ascii_uppercase, contains, folded, is_ascii, lemma_folded_ascii,
    lemma_lex_less_asymmetric, lemma_lex_less_total, lemma_lex_less_transitive, lex_less,
};

verus! {

/// The case-folded labels of a key, in the order of its labels.
pub open spec fn folded_labels(key: KeyCodeView) -> Seq<Seq<char>> {
    Seq::new(key.labels().len(), |l: int| folded(key.labels()[l]))
}

/// Two keys share a label: some name or alias of the one equals, up to case,
/// some name or alias of the other.
pub open spec fn collide(a: KeyCodeView, b: KeyCodeView) -> bool {
    exists|i: int, j: int|
        0 <= i < a.labels().len() && 0 <= j < b.labels().len() && folded(
            #[trigger] a.labels()[i],
        ) == folded(#[trigger] b.labels()[j])
}

/// The catalog invariant: no two distinct keys share a label. So names are
/// unique up to case, and no alias of a key is, up to case, the name or an
/// alias of another key.
pub open spec fn consistent(keys: Seq<KeyCodeView>) -> bool {
    forall|i: int, j: int|
        0 <= i < j < keys.len() ==> !collide(#[trigger] keys[i], #[trigger] keys[j])
}

/// The key that a query names in a list of keys: the key with a label that
/// equals the query up to case, if there is one.
pub open spec fn resolve(keys: Seq<KeyCodeView>, query: Seq<char>) -> Option<KeyCodeView> {
    if exists|i: int| 0 <= i < keys.len() && (#[trigger] keys[i]).answers_to(query) {
        Some(keys[choose|i: int| 0 <= i < keys.len() && (#[trigger] keys[i]).answers_to(query)])
    } else {
        None
    }
}

/// The record behind an optional reference to a key.
pub open spec fn key_view(key: Option<&KeyCode>) -> Option<KeyCodeView> {
    match key {
        Some(k) => Some(k@),
        None => None,
    }
}

/// The records behind a list of references to keys.
pub open spec fn ref_views(keys: Seq<&KeyCode>) -> Seq<KeyCodeView> {
    Seq::new(keys.len(), |i: int| keys[i]@)
}

/// The key that a code stands for in a list of keys: the last key in the
/// list that carries the code, since several keys may carry one code.
pub open spec fn by_code(keys: Seq<KeyCodeView>, code: u16) -> Option<KeyCodeView>
    decreases keys.len(),
{
    if keys.len() == 0 {
        None
    } else if keys.last().code == code {
        Some(keys.last())
    } else {
        by_code(keys.drop_last(), code)
    }
}

/// The keys among the first `upto` of the list that carry the code of the
/// key at `later`, each paired with that key, in the order of the list.
pub open spec fn code_partners(keys: Seq<KeyCodeView>, later: int, upto: int) -> Seq<
    (KeyCodeView, KeyCodeView),
>
    decreases upto,
{
    if upto <= 0 {
        Seq::empty()
    } else if keys[upto - 1].code == keys[later].code {
        code_partners(keys, later, upto - 1).push((keys[upto - 1], keys[later]))
    } else {
        code_partners(keys, later, upto - 1)
    }
}

/// The pairs of keys among the first `upto` of the list that carry one
/// code: a code may stand for several keys, and these pairs say where it
/// does. The pairs are ordered by their later key, then by their earlier.
pub open spec fn code_sharers(keys: Seq<KeyCodeView>, upto: int) -> Seq<(KeyCodeView, KeyCodeView)>
    decreases upto,
{
    if upto <= 0 {
        Seq::empty()
    } else {
        code_sharers(keys, upto - 1) + code_partners(keys, upto - 1, upto - 1)
    }
}

/// The records behind a list of pairs of references to keys.
pub open spec fn pair_views(pairs: Seq<(&KeyCode, &KeyCode)>) -> Seq<(KeyCodeView, KeyCodeView)> {
    Seq::new(pairs.len(), |i: int| (pairs[i].0@, pairs[i].1@))
}

/// The test "is of this category".
pub open spec fn of_category(category: KeyCategory) -> spec_fn(KeyCodeView) -> bool {
    |key: KeyCodeView| key.category == category
}

/// The test "answers to this query".
pub open spec fn answering(query: Seq<char>) -> spec_fn(KeyCodeView) -> bool {
    |key: KeyCodeView| key.answers_to(query)
}

/// The test "has this query, up to case, inside its name".
pub open spec fn name_holding(query: Seq<char>) -> spec_fn(KeyCodeView) -> bool {
    |key: KeyCodeView| contains(folded(key.name), folded(query))
}

/// The order of keys by their names.
pub open spec fn name_order() -> spec_fn(KeyCodeView, KeyCodeView) -> bool {
    |a: KeyCodeView, b: KeyCodeView| lex_less(a.name, b.name)
}

/// The keys of a category, arranged by name.
pub open spec fn listing(keys: Seq<KeyCodeView>, category: KeyCategory) -> Seq<KeyCodeView> {
    arranged(keys.filter(of_category(category)), name_order())
}

/// What a search returns: the keys that answer to the query, in catalog
/// order; where there is none and `fuzzy` is set, the keys whose name holds
/// the query, in catalog order.
pub open spec fn search_result(keys: Seq<KeyCodeView>, query: Seq<char>, fuzzy: bool) -> Seq<
    KeyCodeView,
> {
    let exact = keys.filter(answering(query));
    if exact.len() == 0 && fuzzy {
        keys.filter(name_holding(query))
    } else {
        exact
    }
}

/// The categories in the order of their names.
pub open spec fn categories_by_name() -> Seq<KeyCategory> {
    seq![
        KeyCategory::FunctionKeys,
        KeyCategory::Letters,
        KeyCategory::ModifierKeys,
        KeyCategory::NavigationKeys,
        KeyCategory::Numbers,
        KeyCategory::NumpadKeys,
        KeyCategory::Punctuation,
        KeyCategory::SpecialKeys,
    ]
}

/// The count of the keys of one category, as a list: empty where the
/// category has no key.
pub open spec fn count_row(keys: Seq<KeyCodeView>, category: KeyCategory) -> Seq<
    (KeyCategory, usize),
> {
    let n = keys.filter(of_category(category)).len();
    if n > 0 {
        seq![(category, n as usize)]
    } else {
        Seq::empty()
    }
}

/// The categories that have keys, each with the number of its keys, in the
/// order of the names of the categories.
pub open spec fn all_category_counts(keys: Seq<KeyCodeView>) -> Seq<(KeyCategory, usize)> {
    category_counts(keys, categories_by_name().len() as int)
}

/// The categories that have keys, each with the number of its keys, the
/// first `upto` categories in the order of their names.
pub open spec fn category_counts(keys: Seq<KeyCodeView>, upto: int) -> Seq<(KeyCategory, usize)>
    decreases upto,
{
    if upto <= 0 {
        Seq::empty()
    } else {
        category_counts(keys, upto - 1) + count_row(keys, categories_by_name()[upto - 1])
    }
}

/// Two keys that answer to one query share a label.
pub proof fn lemma_answers_collide(a: KeyCodeView, b: KeyCodeView, query: Seq<char>)
    requires
        a.answers_to(query),
        b.answers_to(query),
    ensures
        collide(a, b),
{
    let i = choose|i: int|
        0 <= i < a.labels().len() && folded(#[trigger] a.labels()[i]) == folded(query);
    let j = choose|j: int|
        0 <= j < b.labels().len() && folded(#[trigger] b.labels()[j]) == folded(query);
    assert(folded(a.labels()[i]) == folded(b.labels()[j]));
}

/// In a consistent list of keys, a key that answers to a query is the key
/// that the query names.
pub proof fn lemma_resolve_found(keys: Seq<KeyCodeView>, query: Seq<char>, i: int)
    requires
        consistent(keys),
        0 <= i < keys.len(),
        keys[i].answers_to(query),
    ensures
        resolve(keys, query) == Some(keys[i]),
{
    let k = choose|k: int| 0 <= k < keys.len() && (#[trigger] keys[k]).answers_to(query);
    if k != i {
        lemma_answers_collide(keys[k], keys[i], query);
        lemma_answers_collide(keys[i], keys[k], query);
    }
}

/// A query names no key just when no key answers to it.
pub proof fn lemma_resolve_none(keys: Seq<KeyCodeView>, query: Seq<char>)
    ensures
        resolve(keys, query) is None <==> forall|i: int|
            0 <= i < keys.len() ==> !(#[trigger] keys[i]).answers_to(query),
{
}

/// A key answers to every query that equals one of its labels up to case.
pub proof fn lemma_answers_to_label(key: KeyCodeView, l: int, query: Seq<char>)
    requires
        0 <= l < key.labels().len(),
        folded(query) == folded(key.labels()[l]),
    ensures
        key.answers_to(query),
{
}

/// In a consistent list of keys, two queries that are equal up to case name
/// the same key, or both name none.
pub proof fn lemma_resolve_ignores_case(keys: Seq<KeyCodeView>, a: Seq<char>, b: Seq<char>)
    requires
        consistent(keys),
        folded(a) == folded(b),
    ensures
        resolve(keys, a) == resolve(keys, b),
{
    if exists|i: int| 0 <= i < keys.len() && (#[trigger] keys[i]).answers_to(a) {
        let i = choose|i: int| 0 <= i < keys.len() && (#[trigger] keys[i]).answers_to(a);
        let l = choose|l: int|
            0 <= l < keys[i].labels().len() && folded(#[trigger] keys[i].labels()[l]) == folded(a);
        lemma_answers_to_label(keys[i], l, b);
        lemma_resolve_found(keys, a, i);
        lemma_resolve_found(keys, b, i);
    } else {
        assert forall|i: int| 0 <= i < keys.len() implies !(#[trigger] keys[i]).answers_to(b) by {
            if keys[i].answers_to(b) {
                let l = choose|l: int|
                    0 <= l < keys[i].labels().len() && folded(#[trigger] keys[i].labels()[l])
                        == folded(b);
                lemma_answers_to_label(keys[i], l, a);
            }
        }
    }
}

/// In a consistent list of keys, the name of a key finds that key as it is
/// written, in lower case and in upper case. The name is taken to be ASCII,
/// as every name of the built-in catalog is: beyond ASCII the upper-case
/// form of a name need not fold back to it.
pub proof fn lemma_name_resolves_in_any_case(keys: Seq<KeyCodeView>, i: int)
    requires
        consistent(keys),
        0 <= i < keys.len(),
        is_ascii(keys[i].name),
    ensures
        resolve(keys, keys[i].name) == Some(keys[i]),
        resolve(keys, ascii_lowercase(keys[i].name)) == Some(keys[i]),
        resolve(keys, ascii_uppercase(keys[i].name)) == Some(keys[i]),
{
    let name = keys[i].name;
    assert(keys[i].labels()[0] == name);
    lemma_folded_ascii(name);
    lemma_answers_to_label(keys[i], 0, name);
    lemma_answers_to_label(keys[i], 0, ascii_lowercase(name));
    lemma_answers_to_label(keys[i], 0, ascii_uppercase(name));
    lemma_resolve_found(keys, name, i);
    lemma_resolve_found(keys, ascii_lowercase(name), i);
    lemma_resolve_found(keys, ascii_uppercase(name), i);
}

/// In a consistent list of keys, every alias of a key finds that key.
pub proof fn lemma_alias_resolves(keys: Seq<KeyCodeView>, i: int, a: int)
    requires
        consistent(keys),
        0 <= i < keys.len(),
        0 <= a < keys[i].aliases.len(),
    ensures
        resolve(keys, keys[i].aliases[a]) == Some(keys[i]),
{
    assert(keys[i].labels()[a + 1] == keys[i].aliases[a]);
    lemma_answers_to_label(keys[i], a + 1, keys[i].aliases[a]);
    lemma_resolve_found(keys, keys[i].aliases[a], i);
}

/// In a consistent list of keys, no label of a key equals, up to case, a
/// label of another key: names differ from names, aliases from aliases, and
/// names from aliases.
pub proof fn lemma_labels_distinct(keys: Seq<KeyCodeView>, i: int, a: int, j: int, b: int)
    requires
        consistent(keys),
        0 <= i < keys.len(),
        0 <= j < keys.len(),
        i != j,
        0 <= a < keys[i].labels().len(),
        0 <= b < keys[j].labels().len(),
    ensures
        folded(keys[i].labels()[a]) != folded(keys[j].labels()[b]),
        folded(keys[i].name) != folded(keys[j].name),
{
    assert(keys[i].labels()[0] == keys[i].name);
    assert(keys[j].labels()[0] == keys[j].name);
    if i < j {
        assert(!collide(keys[i], keys[j]));
    } else {
        assert(!collide(keys[j], keys[i]));
    }
}

/// A part of a consistent list of keys is consistent.
pub proof fn lemma_consistent_prefix(keys: Seq<KeyCodeView>)
    requires
        consistent(keys),
        keys.len() > 0,
    ensures
        consistent(keys.drop_last()),
{
    let front = keys.drop_last();
    assert forall|i: int, j: int| 0 <= i < j < front.len() implies !collide(
        #[trigger] front[i],
        #[trigger] front[j],
    ) by {
        assert(front[i] == keys[i] && front[j] == keys[j]);
    }
}

/// In a consistent list of keys, the keys that answer to a query are the one
/// key that the query names, or none: a search that is not fuzzy finds what
/// a lookup finds.
pub proof fn lemma_exact_search_is_lookup(keys: Seq<KeyCodeView>, query: Seq<char>)
    requires
        consistent(keys),
    ensures
        search_result(keys, query, false) == match resolve(keys, query) {
            Some(key) => seq![key],
            None => Seq::empty(),
        },
    decreases keys.len(),
{
    reveal(Seq::filter);
    let hits = keys.filter(answering(query));
    if keys.len() == 0 {
        assert(hits =~= Seq::empty());
    } else {
        let front = keys.drop_last();
        let last = keys.last();
        lemma_consistent_prefix(keys);
        lemma_exact_search_is_lookup(front, query);
        if last.answers_to(query) {
            lemma_resolve_found(keys, query, keys.len() - 1);
            if exists|i: int| 0 <= i < front.len() && (#[trigger] front[i]).answers_to(query) {
                let i = choose|i: int|
                    0 <= i < front.len() && (#[trigger] front[i]).answers_to(query);
                assert(front[i] == keys[i]);
                lemma_answers_collide(keys[i], last, query);
                assert(!collide(keys[i], keys[keys.len() - 1]));
            }
            assert(hits =~= seq![last]);
        } else {
            if exists|i: int| 0 <= i < keys.len() && (#[trigger] keys[i]).answers_to(query) {
                let i = choose|i: int|
                    0 <= i < keys.len() && (#[trigger] keys[i]).answers_to(query);
                assert(front[i] == keys[i]);
                lemma_resolve_found(keys, query, i);
                lemma_resolve_found(front, query, i);
            } else {
                assert forall|i: int| 0 <= i < front.len() implies !(
                #[trigger] front[i]).answers_to(query) by {
                    assert(front[i] == keys[i]);
                }
            }
        }
    }
}

/// The order of keys by their names is a strict order.
pub proof fn lemma_name_order_strict()
    ensures
        strict_order(name_order()),
{
    let before = name_order();
    assert forall|a: KeyCodeView, b: KeyCodeView| #[trigger] before(a, b) implies !before(b, a) by {
        lemma_lex_less_asymmetric(a.name, b.name);
    }
    assert forall|a: KeyCodeView, b: KeyCodeView, c: KeyCodeView| #[trigger]
        before(a, b) && #[trigger] before(b, c) implies before(a, c) by {
        lemma_lex_less_transitive(a.name, b.name, c.name);
    }
}

/// No two keys of the list have the same name.
pub open spec fn distinct_names(keys: Seq<KeyCodeView>) -> bool {
    forall|i: int, j: int|
        0 <= i < j < keys.len() ==> (#[trigger] keys[i]).name != (#[trigger] keys[j]).name
}

/// The keys of a consistent list have different names.
pub proof fn lemma_consistent_names_differ(keys: Seq<KeyCodeView>)
    requires
        consistent(keys),
    ensures
        distinct_names(keys),
{
    assert forall|i: int, j: int| 0 <= i < j < keys.len() implies (#[trigger] keys[i]).name != (
    #[trigger] keys[j]).name by {
        lemma_labels_distinct(keys, i, 0, j, 0);
    }
}

/// A name that no key of a list has is the name of no key picked from the
/// list.
proof fn lemma_name_stays_new(keys: Seq<KeyCodeView>, picked: Seq<KeyCodeView>, name: Seq<char>)
    requires
        forall|i: int| 0 <= i < keys.len() ==> (#[trigger] keys[i]).name != name,
        forall|i: int| 0 <= i < picked.len() ==> keys.contains(#[trigger] picked[i]),
    ensures
        forall|i: int| 0 <= i < picked.len() ==> (#[trigger] picked[i]).name != name,
{
    assert forall|i: int| 0 <= i < picked.len() implies (#[trigger] picked[i]).name != name by {
        assert(keys.contains(picked[i]));
        let k = choose|k: int| 0 <= k < keys.len() && keys[k] == picked[i];
        assert(keys[k].name != name);
    }
}

/// The keys of one category, picked from keys with different names, have
/// different names.
proof fn lemma_picked_names_differ(keys: Seq<KeyCodeView>, category: KeyCategory)
    requires
        distinct_names(keys),
    ensures
        distinct_names(keys.filter(of_category(category))),
    decreases keys.len(),
{
    reveal(Seq::filter);
    let wanted = of_category(category);
    if keys.len() > 0 {
        let front = keys.drop_last();
        let last = keys.last();
        let picked = front.filter(wanted);
        assert forall|i: int, j: int| 0 <= i < j < front.len() implies (#[trigger] front[i]).name
            != (#[trigger] front[j]).name by {
            assert(front[i] == keys[i] && front[j] == keys[j]);
        }
        lemma_picked_names_differ(front, category);
        assert forall|i: int| 0 <= i < front.len() implies (#[trigger] front[i]).name
            != last.name by {
            assert(front[i] == keys[i] && last == keys[keys.len() - 1]);
        }
        assert forall|i: int| 0 <= i < picked.len() implies front.contains(
            #[trigger] picked[i],
        ) by {
            assert(picked.contains(picked[i]));
            front.lemma_filter_contains_rev(wanted, picked[i]);
        }
        lemma_name_stays_new(front, picked, last.name);
        let out = keys.filter(wanted);
        assert forall|i: int, j: int| 0 <= i < j < out.len() implies (#[trigger] out[i]).name != (
        #[trigger] out[j]).name by {
            if j < picked.len() {
                assert(out[i] == picked[i] && out[j] == picked[j]);
            } else {
                assert(out[i] == picked[i] && out[j] == last);
            }
        }
    }
}

/// Keys with different names still have different names when they are
/// arranged by name.
proof fn lemma_arranged_names_differ(keys: Seq<KeyCodeView>)
    requires
        distinct_names(keys),
    ensures
        distinct_names(arranged(keys, name_order())),
    decreases keys.len(),
{
    if keys.len() > 0 {
        let front = keys.drop_last();
        let last = keys.last();
        let r = arranged(front, name_order());
        let p = slot(r, last, name_order());
        let out = r.insert(p, last);
        assert forall|i: int, j: int| 0 <= i < j < front.len() implies (#[trigger] front[i]).name
            != (#[trigger] front[j]).name by {
            assert(front[i] == keys[i] && front[j] == keys[j]);
        }
        lemma_arranged_names_differ(front);
        lemma_arranged_permutes(front, name_order());
        lemma_slot(r, last, name_order());
        assert forall|i: int| 0 <= i < front.len() implies (#[trigger] front[i]).name
            != last.name by {
            assert(front[i] == keys[i] && last == keys[keys.len() - 1]);
        }
        assert forall|i: int| 0 <= i < r.len() implies front.contains(#[trigger] r[i]) by {
            r.to_multiset_ensures();
            front.to_multiset_ensures();
            assert(r.contains(r[i]));
            assert(r.to_multiset().count(r[i]) > 0);
            assert(front.to_multiset().count(r[i]) > 0);
        }
        lemma_name_stays_new(front, r, last.name);
        assert forall|i: int, j: int| 0 <= i < j < out.len() implies (#[trigger] out[i]).name != (
        #[trigger] out[j]).name by {
            let a = if i < p { i } else { i - 1 };
            let b = if j < p { j } else { j - 1 };
            if i == p {
                assert(out[i] == last && out[j] == r[b]);
            } else if j == p {
                assert(out[j] == last && out[i] == r[a]);
            } else {
                assert(out[i] == r[a] && out[j] == r[b]);
            }
        }
    }
}

/// In the listing of a category of a consistent list of keys, the names
/// grow from each key to the next: the order of the listing is the one
/// order by name that the keys of the category have.
pub proof fn lemma_listing_names_grow(keys: Seq<KeyCodeView>, category: KeyCategory)
    requires
        consistent(keys),
    ensures
        forall|i: int, j: int|
            0 <= i < j < listing(keys, category).len() ==> lex_less(
                (#[trigger] listing(keys, category)[i]).name,
                (#[trigger] listing(keys, category)[j]).name,
            ),
{
    let out = listing(keys, category);
    lemma_consistent_names_differ(keys);
    lemma_picked_names_differ(keys, category);
    lemma_arranged_names_differ(keys.filter(of_category(category)));
    lemma_listing_sorted(keys, category);
    assert forall|i: int, j: int| 0 <= i < j < out.len() implies lex_less(
        (#[trigger] out[i]).name,
        (#[trigger] out[j]).name,
    ) by {
        assert(out[i].name != out[j].name);
        lemma_lex_less_total(out[i].name, out[j].name);
    }
}

/// The listing of a category holds the keys of that category, each as often
/// as the list of keys does and no other, and no key of the listing has a
/// name that comes before the name of a key ahead of it.
pub proof fn lemma_listing_sorted(keys: Seq<KeyCodeView>, category: KeyCategory)
    ensures
        listing(keys, category).to_multiset() == keys.filter(of_category(category)).to_multiset(),
        listing(keys, category).len() == keys.filter(of_category(category)).len(),
        forall|i: int, j: int|
            0 <= i < j < listing(keys, category).len() ==> !lex_less(
                (#[trigger] listing(keys, category)[j]).name,
                (#[trigger] listing(keys, category)[i]).name,
            ),
{
    let picked = keys.filter(of_category(category));
    lemma_name_order_strict();
    lemma_arranged_permutes(picked, name_order());
    lemma_arranged_ordered(picked, name_order());
    let out = listing(keys, category);
    assert forall|i: int, j: int| 0 <= i < j < out.len() implies !lex_less(
        (#[trigger] out[j]).name,
        (#[trigger] out[i]).name,
    ) by {
        assert(!name_order()(out[j], out[i]));
    }
}

/// In the built-in catalog, provided that it is consistent, every name finds
/// its key as it is written, in lower case and in upper case.
pub proof fn lemma_catalog_names_resolve_in_any_case(i: int)
    requires
        consistent(catalog()),
        0 <= i < catalog().len(),
    ensures
        resolve(catalog(), catalog()[i].name) == Some(catalog()[i]),
        resolve(catalog(), ascii_lowercase(catalog()[i].name)) == Some(catalog()[i]),
        resolve(catalog(), ascii_uppercase(catalog()[i].name)) == Some(catalog()[i]),
{
    lemma_catalog_names_ascii();
    lemma_name_resolves_in_any_case(catalog(), i);
}

/// Of a list of keys that are all of one category, the keys of that
/// category are the whole list, and the keys of any other category none.
pub proof fn lemma_uniform_category(
    keys: Seq<KeyCodeView>,
    category: KeyCategory,
    wanted: KeyCategory,
)
    requires
        forall|i: int| 0 <= i < keys.len() ==> (#[trigger] keys[i]).category == category,
    ensures
        keys.filter(of_category(wanted)) == if wanted == category {
            keys
        } else {
            Seq::empty()
        },
    decreases keys.len(),
{
    reveal(Seq::filter);
    if keys.len() > 0 {
        lemma_uniform_category(keys.drop_last(), category, wanted);
        assert(keys.last() == keys[keys.len() - 1]);
        assert(keys.drop_last().push(keys.last()) =~= keys);
    } else {
        assert(keys.filter(of_category(wanted)) =~= Seq::empty());
        assert(keys =~= Seq::empty());
    }
}

/// The keys of a category in the built-in catalog are the group of that
/// category, in its order.
pub proof fn lemma_catalog_by_category(wanted: KeyCategory)
    ensures
        catalog().filter(of_category(wanted)) == match wanted {
            KeyCategory::Letters => catalog_letters(),
            KeyCategory::Numbers => catalog_numbers(),
            KeyCategory::FunctionKeys => catalog_function_keys(),
            KeyCategory::ModifierKeys => catalog_modifiers(),
            KeyCategory::NavigationKeys => catalog_navigation(),
            KeyCategory::SpecialKeys => catalog_special(),
            KeyCategory::NumpadKeys => catalog_numpad(),
            KeyCategory::Punctuation => catalog_punctuation(),
        },
{
    let pred = of_category(wanted);
    reveal(catalog);
    lemma_catalog_groups();
    lemma_uniform_category(catalog_letters(), KeyCategory::Letters, wanted);
    lemma_uniform_category(catalog_numbers(), KeyCategory::Numbers, wanted);
    lemma_uniform_category(catalog_function_keys(), KeyCategory::FunctionKeys, wanted);
    lemma_uniform_category(catalog_modifiers(), KeyCategory::ModifierKeys, wanted);
    lemma_uniform_category(catalog_navigation(), KeyCategory::NavigationKeys, wanted);
    lemma_uniform_category(catalog_special(), KeyCategory::SpecialKeys, wanted);
    lemma_uniform_category(catalog_numpad(), KeyCategory::NumpadKeys, wanted);
    lemma_uniform_category(catalog_punctuation(), KeyCategory::Punctuation, wanted);
    let upto_numbers = catalog_letters() + catalog_numbers();
    let upto_function = upto_numbers + catalog_function_keys();
    let upto_modifiers = upto_function + catalog_modifiers();
    let upto_navigation = upto_modifiers + catalog_navigation();
    let upto_special = upto_navigation + catalog_special();
    let upto_numpad = upto_special + catalog_numpad();
    Seq::filter_distributes_over_add(catalog_letters(), catalog_numbers(), pred);
    Seq::filter_distributes_over_add(upto_numbers, catalog_function_keys(), pred);
    Seq::filter_distributes_over_add(upto_function, catalog_modifiers(), pred);
    Seq::filter_distributes_over_add(upto_modifiers, catalog_navigation(), pred);
    Seq::filter_distributes_over_add(upto_navigation, catalog_special(), pred);
    Seq::filter_distributes_over_add(upto_special, catalog_numpad(), pred);
    Seq::filter_distributes_over_add(upto_numpad, catalog_punctuation(), pred);
    let picked = catalog().filter(pred);
    assert(picked =~= match wanted {
        KeyCategory::Letters => catalog_letters(),
        KeyCategory::Numbers => catalog_numbers(),
        KeyCategory::FunctionKeys => catalog_function_keys(),
        KeyCategory::ModifierKeys => catalog_modifiers(),
        KeyCategory::NavigationKeys => catalog_navigation(),
        KeyCategory::SpecialKeys => catalog_special(),
        KeyCategory::NumpadKeys => catalog_numpad(),
        KeyCategory::Punctuation => catalog_punctuation(),
    });
}

/// The number of the keys of a category in a list of keys.
pub open spec fn category_size(keys: Seq<KeyCodeView>, category: KeyCategory) -> nat {
    keys.filter(of_category(category)).len()
}

/// The counts of a list of keys that has keys in every category.
pub proof fn lemma_counts_of_full_list(keys: Seq<KeyCodeView>)
    requires
        forall|category: KeyCategory| 0 < #[trigger] category_size(keys, category) <= usize::MAX,
    ensures
        all_category_counts(keys) == seq![
            (KeyCategory::FunctionKeys, category_size(keys, KeyCategory::FunctionKeys) as usize),
            (KeyCategory::Letters, category_size(keys, KeyCategory::Letters) as usize),
            (KeyCategory::ModifierKeys, category_size(keys, KeyCategory::ModifierKeys) as usize),
            (
                KeyCategory::NavigationKeys,
                category_size(keys, KeyCategory::NavigationKeys) as usize,
            ),
            (KeyCategory::Numbers, category_size(keys, KeyCategory::Numbers) as usize),
            (KeyCategory::NumpadKeys, category_size(keys, KeyCategory::NumpadKeys) as usize),
            (KeyCategory::Punctuation, category_size(keys, KeyCategory::Punctuation) as usize),
            (KeyCategory::SpecialKeys, category_size(keys, KeyCategory::SpecialKeys) as usize),
        ],
{
    reveal_with_fuel(category_counts, 9);
    let order = categories_by_name();
    assert(order.len() == 8);
    assert(category_size(keys, order[0]) > 0 && category_size(keys, order[1]) > 0);
    assert(category_size(keys, order[2]) > 0 && category_size(keys, order[3]) > 0);
    assert(category_size(keys, order[4]) > 0 && category_size(keys, order[5]) > 0);
    assert(category_size(keys, order[6]) > 0 && category_size(keys, order[7]) > 0);
    assert(category_counts(keys, 8) =~= seq![
        (KeyCategory::FunctionKeys, category_size(keys, KeyCategory::FunctionKeys) as usize),
        (KeyCategory::Letters, category_size(keys, KeyCategory::Letters) as usize),
        (KeyCategory::ModifierKeys, category_size(keys, KeyCategory::ModifierKeys) as usize),
        (
            KeyCategory::NavigationKeys,
            category_size(keys, KeyCategory::NavigationKeys) as usize,
        ),
        (KeyCategory::Numbers, category_size(keys, KeyCategory::Numbers) as usize),
        (KeyCategory::NumpadKeys, category_size(keys, KeyCategory::NumpadKeys) as usize),
        (KeyCategory::Punctuation, category_size(keys, KeyCategory::Punctuation) as usize),
        (KeyCategory::SpecialKeys, category_size(keys, KeyCategory::SpecialKeys) as usize),
    ]);
}

/// The sizes of the categories of the built-in catalog.
pub proof fn lemma_catalog_sizes(category: KeyCategory)
    ensures
        category_size(catalog(), category) == match category {
            KeyCategory::FunctionKeys => 20nat,
            KeyCategory::Letters => 26nat,
            KeyCategory::ModifierKeys => 12nat,
            KeyCategory::NavigationKeys => 8nat,
            KeyCategory::Numbers => 10nat,
            KeyCategory::NumpadKeys => 18nat,
            KeyCategory::Punctuation => 11nat,
            KeyCategory::SpecialKeys => 11nat,
        },
{
    lemma_catalog_by_category(category);
    lemma_catalog_groups();
}

/// The built-in catalog has keys in every category: 20 function keys, 26
/// letters, 12 modifiers, 8 navigation keys, 10 numbers, 18 keypad keys, 11
/// punctuation keys and 11 special keys.
pub proof fn lemma_catalog_counts()
    ensures
        all_category_counts(catalog()) == seq![
            (KeyCategory::FunctionKeys, 20usize),
            (KeyCategory::Letters, 26usize),
            (KeyCategory::ModifierKeys, 12usize),
            (KeyCategory::NavigationKeys, 8usize),
            (KeyCategory::Numbers, 10usize),
            (KeyCategory::NumpadKeys, 18usize),
            (KeyCategory::Punctuation, 11usize),
            (KeyCategory::SpecialKeys, 11usize),
        ],
{
    let keys = catalog();
    assert forall|category: KeyCategory| 0 < #[trigger] category_size(keys, category)
        <= usize::MAX by {
        lemma_catalog_sizes(category);
    }
    lemma_counts_of_full_list(keys);
    lemma_catalog_sizes(KeyCategory::FunctionKeys);
    lemma_catalog_sizes(KeyCategory::Letters);
    lemma_catalog_sizes(KeyCategory::ModifierKeys);
    lemma_catalog_sizes(KeyCategory::NavigationKeys);
    lemma_catalog_sizes(KeyCategory::Numbers);
    lemma_catalog_sizes(KeyCategory::NumpadKeys);
    lemma_catalog_sizes(KeyCategory::Punctuation);
    lemma_catalog_sizes(KeyCategory::SpecialKeys);
}

/// The listing of a category of the built-in catalog has as many keys as
/// the category: 26 for the letters, 10 for the numbers.
pub proof fn lemma_catalog_listing_sizes(category: KeyCategory)
    ensures
        listing(catalog(), category).len() == category_size(catalog(), category),
        listing(catalog(), KeyCategory::Letters).len() == 26,
        listing(catalog(), KeyCategory::Numbers).len() == 10,
{
    lemma_catalog_sizes(KeyCategory::Letters);
    lemma_catalog_sizes(KeyCategory::Numbers);
    lemma_arranged_permutes(catalog().filter(of_category(category)), name_order());
    lemma_arranged_permutes(catalog().filter(of_category(KeyCategory::Letters)), name_order());
    lemma_arranged_permutes(catalog().filter(of_category(KeyCategory::Numbers)), name_order());
}

/// The order in which the categories are counted is the order of their
/// names.
pub proof fn lemma_categories_by_name()
    ensures
        forall|i: int, j: int|
            0 <= i < j < categories_by_name().len() ==> lex_less(
                category_name(#[trigger] categories_by_name()[i]),
                category_name(#[trigger] categories_by_name()[j]),
            ),
{
    reveal_strlit("function_keys");
    reveal_strlit("letters");
    reveal_strlit("modifier_keys");
    reveal_strlit("navigation_keys");
    reveal_strlit("numbers");
    reveal_strlit("numpad_keys");
    reveal_strlit("punctuation");
    reveal_strlit("special_keys");
    let f = "function_keys"@;
    let l = "letters"@;
    let m = "modifier_keys"@;
    let na = "navigation_keys"@;
    let nu = "numbers"@;
    let np = "numpad_keys"@;
    let p = "punctuation"@;
    let s = "special_keys"@;
    assert(f[0] == 'f' && l[0] == 'l' && m[0] == 'm' && na[0] == 'n' && nu[0] == 'n' && np[0] == 'n'
        && p[0] == 'p' && s[0] == 's');
    assert(lex_less(f, l) && lex_less(l, m) && lex_less(m, na));
    assert(lex_less(na, nu)) by {
        assert(na.drop_first()[0] == 'a' && nu.drop_first()[0] == 'u');
        assert(lex_less(na.drop_first(), nu.drop_first()));
    }
    assert(lex_less(nu, np)) by {
        let a = nu.drop_first().drop_first().drop_first();
        let b = np.drop_first().drop_first().drop_first();
        assert(nu.drop_first()[0] == 'u' && np.drop_first()[0] == 'u');
        assert(nu.drop_first().drop_first()[0] == 'm' && np.drop_first().drop_first()[0] == 'm');
        assert(a[0] == 'b' && b[0] == 'p');
        assert(lex_less(a, b));
        assert(lex_less(nu.drop_first().drop_first(), np.drop_first().drop_first()));
        assert(lex_less(nu.drop_first(), np.drop_first()));
    }
    assert(lex_less(np, p) && lex_less(p, s));
    lemma_lex_less_transitive(f, l, m);
    lemma_lex_less_transitive(f, m, na);
    lemma_lex_less_transitive(f, na, nu);
    lemma_lex_less_transitive(f, nu, np);
    lemma_lex_less_transitive(f, np, p);
    lemma_lex_less_transitive(f, p, s);
    lemma_lex_less_transitive(l, m, na);
    lemma_lex_less_transitive(l, na, nu);
    lemma_lex_less_transitive(l, nu, np);
    lemma_lex_less_transitive(l, np, p);
    lemma_lex_less_transitive(l, p, s);
    lemma_lex_less_transitive(m, na, nu);
    lemma_lex_less_transitive(m, nu, np);
    lemma_lex_less_transitive(m, np, p);
    lemma_lex_less_transitive(m, p, s);
    lemma_lex_less_transitive(na, nu, np);
    lemma_lex_less_transitive(na, np, p);
    lemma_lex_less_transitive(na, p, s);
    lemma_lex_less_transitive(nu, np, p);
    lemma_lex_less_transitive(nu, p, s);
    lemma_lex_less_transitive(np, p, s);
}

} // verus!
