//! The key database: the catalog together with the case-folded form of every
//! name and alias, checked once for collisions and read-only afterwards.

use vstd::prelude::*;

use crate::keycode::catalog::{
    catalog, function_keys, key_views, letter_keys, modifier_keys, navigation_keys, number_keys,
    numpad_keys, punctuation_keys, special_keys,
};
use crate::keycode::model::{
    all_category_counts, answering, by_code, category_counts, categories_by_name, collide,
    consistent, count_row,
    code_partners, code_sharers, folded_labels, key_view, lemma_resolve_found, listing,
    name_holding, name_order, of_category, pair_views, ref_views, resolve, search_result,
};
use crate::keycode::types::{KeyCategory, KeyCode, KeyCodeView};
use crate::order::{arranged, slot};
use crate::text::{
    chars_of, comes_before, folded, has_substring, string_views, to_lowercase,
};

verus! {

/// The defect that stops the construction of a database: two keys of the
/// catalog share a label.
#[derive(Debug)]
pub struct CatalogIntegrityError {
    /// Name of the earlier of the two keys
    pub first: String,
    /// Name of the later of the two keys
    pub second: String,
}

/// All key records with their codes.
pub struct KeyDatabase {
    /// The records, in catalog order
    keys: Vec<KeyCode>,
    /// For each record the case-folded form of its name and of its aliases
    folded: Vec<Vec<String>>,
}

impl View for KeyDatabase {
    type V = Seq<KeyCodeView>;

    closed spec fn view(&self) -> Seq<KeyCodeView> {
        key_views(self.keys@)
    }
}

/// The case-folded form of every label of a key.
fn fold_labels(key: &KeyCode) -> (out: Vec<String>)
    ensures
        string_views(out@) == folded_labels(key@),
{
    let mut out: Vec<String> = Vec::new();
    out.push(to_lowercase(key.name.as_str()));
    let mut i: usize = 0;
    while i < key.aliases.len()
        invariant
            i <= key.aliases.len(),
            out@.len() == i + 1,
            forall|l: int| 0 <= l <= i ==> (#[trigger] out@[l])@ == folded(key@.labels()[l]),
        decreases key.aliases.len() - i,
    {
        out.push(to_lowercase(key.aliases[i].as_str()));
        i += 1;
    }
    assert(string_views(out@) =~= folded_labels(key@));
    out
}

/// Whether a string stands in a list of strings.
fn holds(labels: &Vec<String>, wanted: &String) -> (found: bool)
    ensures
        found == exists|l: int| 0 <= l < labels@.len() && (#[trigger] labels@[l])@ == wanted@,
{
    let mut l: usize = 0;
    while l < labels.len()
        invariant
            l <= labels.len(),
            forall|k: int| 0 <= k < l ==> (#[trigger] labels@[k])@ != wanted@,
        decreases labels.len() - l,
    {
        if labels[l] == *wanted {
            return true;
        }
        l += 1;
    }
    false
}

/// Whether two lists of strings have a string in common.
fn share(a: &Vec<String>, b: &Vec<String>) -> (found: bool)
    ensures
        found == exists|i: int, j: int|
            0 <= i < a@.len() && 0 <= j < b@.len() && (#[trigger] a@[i])@ == (#[trigger] b@[j])@,
{
    let mut i: usize = 0;
    while i < a.len()
        invariant
            i <= a.len(),
            forall|k: int, j: int|
                0 <= k < i && 0 <= j < b@.len() ==> (#[trigger] a@[k])@ != (#[trigger] b@[j])@,
        decreases a.len() - i,
    {
        if holds(b, &a[i]) {
            return true;
        }
        i += 1;
    }
    false
}

/// A list that holds the folded labels of a key holds the folded query just
/// when the key answers to the query.
proof fn lemma_holds_is_answer(labels: Seq<String>, key: KeyCodeView, query: Seq<char>)
    requires
        string_views(labels) == folded_labels(key),
    ensures
        key.answers_to(query) <==> exists|l: int|
            0 <= l < labels.len() && (#[trigger] labels[l])@ == folded(query),
{
    assert(string_views(labels).len() == labels.len());
    assert(folded_labels(key).len() == key.labels().len());
    if key.answers_to(query) {
        let l = choose|l: int|
            0 <= l < key.labels().len() && folded(#[trigger] key.labels()[l]) == folded(query);
        assert(string_views(labels)[l] == folded_labels(key)[l]);
        assert(labels[l]@ == folded(query));
    }
    if exists|l: int| 0 <= l < labels.len() && (#[trigger] labels[l])@ == folded(query) {
        let l = choose|l: int| 0 <= l < labels.len() && (#[trigger] labels[l])@ == folded(query);
        assert(string_views(labels)[l] == folded_labels(key)[l]);
        assert(folded(key.labels()[l]) == folded(query));
    }
}

/// Two lists that hold the folded labels of two keys have a string in common
/// just when the keys collide.
proof fn lemma_share_is_collide(a: Seq<String>, b: Seq<String>, x: KeyCodeView, y: KeyCodeView)
    requires
        string_views(a) == folded_labels(x),
        string_views(b) == folded_labels(y),
    ensures
        collide(x, y) <==> exists|i: int, j: int|
            0 <= i < a.len() && 0 <= j < b.len() && (#[trigger] a[i])@ == (#[trigger] b[j])@,
{
    assert(string_views(a).len() == a.len() && folded_labels(x).len() == x.labels().len());
    assert(string_views(b).len() == b.len() && folded_labels(y).len() == y.labels().len());
    if collide(x, y) {
        let (i, j) = choose|i: int, j: int|
            0 <= i < x.labels().len() && 0 <= j < y.labels().len() && folded(
                #[trigger] x.labels()[i],
            ) == folded(#[trigger] y.labels()[j]);
        assert(string_views(a)[i] == folded_labels(x)[i]);
        assert(string_views(b)[j] == folded_labels(y)[j]);
        assert(a[i]@ == b[j]@);
    }
    if exists|i: int, j: int|
        0 <= i < a.len() && 0 <= j < b.len() && (#[trigger] a[i])@ == (#[trigger] b[j])@ {
        let (i, j) = choose|i: int, j: int|
            0 <= i < a.len() && 0 <= j < b.len() && (#[trigger] a[i])@ == (#[trigger] b[j])@;
        assert(string_views(a)[i] == folded_labels(x)[i]);
        assert(string_views(b)[j] == folded_labels(y)[j]);
        assert(folded(x.labels()[i]) == folded(y.labels()[j]));
    }
}

/// Two lookups of one query in one database find the same key.
pub proof fn lemma_lookup_repeats(
    db: &KeyDatabase,
    query: &str,
    first: Option<&KeyCode>,
    second: Option<&KeyCode>,
)
    requires
        key_view(first) == resolve(db@, query@),
        key_view(second) == resolve(db@, query@),
    ensures
        key_view(first) == key_view(second),
{
}

/// Two searches for one query in one database return the same keys in the
/// same order.
pub proof fn lemma_search_repeats(
    db: &KeyDatabase,
    query: &str,
    fuzzy: bool,
    first: Vec<&KeyCode>,
    second: Vec<&KeyCode>,
)
    requires
        ref_views(first@) == search_result(db@, query@, fuzzy),
        ref_views(second@) == search_result(db@, query@, fuzzy),
    ensures
        ref_views(first@) == ref_views(second@),
{
}

impl KeyDatabase {
    /// The invariant of the type, which holds of every database that there
    /// is: the folded labels are those of the records, and the records are
    /// consistent.
    #[verifier::type_invariant]
    pub closed spec fn wf(&self) -> bool {
        &&& self.folded@.len() == self.keys@.len()
        &&& forall|i: int|
            0 <= i < self.keys@.len() ==> string_views((#[trigger] self.folded@[i])@)
                == folded_labels(self.keys@[i]@)
        &&& consistent(self@)
    }

    /// The invariant makes the records consistent: no two keys of a database
    /// share a label.
    pub proof fn lemma_wf_consistent(&self)
        requires
            self.wf(),
        ensures
            consistent(self@),
    {
    }

    /// Builds the database of a list of records. The construction fails if
    /// two of the records share a label, and then names the first such pair:
    /// the later key is the earliest that collides with a key before it, the
    /// earlier key the first that it collides with.
    pub fn from_keys(keys: Vec<KeyCode>) -> (built: Result<KeyDatabase, CatalogIntegrityError>)
        ensures
            built is Ok <==> consistent(key_views(keys@)),
            built matches Ok(db) ==> db@ == key_views(keys@),
            built matches Err(e) ==> exists|i: int, j: int|
                {
                    &&& 0 <= i < j < keys@.len()
                    &&& collide(#[trigger] key_views(keys@)[i], #[trigger] key_views(keys@)[j])
                    &&& e.first@ == keys@[i]@.name
                    &&& e.second@ == keys@[j]@.name
                    &&& forall|a: int, b: int|
                        0 <= a < b < keys@.len() && (b < j || (b == j && a < i)) ==> !collide(
                            #[trigger] key_views(keys@)[a],
                            #[trigger] key_views(keys@)[b],
                        )
                },
    {
        let ghost views = key_views(keys@);
        let mut folded: Vec<Vec<String>> = Vec::new();
        let mut n: usize = 0;
        while n < keys.len()
            invariant
                n <= keys.len(),
                folded@.len() == n,
                forall|i: int|
                    0 <= i < n ==> string_views((#[trigger] folded@[i])@) == folded_labels(
                        keys@[i]@,
                    ),
            decreases keys.len() - n,
        {
            folded.push(fold_labels(&keys[n]));
            n += 1;
        }
        let mut j: usize = 0;
        while j < keys.len()
            invariant
                j <= keys.len(),
                views == key_views(keys@),
                folded@.len() == keys@.len(),
                forall|i: int|
                    0 <= i < keys@.len() ==> string_views((#[trigger] folded@[i])@)
                        == folded_labels(keys@[i]@),
                forall|a: int, b: int|
                    0 <= a < b < j ==> !collide(#[trigger] views[a], #[trigger] views[b]),
            decreases keys.len() - j,
        {
            let mut i: usize = 0;
            while i < j
                invariant
                    i <= j < keys.len(),
                    views == key_views(keys@),
                    folded@.len() == keys@.len(),
                    forall|i: int|
                        0 <= i < keys@.len() ==> string_views((#[trigger] folded@[i])@)
                            == folded_labels(keys@[i]@),
                    forall|a: int, b: int|
                        0 <= a < b < j ==> !collide(#[trigger] views[a], #[trigger] views[b]),
                    forall|a: int| 0 <= a < i ==> !collide(#[trigger] views[a], views[j as int]),
                decreases j - i,
            {
                let clash = share(&folded[i], &folded[j]);
                proof {
                    lemma_share_is_collide(
                        folded@[i as int]@,
                        folded@[j as int]@,
                        views[i as int],
                        views[j as int],
                    );
                }
                if clash {
                    return Err(
                        CatalogIntegrityError {
                            first: keys[i].name.clone(),
                            second: keys[j].name.clone(),
                        },
                    );
                }
                i += 1;
            }
            j += 1;
        }
        Ok(KeyDatabase { keys, folded })
    }

    /// Builds the database of the built-in catalog.
    pub fn load() -> (built: Result<KeyDatabase, CatalogIntegrityError>)
        ensures
            built is Ok <==> consistent(catalog()),
            built matches Ok(db) ==> db@ == catalog(),
    {
        KeyDatabase::from_keys(KeyDatabase::create_all_keys())
    }

    /// Looks a key up by its name or by one of its aliases, without regard
    /// to case.
    pub fn lookup(&self, name: &str) -> (found: Option<&KeyCode>)
        ensures
            key_view(found) == resolve(self@, name@),
    {
        proof {
            use_type_invariant(self);
        }
        let wanted = to_lowercase(name);
        let mut i: usize = 0;
        while i < self.keys.len()
            invariant
                self.wf(),
                i <= self.keys.len(),
                wanted@ == folded(name@),
                forall|k: int| 0 <= k < i ==> !(#[trigger] self@[k]).answers_to(name@),
            decreases self.keys.len() - i,
        {
            let hit = holds(&self.folded[i], &wanted);
            proof {
                lemma_holds_is_answer(self.folded@[i as int]@, self@[i as int], name@);
            }
            if hit {
                proof {
                    lemma_resolve_found(self@, name@, i as int);
                }
                return Some(&self.keys[i]);
            }
            i += 1;
        }
        None
    }

    /// Looks a key up by its code. Of several keys with one code the last
    /// of the catalog is returned.
    pub fn lookup_by_code(&self, code: u16) -> (found: Option<&KeyCode>)
        ensures
            key_view(found) == by_code(self@, code),
    {
        let mut i: usize = self.keys.len();
        assert(self@.take(i as int) =~= self@);
        while i > 0
            invariant
                i <= self.keys.len(),
                by_code(self@, code) == by_code(self@.take(i as int), code),
            decreases i,
        {
            i -= 1;
            assert(self@.take(i + 1).drop_last() =~= self@.take(i as int));
            if self.keys[i].code == code {
                return Some(&self.keys[i]);
            }
        }
        None
    }

    /// The pairs of keys that carry one code, for a look at the catalog: a
    /// shared code is no defect, but it decides which key a code finds.
    pub fn code_collisions(&self) -> (pairs: Vec<(&KeyCode, &KeyCode)>)
        ensures
            pair_views(pairs@) == code_sharers(self@, self@.len() as int),
    {
        let mut pairs: Vec<(&KeyCode, &KeyCode)> = Vec::new();
        let mut j: usize = 0;
        assert(pair_views(pairs@) =~= Seq::empty());
        while j < self.keys.len()
            invariant
                j <= self.keys.len(),
                pair_views(pairs@) == code_sharers(self@, j as int),
            decreases self.keys.len() - j,
        {
            let ghost before = pair_views(pairs@);
            let mut i: usize = 0;
            while i < j
                invariant
                    i <= j < self.keys.len(),
                    pair_views(pairs@) == before + code_partners(self@, j as int, i as int),
                decreases j - i,
            {
                let ghost sofar = pair_views(pairs@);
                if self.keys[i].code == self.keys[j].code {
                    pairs.push((&self.keys[i], &self.keys[j]));
                    assert(pair_views(pairs@) =~= sofar.push((self@[i as int], self@[j as int])));
                }
                assert(pair_views(pairs@) =~= before + code_partners(self@, j as int, i + 1));
                i += 1;
            }
            j += 1;
        }
        pairs
    }

    /// The keys of a category, sorted by name.
    pub fn by_category(&self, category: KeyCategory) -> (keys: Vec<&KeyCode>)
        ensures
            ref_views(keys@) == listing(self@, category),
    {
        let ghost wanted = of_category(category);
        let ghost order = name_order();
        let mut picked: Vec<&KeyCode> = Vec::new();
        let mut i: usize = 0;
        assert(self@.take(0) =~= Seq::empty());
        assert(ref_views(picked@) =~= self@.take(0).filter(wanted)) by {
            reveal(Seq::filter);
        }
        while i < self.keys.len()
            invariant
                i <= self.keys.len(),
                wanted == of_category(category),
                ref_views(picked@) == self@.take(i as int).filter(wanted),
            decreases self.keys.len() - i,
        {
            proof {
                assert(self@.take(i + 1) =~= self@.take(i as int).push(self@[i as int]));
                self@.take(i as int).lemma_filter_push(self@[i as int], wanted);
            }
            if self.keys[i].category == category {
                picked.push(&self.keys[i]);
                assert(ref_views(picked@) =~= self@.take(i as int).filter(wanted).push(
                    self@[i as int],
                ));
            }
            i += 1;
        }
        assert(self@.take(i as int) =~= self@);
        let mut out: Vec<&KeyCode> = Vec::new();
        let mut n: usize = 0;
        assert(ref_views(picked@).take(0) =~= Seq::empty());
        assert(ref_views(out@) =~= Seq::empty());
        while n < picked.len()
            invariant
                n <= picked.len(),
                order == name_order(),
                ref_views(out@) == arranged(ref_views(picked@).take(n as int), order),
            decreases picked.len() - n,
        {
            let key: &KeyCode = picked[n];
            let name = chars_of(key.name.as_str());
            let ghost r = ref_views(out@);
            let mut p: usize = 0;
            assert(r.skip(0) =~= r);
            while p < out.len() && !comes_before(&name, &chars_of(out[p].name.as_str()))
                invariant
                    p <= out.len(),
                    r == ref_views(out@),
                    order == name_order(),
                    name@ == key@.name,
                    slot(r, key@, order) == p + slot(r.skip(p as int), key@, order),
                decreases out.len() - p,
            {
                assert(r.skip(p as int).drop_first() =~= r.skip(p + 1));
                assert(r.skip(p as int)[0] == out@[p as int]@);
                p += 1;
            }
            proof {
                if p < out.len() {
                    assert(r.skip(p as int)[0] == out@[p as int]@);
                }
                let before = ref_views(picked@).take(n as int);
                let now = ref_views(picked@).take(n + 1);
                assert(now.drop_last() =~= before);
                assert(now.last() == key@);
            }
            out.insert(p, key);
            assert(ref_views(out@) =~= r.insert(p as int, key@));
            n += 1;
        }
        assert(ref_views(picked@).take(n as int) =~= ref_views(picked@));
        out
    }

    /// All keys, in catalog order.
    pub fn all_keys(&self) -> (keys: Vec<&KeyCode>)
        ensures
            ref_views(keys@) == self@,
    {
        let mut out: Vec<&KeyCode> = Vec::new();
        let mut i: usize = 0;
        while i < self.keys.len()
            invariant
                i <= self.keys.len(),
                out@.len() == i,
                forall|k: int| 0 <= k < i ==> (#[trigger] out@[k])@ == self@[k],
            decreases self.keys.len() - i,
        {
            out.push(&self.keys[i]);
            i += 1;
        }
        assert(ref_views(out@) =~= self@);
        out
    }

    /// The number of keys of a category.
    fn count_in(&self, category: KeyCategory) -> (n: usize)
        ensures
            n == self@.filter(of_category(category)).len(),
    {
        let ghost wanted = of_category(category);
        let mut n: usize = 0;
        let mut i: usize = 0;
        assert(self@.take(0) =~= Seq::empty());
        assert(self@.take(0).filter(wanted).len() == 0) by {
            reveal(Seq::filter);
        }
        while i < self.keys.len()
            invariant
                i <= self.keys.len(),
                n <= i,
                wanted == of_category(category),
                n == self@.take(i as int).filter(wanted).len(),
            decreases self.keys.len() - i,
        {
            proof {
                assert(self@.take(i + 1) =~= self@.take(i as int).push(self@[i as int]));
                self@.take(i as int).lemma_filter_push(self@[i as int], wanted);
            }
            if self.keys[i].category == category {
                n += 1;
            }
            i += 1;
        }
        assert(self@.take(i as int) =~= self@);
        n
    }

    /// The categories that have keys, each with the number of its keys,
    /// ordered by the name of the category.
    pub fn categories(&self) -> (counts: Vec<(KeyCategory, usize)>)
        ensures
            counts@ == all_category_counts(self@),
    {
        let order: [KeyCategory; 8] = [
            KeyCategory::FunctionKeys,
            KeyCategory::Letters,
            KeyCategory::ModifierKeys,
            KeyCategory::NavigationKeys,
            KeyCategory::Numbers,
            KeyCategory::NumpadKeys,
            KeyCategory::Punctuation,
            KeyCategory::SpecialKeys,
        ];
        assert(order@ =~= categories_by_name());
        let mut counts: Vec<(KeyCategory, usize)> = Vec::new();
        let mut c: usize = 0;
        while c < 8
            invariant
                c <= 8,
                order@ == categories_by_name(),
                counts@ == category_counts(self@, c as int),
            decreases 8 - c,
        {
            let category = order[c];
            let n = self.count_in(category);
            if n > 0 {
                counts.push((category, n));
            }
            assert(counts@ =~= category_counts(self@, c as int) + count_row(self@, category));
            c += 1;
        }
        counts
    }

    /// The keys that a query finds: those that answer to it and, where none
    /// does and `fuzzy` is set, those whose name holds it.
    pub fn search(&self, query: &str, fuzzy: bool) -> (keys: Vec<&KeyCode>)
        ensures
            ref_views(keys@) == search_result(self@, query@, fuzzy),
    {
        proof {
            use_type_invariant(self);
        }
        let ghost exact = answering(query@);
        let wanted = to_lowercase(query);
        let mut out: Vec<&KeyCode> = Vec::new();
        let mut i: usize = 0;
        assert(self@.take(0) =~= Seq::empty());
        assert(ref_views(out@) =~= self@.take(0).filter(exact)) by {
            reveal(Seq::filter);
        }
        while i < self.keys.len()
            invariant
                self.wf(),
                i <= self.keys.len(),
                wanted@ == folded(query@),
                exact == answering(query@),
                ref_views(out@) == self@.take(i as int).filter(exact),
            decreases self.keys.len() - i,
        {
            let hit = holds(&self.folded[i], &wanted);
            proof {
                lemma_holds_is_answer(self.folded@[i as int]@, self@[i as int], query@);
                assert(self@.take(i + 1) =~= self@.take(i as int).push(self@[i as int]));
                self@.take(i as int).lemma_filter_push(self@[i as int], exact);
            }
            if hit {
                out.push(&self.keys[i]);
                assert(ref_views(out@) =~= self@.take(i as int).filter(exact).push(
                    self@[i as int],
                ));
            }
            i += 1;
        }
        assert(self@.take(i as int) =~= self@);
        if !(out.len() == 0 && fuzzy) {
            return out;
        }
        let ghost inside = name_holding(query@);
        let needle = chars_of(wanted.as_str());
        let mut i: usize = 0;
        assert(ref_views(out@) =~= self@.take(0).filter(inside)) by {
            reveal(Seq::filter);
        }
        while i < self.keys.len()
            invariant
                self.wf(),
                i <= self.keys.len(),
                needle@ == folded(query@),
                inside == name_holding(query@),
                ref_views(out@) == self@.take(i as int).filter(inside),
            decreases self.keys.len() - i,
        {
            proof {
                let cached = self.folded@[i as int]@;
                assert(string_views(cached).len() == cached.len());
                assert(folded_labels(self@[i as int]).len() == self@[i as int].labels().len());
                assert(string_views(cached)[0] == folded_labels(self@[i as int])[0]);
                assert(self@[i as int].labels()[0] == self@[i as int].name);
                assert(self@.take(i + 1) =~= self@.take(i as int).push(self@[i as int]));
                self@.take(i as int).lemma_filter_push(self@[i as int], inside);
            }
            let hay = chars_of(self.folded[i][0].as_str());
            if has_substring(&hay, &needle) {
                out.push(&self.keys[i]);
                assert(ref_views(out@) =~= self@.take(i as int).filter(inside).push(
                    self@[i as int],
                ));
            }
            i += 1;
        }
        assert(self@.take(i as int) =~= self@);
        out
    }

    /// The built-in catalog.
    pub fn create_all_keys() -> (keys: Vec<KeyCode>)
        ensures
            key_views(keys@) == catalog(),
    {
        let mut keys = letter_keys();
        let mut group = number_keys();
        keys.append(&mut group);
        let mut group = function_keys();
        keys.append(&mut group);
        let mut group = modifier_keys();
        keys.append(&mut group);
        let mut group = navigation_keys();
        keys.append(&mut group);
        let mut group = special_keys();
        keys.append(&mut group);
        let mut group = numpad_keys();
        keys.append(&mut group);
        let mut group = punctuation_keys();
        keys.append(&mut group);
        assert(key_views(keys@) =~= catalog()) by {
            reveal(catalog);
        }
        keys
    }
}

} // verus!
