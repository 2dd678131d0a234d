//! Ranking of the keys by how well their names fit a query. The fit of one
//! name is scored by the skim matcher of the `fuzzy-matcher` crate; which
//! names are scored, which scores count and how the hits are ranked is
//! decided here.

use fuzzy_matcher::skim::SkimMatcherV2;
use fuzzy_matcher::FuzzyMatcher;
use vstd::prelude::*;

use crate::keycode::database::KeyDatabase;
use crate::keycode::model::ref_views;
use crate::keycode::types::{KeyCode, KeyCodeView};
use crate::order::{arranged, lemma_arranged_ordered, lemma_arranged_permutes, slot, strict_order};

verus! {

/// Labels with more characters than this are not scored: they fit no query.
pub const MAX_LABEL_CHARS: usize = 65536;

/// The score that the skim matcher, with its default scoring and with case
/// ignored, gives to `choice` for the pattern `pattern`; `None` where the
/// pattern does not fit.
pub uninterp spec fn skim_score(choice: Seq<char>, pattern: Seq<char>) -> Option<i64>;

/// Calls `SkimMatcherV2::fuzzy_match` on a matcher made for this one call by
/// `SkimMatcherV2::default().ignore_case()`. A matcher keeps scratch memory
/// from one call to the next, so only a fresh one gives a score that
/// depends on the two strings alone; the contract claims that it does, and
/// that an empty pattern scores 0 on every choice. The scores are sums of a
/// few dozen points for each character, which the bound on the length of
/// `choice` keeps far from the limits of the matcher's integers.
#[verifier::external_body]
fn skim_match(choice: &str, pattern: &str) -> (score: Option<i64>)
    requires
        choice@.len() <= MAX_LABEL_CHARS,
    ensures
        score == skim_score(choice@, pattern@),
        pattern@.len() == 0 ==> score == Some(0i64),
{
    SkimMatcherV2::default().ignore_case().fuzzy_match(choice, pattern)
}

/// The score of one label for a query: that of the matcher, for labels
/// short enough to be scored.
pub open spec fn label_score(label: Seq<char>, query: Seq<char>) -> Option<i64> {
    if label.len() <= MAX_LABEL_CHARS {
        skim_score(label, query)
    } else {
        None
    }
}

/// The scores of a list of labels for a query, label by label.
pub open spec fn label_scores(labels: Seq<Seq<char>>, query: Seq<char>) -> Seq<Option<i64>> {
    Seq::new(labels.len(), |l: int| label_score(labels[l], query))
}

/// The first score that there is in `scores[from..]`.
pub open spec fn first_fit(scores: Seq<Option<i64>>, from: int) -> Option<i64>
    decreases scores.len() - from,
{
    if from < 0 || from >= scores.len() {
        None
    } else {
        match scores[from] {
            Some(score) => Some(score),
            None => first_fit(scores, from + 1),
        }
    }
}

/// The score of a key for a query: that of its name where the name fits,
/// else that of the first alias that fits. A key has one score, however
/// many of its labels fit.
pub open spec fn key_score(key: KeyCodeView, query: Seq<char>) -> Option<i64> {
    first_fit(label_scores(key.labels(), query), 0)
}

/// The keys that fit a query, each with its score, in the order of `keys`.
pub open spec fn scored(keys: Seq<KeyCodeView>, query: Seq<char>) -> Seq<(KeyCodeView, i64)>
    decreases keys.len(),
{
    if keys.len() == 0 {
        Seq::empty()
    } else {
        let rest = scored(keys.drop_last(), query);
        match key_score(keys.last(), query) {
            Some(score) => rest.push((keys.last(), score)),
            None => rest,
        }
    }
}

/// The test "has a score above zero".
pub open spec fn positive() -> spec_fn((KeyCodeView, i64)) -> bool {
    |hit: (KeyCodeView, i64)| hit.1 > 0
}

/// The order of hits: the higher score first.
pub open spec fn score_order() -> spec_fn((KeyCodeView, i64), (KeyCodeView, i64)) -> bool {
    |a: (KeyCodeView, i64), b: (KeyCodeView, i64)| a.1 > b.1
}

/// The best of a list of scored keys: those with a score above zero, the
/// higher score first and equal scores in the order of the list, cut to
/// `limit` entries.
pub open spec fn best(hits: Seq<(KeyCodeView, i64)>, limit: int) -> Seq<(KeyCodeView, i64)> {
    let ranked = arranged(hits.filter(positive()), score_order());
    if 0 <= limit < ranked.len() {
        ranked.take(limit)
    } else {
        ranked
    }
}

/// The score of a fit, 0 where there is none.
pub open spec fn or_zero(score: Option<i64>) -> i64 {
    match score {
        Some(points) => points,
        None => 0,
    }
}

/// How well two strings fit each other: the better of the scores of the one
/// as a query for the other, 0 where neither fits.
pub open spec fn best_score(a: Seq<char>, b: Seq<char>) -> i64 {
    let forth = or_zero(label_score(a, b));
    let back = or_zero(label_score(b, a));
    if forth >= back {
        forth
    } else {
        back
    }
}

/// The plain values of a list of scored keys.
pub open spec fn hit_views(hits: Seq<(&KeyCode, i64)>) -> Seq<(KeyCodeView, i64)> {
    Seq::new(hits.len(), |i: int| (hits[i].0@, hits[i].1))
}

/// The keys that fit a query are keys of the list, each is there once for
/// each time it is in the list, and each has the score of the key.
pub proof fn lemma_scored_entries(keys: Seq<KeyCodeView>, query: Seq<char>)
    ensures
        scored(keys, query).len() <= keys.len(),
        forall|i: int|
            0 <= i < scored(keys, query).len() ==> keys.contains(
                (#[trigger] scored(keys, query)[i]).0,
            ) && key_score(scored(keys, query)[i].0, query) == Some(scored(keys, query)[i].1),
    decreases keys.len(),
{
    if keys.len() > 0 {
        let front = keys.drop_last();
        let rest = scored(front, query);
        let out = scored(keys, query);
        lemma_scored_entries(front, query);
        assert(keys[keys.len() - 1] == keys.last());
        assert forall|i: int| 0 <= i < out.len() implies keys.contains((#[trigger] out[i]).0)
            && key_score(out[i].0, query) == Some(out[i].1) by {
            if i < rest.len() {
                assert(out[i] == rest[i]);
                let k = choose|k: int| 0 <= k < front.len() && front[k] == rest[i].0;
                assert(keys[k] == front[k]);
            }
        }
    }
}

/// The order of hits by their scores is a strict order.
pub proof fn lemma_score_order_strict()
    ensures
        strict_order(score_order()),
{
}

/// What holds of the best of a list of scored keys: there are at most
/// `limit` of them, each has a score above zero, and none has a higher score
/// than one ahead of it.
pub proof fn lemma_best_ranked(hits: Seq<(KeyCodeView, i64)>, limit: int)
    requires
        0 <= limit,
    ensures
        best(hits, limit).len() <= limit,
        best(hits, limit).len() <= hits.len(),
        forall|i: int| 0 <= i < best(hits, limit).len() ==> (#[trigger] best(hits, limit)[i]).1 > 0,
        forall|i: int|
            0 <= i < best(hits, limit).len() ==> hits.contains(#[trigger] best(hits, limit)[i]),
        forall|i: int, j: int|
            0 <= i < j < best(hits, limit).len() ==> (#[trigger] best(hits, limit)[i]).1 >= (
            #[trigger] best(hits, limit)[j]).1,
{
    let kept = hits.filter(positive());
    let ranked = arranged(kept, score_order());
    let out = best(hits, limit);
    lemma_score_order_strict();
    lemma_arranged_permutes(kept, score_order());
    lemma_arranged_ordered(kept, score_order());
    hits.lemma_filter_len(positive());
    assert forall|i: int| 0 <= i < out.len() implies (#[trigger] out[i]).1 > 0 && hits.contains(
        out[i],
    ) by {
        assert(out[i] == ranked[i]);
        ranked.to_multiset_ensures();
        kept.to_multiset_ensures();
        assert(ranked.contains(ranked[i]));
        assert(ranked.to_multiset().count(ranked[i]) > 0);
        assert(kept.to_multiset().count(ranked[i]) > 0);
        assert(kept.contains(ranked[i]));
        hits.lemma_filter_contains_rev(positive(), ranked[i]);
        let k = choose|k: int| 0 <= k < kept.len() && kept[k] == ranked[i];
        hits.lemma_filter_pred(positive(), k);
    }
    assert forall|i: int, j: int| 0 <= i < j < out.len() implies (#[trigger] out[i]).1 >= (
    #[trigger] out[j]).1 by {
        assert(out[i] == ranked[i] && out[j] == ranked[j]);
        assert(!score_order()(ranked[j], ranked[i]));
    }
}

/// Two searches for one query in one database rank the same keys with the
/// same scores.
pub proof fn lemma_search_keys_repeats(
    db: &KeyDatabase,
    query: &str,
    limit: usize,
    first: Vec<(&KeyCode, i64)>,
    second: Vec<(&KeyCode, i64)>,
)
    requires
        hit_views(first@) == best(scored(db@, query@), limit as int),
        hit_views(second@) == best(scored(db@, query@), limit as int),
    ensures
        hit_views(first@) == hit_views(second@),
{
}

/// The score of one label for a query.
fn score_label(label: &str, query: &str) -> (score: Option<i64>)
    ensures
        score == label_score(label@, query@),
{
    if label.unicode_len() <= MAX_LABEL_CHARS {
        skim_match(label, query)
    } else {
        None
    }
}

/// The score that counts of the scores of the labels of a key: the first
/// that there is.
pub fn first_score(scores: &Vec<Option<i64>>) -> (score: Option<i64>)
    ensures
        score == first_fit(scores@, 0),
{
    let mut l: usize = 0;
    while l < scores.len()
        invariant
            l <= scores.len(),
            first_fit(scores@, 0) == first_fit(scores@, l as int),
        decreases scores.len() - l,
    {
        match scores[l] {
            Some(score) => {
                return Some(score);
            },
            None => {},
        }
        l += 1;
    }
    None
}

/// The score of a key for a query.
fn score_key(key: &KeyCode, query: &str) -> (score: Option<i64>)
    ensures
        score == key_score(key@, query@),
{
    let ghost labels = key@.labels();
    let mut scores: Vec<Option<i64>> = Vec::new();
    scores.push(score_label(key.name.as_str(), query));
    assert(labels[0] == key@.name);
    let mut a: usize = 0;
    while a < key.aliases.len()
        invariant
            a <= key.aliases.len(),
            labels == key@.labels(),
            scores@.len() == a + 1,
            forall|l: int| 0 <= l <= a ==> #[trigger] scores@[l] == label_score(labels[l], query@),
        decreases key.aliases.len() - a,
    {
        assert(labels[a + 1] == key@.aliases[a as int]);
        scores.push(score_label(key.aliases[a].as_str(), query));
        a += 1;
    }
    assert(scores@ =~= label_scores(labels, query@));
    first_score(&scores)
}

/// Picks the best of a list of scored keys: drops the scores that are not
/// above zero, ranks the rest from the highest score down, equal scores in
/// the order in which they came, and keeps the first `limit`.
pub fn best_hits<'a>(hits: Vec<(&'a KeyCode, i64)>, limit: usize) -> (out: Vec<(&'a KeyCode, i64)>)
    ensures
        hit_views(out@) == best(hit_views(hits@), limit as int),
{
    let ghost all = hit_views(hits@);
    let ghost keep = positive();
    let ghost order = score_order();
    let mut out: Vec<(&'a KeyCode, i64)> = Vec::new();
    let mut n: usize = 0;
    assert(all.take(0) =~= Seq::empty());
    assert(all.take(0).filter(keep) =~= Seq::empty()) by {
        reveal(Seq::filter);
    }
    assert(hit_views(out@) =~= Seq::empty());
    while n < hits.len()
        invariant
            n <= hits.len(),
            all == hit_views(hits@),
            keep == positive(),
            order == score_order(),
            hit_views(out@) == arranged(all.take(n as int).filter(keep), order),
        decreases hits.len() - n,
    {
        let hit: (&'a KeyCode, i64) = hits[n];
        let ghost r = hit_views(out@);
        let ghost x = (hit.0@, hit.1);
        proof {
            assert(all[n as int] == x);
            assert(all.take(n + 1) =~= all.take(n as int).push(x));
            all.take(n as int).lemma_filter_push(x, keep);
        }
        if hit.1 > 0 {
            let mut p: usize = 0;
            assert(r.skip(0) =~= r);
            while p < out.len() && !(hit.1 > out[p].1)
                invariant
                    p <= out.len(),
                    r == hit_views(out@),
                    order == score_order(),
                    x == (hit.0@, hit.1),
                    slot(r, x, order) == p + slot(r.skip(p as int), x, order),
                decreases out.len() - p,
            {
                assert(r.skip(p as int).drop_first() =~= r.skip(p + 1));
                assert(r.skip(p as int)[0] == r[p as int]);
                p += 1;
            }
            proof {
                if p < out.len() {
                    assert(r.skip(p as int)[0] == r[p as int]);
                }
                let kept = all.take(n as int).filter(keep).push(x);
                assert(kept.drop_last() =~= all.take(n as int).filter(keep));
            }
            out.insert(p, hit);
            assert(hit_views(out@) =~= r.insert(p as int, x));
        }
        n += 1;
    }
    assert(all.take(n as int) =~= all);
    if limit < out.len() {
        out.truncate(limit);
        assert(hit_views(out@) =~= arranged(all.filter(keep), order).take(limit as int));
    }
    out
}

/// Fuzzy search over the keys of a database.
#[derive(Debug, Clone, Copy)]
pub struct FuzzySearcher {}

impl Default for FuzzySearcher {
    fn default() -> (searcher: FuzzySearcher)
        ensures
            searcher == (FuzzySearcher {  }),
    {
        FuzzySearcher::new()
    }
}

impl FuzzySearcher {
    /// A searcher.
    pub fn new() -> (searcher: FuzzySearcher)
        ensures
            searcher == (FuzzySearcher {  }),
    {
        FuzzySearcher {  }
    }

    /// The two numbers from which the similarity of two strings is made:
    /// how well they fit each other, and the length in bytes of the longer.
    /// The similarity is 0 where the first number is 0, else the first
    /// number divided by a hundred times the second, but no more than 1.
    pub fn similarity_terms(&self, a: &str, b: &str) -> (terms: (i64, usize))
        ensures
            terms.0 == best_score(a@, b@),
            terms.1 == if a.len() >= b.len() {
                a.len()
            } else {
                b.len()
            },
    {
        let forth = match score_label(a, b) {
            Some(points) => points,
            None => 0,
        };
        let back = match score_label(b, a) {
            Some(points) => points,
            None => 0,
        };
        let best = if forth >= back { forth } else { back };
        let longer = if a.len() >= b.len() { a.len() } else { b.len() };
        (best, longer)
    }

    /// The keys that fit a query, best first, at most `limit` of them. A key
    /// is scored by its name or, where the name does not fit, by the first
    /// of its aliases that does; keys whose score is not above zero are left
    /// out; keys with equal scores stand in catalog order.
    pub fn search_keys<'a>(&self, db: &'a KeyDatabase, query: &str, limit: usize) -> (out: Vec<
        (&'a KeyCode, i64),
    >)
        ensures
            hit_views(out@) == best(scored(db@, query@), limit as int),
    {
        let keys = db.all_keys();
        let mut hits: Vec<(&'a KeyCode, i64)> = Vec::new();
        let mut i: usize = 0;
        assert(db@.take(0) =~= Seq::empty());
        assert(hit_views(hits@) =~= Seq::empty());
        while i < keys.len()
            invariant
                i <= keys.len(),
                ref_views(keys@) == db@,
                hit_views(hits@) == scored(db@.take(i as int), query@),
            decreases keys.len() - i,
        {
            let key: &'a KeyCode = keys[i];
            let ghost before = hit_views(hits@);
            proof {
                assert(ref_views(keys@)[i as int] == key@);
                assert(db@.take(i + 1).drop_last() =~= db@.take(i as int));
                assert(db@.take(i + 1).last() == key@);
            }
            match score_key(key, query) {
                Some(score) => {
                    hits.push((key, score));
                    assert(hit_views(hits@) =~= before.push((key@, score)));
                },
                None => {},
            }
            i += 1;
        }
        assert(db@.take(i as int) =~= db@);
        best_hits(hits, limit)
    }
}

} // verus!
