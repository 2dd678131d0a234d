//! Stable arrangement of a sequence under a relation "comes before": what
//! the sorted listings of this crate are stated over.

use vstd::prelude::*;
use vstd::seq_lib::{to_multiset_build, to_multiset_insert};

verus! {

/// The place of `x` in an arranged sequence `r`: behind every leading item
/// that `x` does not come before, so behind its equals.
pub open spec fn slot<T>(r: Seq<T>, x: T, before: spec_fn(T, T) -> bool) -> int
    decreases r.len(),
{
    if r.len() == 0 {
        0
    } else if before(x, r[0]) {
        0
    } else {
        1 + slot(r.drop_first(), x, before)
    }
}

/// The items of `s` arranged so that none comes before an item ahead of it,
/// items that are equal under `before` keeping the order they had in `s`.
pub open spec fn arranged<T>(s: Seq<T>, before: spec_fn(T, T) -> bool) -> Seq<T>
    decreases s.len(),
{
    if s.len() == 0 {
        Seq::empty()
    } else {
        let r = arranged(s.drop_last(), before);
        r.insert(slot(r, s.last(), before), s.last())
    }
}

/// `before` is a strict order: no two items come before each other, and it
/// is transitive.
pub open spec fn strict_order<T>(before: spec_fn(T, T) -> bool) -> bool {
    &&& forall|a: T, b: T| #[trigger] before(a, b) ==> !before(b, a)
    &&& forall|a: T, b: T, c: T| #[trigger] before(a, b) && #[trigger] before(b, c) ==> before(a, c)
}

/// No item of `r` comes before an item that stands ahead of it.
pub open spec fn ordered<T>(r: Seq<T>, before: spec_fn(T, T) -> bool) -> bool {
    forall|i: int, j: int| 0 <= i < j < r.len() ==> !before(#[trigger] r[j], #[trigger] r[i])
}

/// The place of an item lies within the sequence or at its end; the item
/// comes before none of the items ahead of that place, and before the item
/// at that place.
pub proof fn lemma_slot<T>(r: Seq<T>, x: T, before: spec_fn(T, T) -> bool)
    ensures
        0 <= slot(r, x, before) <= r.len(),
        forall|i: int| 0 <= i < slot(r, x, before) ==> !before(x, #[trigger] r[i]),
        slot(r, x, before) < r.len() ==> before(x, r[slot(r, x, before)]),
    decreases r.len(),
{
    if r.len() > 0 && !before(x, r[0]) {
        let rest = r.drop_first();
        lemma_slot(rest, x, before);
        assert forall|i: int| 0 <= i < slot(r, x, before) implies !before(x, #[trigger] r[i]) by {
            if i > 0 {
                assert(r[i] == rest[i - 1]);
            }
        }
        if slot(r, x, before) < r.len() {
            assert(r[slot(r, x, before)] == rest[slot(rest, x, before)]);
        }
    }
}

/// Arranging keeps every item, as often as it occurred.
pub proof fn lemma_arranged_permutes<T>(s: Seq<T>, before: spec_fn(T, T) -> bool)
    ensures
        arranged(s, before).len() == s.len(),
        arranged(s, before).to_multiset() == s.to_multiset(),
    decreases s.len(),
{
    if s.len() == 0 {
        assert(arranged(s, before) =~= s);
    } else {
        let r = arranged(s.drop_last(), before);
        lemma_arranged_permutes(s.drop_last(), before);
        lemma_slot(r, s.last(), before);
        to_multiset_insert(r, slot(r, s.last(), before), s.last());
        to_multiset_build(s.drop_last(), s.last());
        assert(s.drop_last().push(s.last()) =~= s);
    }
}

/// Under a strict order the arranged sequence is ordered.
pub proof fn lemma_arranged_ordered<T>(s: Seq<T>, before: spec_fn(T, T) -> bool)
    requires
        strict_order(before),
    ensures
        ordered(arranged(s, before), before),
    decreases s.len(),
{
    if s.len() > 0 {
        let r = arranged(s.drop_last(), before);
        let x = s.last();
        let p = slot(r, x, before);
        let out = r.insert(p, x);
        lemma_arranged_ordered(s.drop_last(), before);
        lemma_slot(r, x, before);
        assert forall|i: int, j: int| 0 <= i < j < out.len() implies !before(
            #[trigger] out[j],
            #[trigger] out[i],
        ) by {
            if j == p {
                assert(out[i] == r[i]);
            } else if i == p {
                assert(out[j] == r[j - 1]);
                if before(r[j - 1], x) {
                    assert(before(x, r[p]));
                    assert(before(r[j - 1], r[p]));
                }
            } else {
                let a = if i < p { i } else { i - 1 };
                let b = if j < p { j } else { j - 1 };
                assert(out[i] == r[a] && out[j] == r[b]);
            }
        }
    }
}

} // verus!
