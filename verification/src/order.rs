//! The order in which the engine keeps string keys.
//!
//! Strings are ordered as Rust orders `str`: letter by letter, by code point,
//! a proper prefix coming before the longer string.

use vstd::prelude::*;

verus! {

/// `a` comes strictly before `b`.
pub open spec fn precedes(a: Seq<char>, b: Seq<char>) -> bool
    decreases a.len(),
{
    if b.len() == 0 {
        false
    } else if a.len() == 0 {
        true
    } else if a[0] == b[0] {
        precedes(a.drop_first(), b.drop_first())
    } else {
        a[0] < b[0]
    }
}

/// Every element comes strictly before each later one.
pub open spec fn ascending(keys: Seq<Seq<char>>) -> bool {
    forall|i: int, j: int| 0 <= i < j < keys.len() ==> precedes(#[trigger] keys[i], #[trigger] keys[j])
}

/// `keys` lists, in ascending order, exactly the keys of `table` that do not
/// come before `lower`.
pub open spec fn lists_from(
    keys: Seq<Seq<char>>,
    table: Map<Seq<char>, Seq<char>>,
    lower: Seq<char>,
) -> bool {
    &&& ascending(keys)
    &&& forall|k: Seq<char>| #[trigger]
        keys.contains(k) <==> table.contains_key(k) && !precedes(k, lower)
}

/// `keys` lists, in ascending order, exactly the keys of `table`.
pub open spec fn lists(keys: Seq<Seq<char>>, table: Map<Seq<char>, Seq<char>>) -> bool {
    &&& ascending(keys)
    &&& forall|k: Seq<char>| #[trigger] keys.contains(k) <==> table.contains_key(k)
}

/// No string comes before itself.
pub proof fn lemma_precedes_irreflexive(a: Seq<char>)
    ensures
        !precedes(a, a),
    decreases a.len(),
{
    if a.len() > 0 {
        lemma_precedes_irreflexive(a.drop_first());
    }
}

/// Of two strings at most one comes before the other.
pub proof fn lemma_precedes_asymmetric(a: Seq<char>, b: Seq<char>)
    requires
        precedes(a, b),
    ensures
        !precedes(b, a),
    decreases a.len(),
{
    if a.len() > 0 && b.len() > 0 && a[0] == b[0] {
        lemma_precedes_asymmetric(a.drop_first(), b.drop_first());
    }
}

/// Of two different strings one comes before the other.
pub proof fn lemma_precedes_total(a: Seq<char>, b: Seq<char>)
    ensures
        a == b || precedes(a, b) || precedes(b, a),
    decreases a.len(),
{
    if a.len() > 0 && b.len() > 0 && a[0] == b[0] {
        lemma_precedes_total(a.drop_first(), b.drop_first());
        if a.drop_first() == b.drop_first() {
            assert(a =~= seq![a[0]] + a.drop_first());
            assert(b =~= seq![b[0]] + b.drop_first());
        }
    } else if a.len() == 0 && b.len() == 0 {
        assert(a =~= b);
    }
}

/// Nothing comes before the empty string, so a walk from it meets every
/// key.
pub proof fn lemma_lists_from_empty(keys: Seq<Seq<char>>, table: Map<Seq<char>, Seq<char>>)
    ensures
        lists_from(keys, table, Seq::empty()) <==> lists(keys, table),
{
    assert forall|k: Seq<char>| !precedes(k, Seq::empty()) by {}
}

/// An ascending sequence holds no string twice.
pub proof fn lemma_ascending_no_duplicates(keys: Seq<Seq<char>>)
    requires
        ascending(keys),
    ensures
        keys.no_duplicates(),
{
    assert forall|i: int, j: int| 0 <= i < keys.len() && 0 <= j < keys.len() && i != j implies keys[i]
        != keys[j] by {
        if i < j {
            assert(precedes(keys[i], keys[j]));
        } else {
            assert(precedes(keys[j], keys[i]));
        }
        lemma_precedes_irreflexive(keys[i]);
    }
}

/// A set of keys has one ascending listing: two ascending sequences with
/// the same elements are the same sequence.
pub proof fn lemma_ascending_unique(a: Seq<Seq<char>>, b: Seq<Seq<char>>)
    requires
        ascending(a),
        ascending(b),
        forall|k: Seq<char>| a.contains(k) <==> b.contains(k),
    ensures
        a == b,
    decreases a.len(),
{
    if a.len() == 0 {
        if b.len() > 0 {
            assert(b.contains(b[0]));
            assert(a.contains(b[0]));
        }
        assert(a =~= b);
    } else {
        assert(a.contains(a[0]));
        assert(b.contains(a[0]));
        let j = choose|j: int| 0 <= j < b.len() && b[j] == a[0];
        assert(b.contains(b[0]));
        assert(a.contains(b[0]));
        let i = choose|i: int| 0 <= i < a.len() && a[i] == b[0];
        if j > 0 {
            assert(precedes(b[0], b[j]));
            if i > 0 {
                assert(precedes(a[0], a[i]));
                lemma_precedes_asymmetric(a[0], b[0]);
            }
            lemma_precedes_irreflexive(a[0]);
        }
        assert(a[0] == b[0]);
        let ta = a.drop_first();
        let tb = b.drop_first();
        assert forall|k: Seq<char>| ta.contains(k) <==> tb.contains(k) by {
            if ta.contains(k) {
                let m = choose|m: int| 0 <= m < ta.len() && ta[m] == k;
                assert(precedes(a[0], a[m + 1]));
                lemma_precedes_irreflexive(k);
                assert(a.contains(a[m + 1]));
                let n = choose|n: int| 0 <= n < b.len() && b[n] == k;
                assert(tb[n - 1] == k);
            }
            if tb.contains(k) {
                let m = choose|m: int| 0 <= m < tb.len() && tb[m] == k;
                assert(precedes(b[0], b[m + 1]));
                lemma_precedes_irreflexive(k);
                assert(b.contains(b[m + 1]));
                let n = choose|n: int| 0 <= n < a.len() && a[n] == k;
                assert(ta[n - 1] == k);
            }
        }
        assert forall|p: int, q: int| 0 <= p < q < ta.len() implies precedes(
            #[trigger] ta[p],
            #[trigger] ta[q],
        ) by {
            assert(precedes(a[p + 1], a[q + 1]));
        }
        assert forall|p: int, q: int| 0 <= p < q < tb.len() implies precedes(
            #[trigger] tb[p],
            #[trigger] tb[q],
        ) by {
            assert(precedes(b[p + 1], b[q + 1]));
        }
        lemma_ascending_unique(ta, tb);
        assert(a =~= seq![a[0]] + ta);
        assert(b =~= seq![b[0]] + tb);
    }
}

} // verus!
