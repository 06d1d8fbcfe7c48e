//! A stable insertion-sort step, as a specification.
//!
//! The passes keep their collected sections in ascending address order.  They
//! build the ordered sequence one element at a time; this module gives the
//! insertion step its mathematical definition and the facts the passes need
//! about it.

use vstd::prelude::*;

verus! {

/// Insert `x` into `s` after every element whose key is at most `key(x)`.
///
/// This is the insertion step of a stable insertion sort: an element inserted
/// later never moves in front of an earlier element with the same key.
pub open spec fn insert_sorted_by<T>(s: Seq<T>, x: T, key: spec_fn(T) -> u64) -> Seq<T>
    decreases s.len(),
{
    if s.len() == 0 {
        seq![x]
    } else if key(s[0]) <= key(x) {
        seq![s[0]] + insert_sorted_by(s.drop_first(), x, key)
    } else {
        seq![x] + s
    }
}

/// The elements of `s` are in ascending key order.
pub open spec fn sorted_by_key<T>(s: Seq<T>, key: spec_fn(T) -> u64) -> bool {
    forall|a: int, b: int| 0 <= a < b < s.len() ==> key(s[a]) <= key(s[b])
}

/// Inserting splits the sequence at the first position `j` whose key exceeds
/// the inserted key: the result is `s` with `x` placed at position `j`.
pub proof fn lemma_insert_sorted_by_split<T>(s: Seq<T>, x: T, key: spec_fn(T) -> u64, j: int)
    requires
        0 <= j <= s.len(),
        forall|i: int| 0 <= i < j ==> key(#[trigger] s[i]) <= key(x),
        j == s.len() || key(s[j]) > key(x),
    ensures
        insert_sorted_by(s, x, key) == s.take(j) + seq![x] + s.skip(j),
    decreases s.len(),
{
    if s.len() == 0 {
        assert(insert_sorted_by(s, x, key) =~= s.take(j) + seq![x] + s.skip(j));
    } else if j == 0 {
        assert(insert_sorted_by(s, x, key) =~= s.take(0) + seq![x] + s.skip(0));
    } else {
        assert(key(s[0]) <= key(x));
        let d = s.drop_first();
        assert(forall|i: int| 0 <= i < j - 1 ==> key(#[trigger] d[i]) <= key(x)) by {
            assert(forall|i: int| 0 <= i < j - 1 ==> d[i] == s[i + 1]);
        }
        lemma_insert_sorted_by_split(d, x, key, j - 1);
        assert(seq![s[0]] + (d.take(j - 1) + seq![x] + d.skip(j - 1)) =~= s.take(j) + seq![x]
            + s.skip(j));
    }
}

/// The position at which [`insert_sorted_by`] places the new element: the
/// length of the longest prefix whose keys are all at most the inserted key.
pub proof fn insert_pos_witness<T>(s: Seq<T>, x: T, key: spec_fn(T) -> u64) -> (j: int)
    ensures
        0 <= j <= s.len(),
        forall|i: int| 0 <= i < j ==> key(#[trigger] s[i]) <= key(x),
        j == s.len() || key(s[j]) > key(x),
    decreases s.len(),
{
    if s.len() == 0 {
        0
    } else if key(s[0]) > key(x) {
        0
    } else {
        let d = s.drop_first();
        let jd = insert_pos_witness(d, x, key);
        let j: int = jd + 1;
        assert(forall|i: int| 0 <= i < j ==> key(#[trigger] s[i]) <= key(x)) by {
            assert(forall|i: int| 1 <= i < j ==> s[i] == d[i - 1]);
        }
        j
    }
}

/// Inserting into a key-ordered sequence keeps it key-ordered.
pub proof fn lemma_insert_sorted_by_sorted<T>(s: Seq<T>, x: T, key: spec_fn(T) -> u64, j: int)
    requires
        sorted_by_key(s, key),
        0 <= j <= s.len(),
        forall|i: int| 0 <= i < j ==> key(#[trigger] s[i]) <= key(x),
        j == s.len() || key(s[j]) > key(x),
    ensures
        sorted_by_key(insert_sorted_by(s, x, key), key),
{
    lemma_insert_sorted_by_split(s, x, key, j);
    let r = insert_sorted_by(s, x, key);
    assert forall|a: int, b: int| 0 <= a < b < r.len() implies key(r[a]) <= key(r[b]) by {
        if a < j {
            assert(r[a] == s[a]);
        }
        if b < j {
            assert(r[b] == s[b]);
        }
        if a > j {
            assert(r[a] == s[a - 1]);
        }
        if b > j {
            assert(r[b] == s[b - 1]);
        }
        if a == j {
            assert(r[a] == x);
        }
        if b == j {
            assert(r[b] == x);
        }
    }
}

} // verus!
