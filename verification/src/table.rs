//! The rows of the bathroom table: each place with its walking distance,
//! nearest first.

use vstd::prelude::*;
use crate::model::TableRoot;

verus! {

broadcast use vstd::seq_lib::group_to_multiset_ensures;

/// Each element paired with its distance: column 0 of the table's first row
/// is the origin itself, so element `i` goes with column `i + 1`.
pub open spec fn paired<T, D>(elements: Seq<T>, distances: Seq<D>) -> Seq<(T, D)> {
    Seq::new(elements.len(), |i: int| (elements[i], distances[i + 1]))
}

/// The rows of the table: each of `elements` with its walking distance from
/// the origin, read from the first row of `table` past its first column
/// (the origin itself), in the order of `elements`.
pub fn bathroom_rows<T, D: Copy>(elements: Vec<T>, table: &TableRoot<D>) -> (rows: Vec<(T, D)>)
    requires
        table.distances.len() > 0,
        table.distances[0].len() == elements.len() + 1,
    ensures
        rows@ == paired(elements@, table.distances[0]@),
{
    let distances = &table.distances[0];
    let ghost all = elements@;
    let mut rows: Vec<(T, D)> = Vec::new();
    for e in it: elements.into_iter()
        invariant
            it.seq() == all,
            distances == table.distances[0],
            distances.len() == all.len() + 1,
            rows@ == paired(all.take(it.index() as int), distances@),
    {
        let i: usize = rows.len();
        rows.push((e, distances[i + 1]));
        proof {
            assert(all.take(it.index() + 1) == all.take(it.index() as int).push(e));
        }
    }
    assert(all.take(all.len() as int) == all);
    rows
}

/// The number of leading rows of `s` whose key is at most `key`: where a row
/// with that key goes in a sorted `s`, after the rows of equal key.
pub open spec fn first_greater<T>(s: Seq<(T, u64)>, key: u64) -> nat
    decreases s.len(),
{
    if s.len() == 0 {
        0
    } else if s[0].1 > key {
        0
    } else {
        1 + first_greater(s.drop_first(), key)
    }
}

/// `s` with `row` inserted after every leading row whose key is no greater.
pub open spec fn insert_by_key<T>(s: Seq<(T, u64)>, row: (T, u64)) -> Seq<(T, u64)> {
    s.insert(first_greater(s, row.1) as int, row)
}

/// The rows of `s` in the order of their keys, rows of equal key in the
/// order they came: each row in turn inserted after the rows of no greater
/// key.
pub open spec fn sorted_by_key<T>(s: Seq<(T, u64)>) -> Seq<(T, u64)>
    decreases s.len(),
{
    if s.len() == 0 {
        s
    } else {
        insert_by_key(sorted_by_key(s.drop_last()), s.last())
    }
}

/// Whether the keys of `s` never decrease.
pub open spec fn keys_ascending<T>(s: Seq<(T, u64)>) -> bool {
    forall|i: int, j: int| 0 <= i < j < s.len() ==> (#[trigger] s[i]).1 <= (#[trigger] s[j]).1
}

/// The rows of `s` whose key is `key`, in order.
pub open spec fn rows_with_key<T>(s: Seq<(T, u64)>, key: u64) -> Seq<(T, u64)>
    decreases s.len(),
{
    if s.len() == 0 {
        s
    } else if s.last().1 == key {
        rows_with_key(s.drop_last(), key).push(s.last())
    } else {
        rows_with_key(s.drop_last(), key)
    }
}

/// `first_greater` is the first position whose key is greater than `key`.
proof fn lemma_first_greater<T>(s: Seq<(T, u64)>, key: u64)
    ensures
        first_greater(s, key) <= s.len(),
        forall|i: int| 0 <= i < first_greater(s, key) ==> (#[trigger] s[i]).1 <= key,
        first_greater(s, key) < s.len() ==> s[first_greater(s, key) as int].1 > key,
    decreases s.len(),
{
    if s.len() > 0 && s[0].1 <= key {
        lemma_first_greater(s.drop_first(), key);
        assert forall|i: int| 0 <= i < first_greater(s, key) implies (#[trigger] s[i]).1 <= key by {
            if i > 0 {
                assert(s[i] == s.drop_first()[i - 1]);
            }
        }
    }
}

/// A position before which all keys are at most `key` and at which the key
/// is greater, or the end, is `first_greater`.
proof fn lemma_first_greater_at<T>(s: Seq<(T, u64)>, key: u64, j: int)
    requires
        0 <= j <= s.len(),
        forall|i: int| 0 <= i < j ==> (#[trigger] s[i]).1 <= key,
        j < s.len() ==> s[j].1 > key,
    ensures
        first_greater(s, key) == j,
    decreases j,
{
    if j > 0 {
        let t = s.drop_first();
        assert forall|i: int| 0 <= i < j - 1 implies (#[trigger] t[i]).1 <= key by {
            assert(t[i] == s[i + 1]);
        }
        lemma_first_greater_at(t, key, j - 1);
    }
}

/// Inserting a row after the rows of no greater key keeps the keys
/// ascending.
proof fn lemma_insert_keeps_ascending<T>(s: Seq<(T, u64)>, row: (T, u64))
    requires
        keys_ascending(s),
    ensures
        keys_ascending(insert_by_key(s, row)),
{
    lemma_first_greater(s, row.1);
    let j: int = first_greater(s, row.1) as int;
    s.insert_ensures(j, row);
    let t = insert_by_key(s, row);
    assert forall|a: int, b: int| 0 <= a < b < t.len() implies (#[trigger] t[a]).1 <= (
    #[trigger] t[b]).1 by {
        if b < j {
            assert(t[a] == s[a] && t[b] == s[b]);
        } else if b == j {
            assert(t[a] == s[a]);
        } else if a < j {
            assert(t[a] == s[a] && t[b] == s[b - 1]);
            assert(s[j].1 > row.1);
            assert(s[j].1 <= s[b - 1].1);
        } else if a == j {
            assert(t[b] == s[b - 1]);
            assert(s[j].1 <= s[b - 1].1);
        } else {
            assert(t[a] == s[a - 1] && t[b] == s[b - 1]);
        }
    }
}

/// The keys of `sorted_by_key(s)` never decrease.
pub proof fn law_sorted_keys_ascending<T>(s: Seq<(T, u64)>)
    ensures
        keys_ascending(sorted_by_key(s)),
    decreases s.len(),
{
    if s.len() > 0 {
        law_sorted_keys_ascending(s.drop_last());
        lemma_insert_keeps_ascending(sorted_by_key(s.drop_last()), s.last());
    }
}

/// `sorted_by_key(s)` holds the rows of `s`, each as often as `s` does.
pub proof fn law_sorted_is_permutation<T>(s: Seq<(T, u64)>)
    ensures
        sorted_by_key(s).to_multiset() == s.to_multiset(),
    decreases s.len(),
{
    if s.len() > 0 {
        let before = s.drop_last();
        law_sorted_is_permutation(before);
        let p = sorted_by_key(before);
        let j: int = first_greater(p, s.last().1) as int;
        lemma_first_greater(p, s.last().1);
        let t = insert_by_key(p, s.last());
        p.insert_ensures(j, s.last());
        assert(t.remove(j) =~= p);
        assert(t.contains(t[j]));
        assert(t.to_multiset() =~= p.to_multiset().insert(s.last()));
        assert(before.push(s.last()) == s);
    }
}

/// The rows with a key of `a + b` are those of `a`, then those of `b`.
proof fn lemma_rows_with_key_add<T>(a: Seq<(T, u64)>, b: Seq<(T, u64)>, key: u64)
    ensures
        rows_with_key(a + b, key) == rows_with_key(a, key) + rows_with_key(b, key),
    decreases b.len(),
{
    if b.len() == 0 {
        assert(a + b == a);
    } else {
        lemma_rows_with_key_add(a, b.drop_last(), key);
        assert((a + b).drop_last() == a + b.drop_last());
    }
}

/// A sequence whose keys all differ from `key` has no rows with it.
proof fn lemma_rows_with_key_none<T>(s: Seq<(T, u64)>, key: u64)
    requires
        forall|i: int| 0 <= i < s.len() ==> (#[trigger] s[i]).1 != key,
    ensures
        rows_with_key(s, key) == Seq::<(T, u64)>::empty(),
    decreases s.len(),
{
    if s.len() > 0 {
        lemma_rows_with_key_none(s.drop_last(), key);
    }
}

/// Inserting a row after the rows of no greater key adds it after the rows
/// of its own key, and leaves the rows of other keys as they were.
proof fn lemma_insert_rows_with_key<T>(s: Seq<(T, u64)>, row: (T, u64), key: u64)
    requires
        keys_ascending(s),
    ensures
        rows_with_key(insert_by_key(s, row), key) == (if row.1 == key {
            rows_with_key(s, key).push(row)
        } else {
            rows_with_key(s, key)
        }),
{
    lemma_first_greater(s, row.1);
    let j: int = first_greater(s, row.1) as int;
    let front = s.subrange(0, j);
    let back = s.subrange(j, s.len() as int);
    assert(insert_by_key(s, row) == front.push(row) + back);
    assert(s == front + back);
    lemma_rows_with_key_add(front.push(row), back, key);
    lemma_rows_with_key_add(front, back, key);
    assert(front.push(row).drop_last() == front);
    if row.1 == key {
        assert forall|i: int| 0 <= i < back.len() implies (#[trigger] back[i]).1 != key by {
            assert(back[i] == s[j + i]);
            assert(s[j].1 <= s[j + i].1);
        }
        lemma_rows_with_key_none(back, key);
        assert(rows_with_key(front, key) + rows_with_key(back, key) == rows_with_key(front, key));
        assert(rows_with_key(front.push(row), key) + rows_with_key(back, key) == rows_with_key(
            front,
            key,
        ).push(row));
    }
}

/// Rows of equal key keep the order they came in: for every key, the rows
/// of `sorted_by_key(s)` with it are those of `s` with it, in the same
/// order.
pub proof fn law_sort_is_stable<T>(s: Seq<(T, u64)>, key: u64)
    ensures
        rows_with_key(sorted_by_key(s), key) == rows_with_key(s, key),
    decreases s.len(),
{
    if s.len() > 0 {
        law_sort_is_stable(s.drop_last(), key);
        law_sorted_keys_ascending(s.drop_last());
        lemma_insert_rows_with_key(sorted_by_key(s.drop_last()), s.last(), key);
    }
}

/// The rows ordered by their keys, nearest first, rows of equal key in the
/// order they came. The key of a row orders the rows as their walking
/// distances do.
pub fn sort_by_distance<T>(rows: Vec<(T, u64)>) -> (sorted: Vec<(T, u64)>)
    ensures
        sorted@ == sorted_by_key(rows@),
{
    let ghost all = rows@;
    let mut sorted: Vec<(T, u64)> = Vec::new();
    for row in it: rows.into_iter()
        invariant
            it.seq() == all,
            sorted@ == sorted_by_key(all.take(it.index() as int)),
    {
        let ghost before = sorted@;
        proof {
            law_sorted_keys_ascending(all.take(it.index() as int));
        }
        let key: u64 = row.1;
        let mut j: usize = 0;
        while j < sorted.len() && sorted[j].1 <= key
            invariant
                j <= sorted.len(),
                sorted@ == before,
                forall|i: int| 0 <= i < j ==> (#[trigger] sorted@[i]).1 <= key,
            decreases sorted.len() - j,
        {
            j = j + 1;
        }
        proof {
            lemma_first_greater_at(before, key, j as int);
            assert(all.take(it.index() + 1).drop_last() == all.take(it.index() as int));
            assert(all.take(it.index() + 1).last() == row);
        }
        sorted.insert(j, row);
    }
    assert(all.take(all.len() as int) == all);
    sorted
}

/// There is one row per element, and row `i` is element `i` with column
/// `i + 1` of the distances.
pub proof fn law_paired<T, D>(elements: Seq<T>, distances: Seq<D>)
    ensures
        paired(elements, distances).len() == elements.len(),
        forall|i: int|
            0 <= i < elements.len() ==> #[trigger] paired(elements, distances)[i] == (
                elements[i],
                distances[i + 1],
            ),
{
}

} // verus!
