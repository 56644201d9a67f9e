//! What holds of the ordered mapping that a dictionary body is read into.

use crate::dict::{entry_lines, key_index, upsert, upsert_all, Pairs};
use crate::literal::{formatted_value, is_literal, quoted};
use vstd::prelude::*;

verus! {

/// Whether `es` holds the key `k` at or after index `i`.
pub open spec fn has_key(es: Pairs, k: Seq<char>, i: int) -> bool {
    key_index(es, k, i) < es.len()
}

/// Whether no key occurs twice in `m`.
pub open spec fn distinct_keys(m: Pairs) -> bool {
    forall|i: int, j: int| 0 <= i < j < m.len() ==> (#[trigger] m[i]).0 != (#[trigger] m[j]).0
}

/// Whether `a` and `b` hold the same keys at the same places.
pub open spec fn same_keys(a: Pairs, b: Pairs) -> bool {
    a.len() == b.len() && forall|j: int| 0 <= j < a.len() ==> (#[trigger] a[j]).0 == b[j].0
}

/// `m` with every value in the form in which it is written.
pub open spec fn rendered(m: Pairs) -> Pairs {
    Seq::new(m.len(), |i: int| (m[i].0, formatted_value(m[i].1)))
}

/// A value in its written form is a literal, and writing it again changes
/// nothing.
pub proof fn lemma_formatted_twice(v: Seq<char>)
    ensures
        is_literal(formatted_value(v)),
        formatted_value(formatted_value(v)) == formatted_value(v),
{
    if !is_literal(v) {
        assert(quoted(v).first() == '\'');
        assert(quoted(v).last() == '\'');
    }
}

/// A search for a key stops inside the mapping, on the key or at the end,
/// and passes over other keys only.
pub proof fn lemma_key_index(m: Pairs, k: Seq<char>, i: int)
    requires
        0 <= i <= m.len(),
    ensures
        i <= key_index(m, k, i) <= m.len(),
        key_index(m, k, i) < m.len() ==> m[key_index(m, k, i)].0 == k,
        forall|j: int| i <= j < key_index(m, k, i) ==> (#[trigger] m[j]).0 != k,
    decreases m.len() - i,
{
    if i < m.len() && m[i].0 != k {
        lemma_key_index(m, k, i + 1);
    }
}

/// The place of a key is the first place that holds it.
pub proof fn lemma_key_index_is(m: Pairs, k: Seq<char>, i: int, p: int)
    requires
        0 <= i <= p <= m.len(),
        forall|j: int| i <= j < p ==> (#[trigger] m[j]).0 != k,
        p < m.len() ==> m[p].0 == k,
    ensures
        key_index(m, k, i) == p,
    decreases p - i,
{
    if i < p {
        lemma_key_index_is(m, k, i + 1, p);
    }
}

/// Mappings with the same keys hold every key at the same place.
pub proof fn lemma_key_index_same_keys(a: Pairs, b: Pairs, k: Seq<char>)
    requires
        same_keys(a, b),
    ensures
        key_index(a, k, 0) == key_index(b, k, 0),
{
    lemma_key_index(a, k, 0);
    let p = key_index(a, k, 0);
    assert forall|j: int| 0 <= j < p implies (#[trigger] b[j]).0 != k by {
        assert(a[j].0 == b[j].0);
    }
    if p < a.len() {
        assert(a[p].0 == b[p].0);
    }
    lemma_key_index_is(b, k, 0, p);
}

/// Setting a key leaves every other key at its place, with its value.
pub proof fn lemma_upsert_other_key(m: Pairs, k: Seq<char>, v: Seq<char>, other: Seq<char>)
    requires
        other != k,
        has_key(m, other, 0),
    ensures
        key_index(upsert(m, k, v), other, 0) == key_index(m, other, 0),
        upsert(m, k, v)[key_index(m, other, 0)] == m[key_index(m, other, 0)],
{
    lemma_key_index(m, k, 0);
    lemma_key_index(m, other, 0);
    lemma_key_index_is(upsert(m, k, v), other, 0, key_index(m, other, 0));
}

/// Setting a key puts it, with the value, at the place where the mapping
/// held it, or at the end.
pub proof fn lemma_upsert_sets(m: Pairs, k: Seq<char>, v: Seq<char>)
    ensures
        key_index(upsert(m, k, v), k, 0) == key_index(m, k, 0),
        key_index(m, k, 0) < upsert(m, k, v).len(),
        upsert(m, k, v)[key_index(m, k, 0)] == (k, v),
        upsert(m, k, v).len() >= m.len(),
        forall|j: int| 0 <= j < m.len() ==> (#[trigger] upsert(m, k, v)[j]).0 == m[j].0,
{
    lemma_key_index(m, k, 0);
    lemma_key_index_is(upsert(m, k, v), k, 0, key_index(m, k, 0));
}

/// Setting entries moves no key: the mapping keeps its keys at their
/// places.
pub proof fn lemma_upsert_all_keeps_places(m: Pairs, es: Pairs, i: int)
    requires
        0 <= i <= es.len(),
    ensures
        upsert_all(m, es, i).len() >= m.len(),
        forall|j: int| 0 <= j < m.len() ==> (#[trigger] upsert_all(m, es, i)[j]).0 == m[j].0,
    decreases es.len() - i,
{
    if i < es.len() {
        lemma_upsert_sets(m, es[i].0, es[i].1);
        lemma_upsert_all_keeps_places(upsert(m, es[i].0, es[i].1), es, i + 1);
    }
}

/// Merging entries preserves the keys that they do not mention: such a key
/// stays at its place, with its value.
pub proof fn lemma_upsert_all_keeps_other_keys(m: Pairs, es: Pairs, i: int, k: Seq<char>)
    requires
        0 <= i <= es.len(),
        !has_key(es, k, i),
        has_key(m, k, 0),
    ensures
        key_index(upsert_all(m, es, i), k, 0) == key_index(m, k, 0),
        key_index(m, k, 0) < upsert_all(m, es, i).len(),
        upsert_all(m, es, i)[key_index(m, k, 0)] == m[key_index(m, k, 0)],
    decreases es.len() - i,
{
    lemma_key_index(m, k, 0);
    if i < es.len() {
        lemma_key_index(es, k, i);
        let next = upsert(m, es[i].0, es[i].1);
        lemma_upsert_other_key(m, es[i].0, es[i].1, k);
        lemma_upsert_sets(m, es[i].0, es[i].1);
        lemma_key_index(es, k, i + 1);
        lemma_upsert_all_keeps_other_keys(next, es, i + 1, k);
    }
}

/// Merging entries sets them: the mapping holds the key of an entry with the
/// value of that entry, unless a later entry sets the key again.
pub proof fn lemma_upsert_all_sets(m: Pairs, es: Pairs, i: int, j: int)
    requires
        0 <= i <= j < es.len(),
        !has_key(es, es[j].0, j + 1),
    ensures
        has_key(upsert_all(m, es, i), es[j].0, 0),
        upsert_all(m, es, i)[key_index(upsert_all(m, es, i), es[j].0, 0)] == es[j],
    decreases j - i,
{
    let next = upsert(m, es[i].0, es[i].1);
    if i == j {
        lemma_upsert_sets(m, es[j].0, es[j].1);
        lemma_upsert_all_keeps_other_keys(next, es, j + 1, es[j].0);
    } else {
        lemma_upsert_all_sets(next, es, i + 1, j);
    }
}

/// Two mappings that differ in the value of one key only become the same
/// once that key is set.
proof fn lemma_upsert_all_overwrites(w: Pairs, y: Pairs, es: Pairs, i: int, k: Seq<char>)
    requires
        0 <= i <= es.len(),
        same_keys(w, y),
        has_key(y, k, 0),
        forall|j: int| 0 <= j < y.len() && j != key_index(y, k, 0) ==> w[j] == y[j],
        has_key(es, k, i),
    ensures
        upsert_all(w, es, i) == upsert_all(y, es, i),
    decreases es.len() - i,
{
    let p = key_index(y, k, 0);
    lemma_key_index(y, k, 0);
    lemma_key_index(es, k, i);
    let k2 = es[i].0;
    let v2 = es[i].1;
    lemma_key_index_same_keys(w, y, k2);
    lemma_key_index(y, k2, 0);
    let w2 = upsert(w, k2, v2);
    let y2 = upsert(y, k2, v2);
    if k2 == k {
        assert(w2 =~= y2);
    } else {
        lemma_upsert_other_key(y, k2, v2, k);
        lemma_key_index(es, k, i + 1);
        assert(same_keys(w2, y2));
        lemma_upsert_all_overwrites(w2, y2, es, i + 1, k);
    }
}

/// Merging the same entries a second time changes nothing.
pub proof fn lemma_upsert_all_twice(m: Pairs, es: Pairs, i: int)
    requires
        0 <= i <= es.len(),
    ensures
        upsert_all(upsert_all(m, es, i), es, i) == upsert_all(m, es, i),
    decreases es.len() - i,
{
    if i < es.len() {
        let k = es[i].0;
        let v = es[i].1;
        let first = upsert(m, k, v);
        let y = upsert_all(first, es, i + 1);
        lemma_upsert_all_twice(first, es, i + 1);
        lemma_upsert_sets(m, k, v);
        let p = key_index(first, k, 0);
        lemma_upsert_all_keeps_places(first, es, i + 1);
        lemma_key_index(first, k, 0);
        lemma_key_index_is(y, k, 0, p);
        let w = upsert(y, k, v);
        if has_key(es, k, i + 1) {
            assert(same_keys(w, y));
            lemma_upsert_all_overwrites(w, y, es, i + 1, k);
        } else {
            lemma_upsert_all_keeps_other_keys(first, es, i + 1, k);
            assert(w =~= y);
        }
    }
}

/// Writing the values commutes with setting a key.
pub proof fn lemma_rendered_upsert(m: Pairs, k: Seq<char>, v: Seq<char>)
    ensures
        rendered(upsert(m, k, v)) == upsert(rendered(m), k, formatted_value(v)),
{
    assert(same_keys(rendered(m), m));
    lemma_key_index_same_keys(rendered(m), m, k);
    lemma_key_index(m, k, 0);
    assert(rendered(upsert(m, k, v)) =~= upsert(rendered(m), k, formatted_value(v)));
}

/// Writing the values commutes with merging entries.
pub proof fn lemma_rendered_upsert_all(m: Pairs, es: Pairs, i: int)
    requires
        0 <= i <= es.len(),
    ensures
        rendered(upsert_all(m, es, i)) == upsert_all(rendered(m), rendered(es), i),
    decreases es.len() - i,
{
    if i < es.len() {
        lemma_rendered_upsert(m, es[i].0, es[i].1);
        lemma_rendered_upsert_all(upsert(m, es[i].0, es[i].1), es, i + 1);
    }
}

/// Writing the values a second time changes nothing.
pub proof fn lemma_rendered_twice(m: Pairs)
    ensures
        rendered(rendered(m)) == rendered(m),
{
    assert forall|i: int| 0 <= i < m.len() implies rendered(rendered(m))[i] == rendered(m)[i] by {
        lemma_formatted_twice(m[i].1);
    }
    assert(rendered(rendered(m)) =~= rendered(m));
}

/// The lines of a mapping are those of its written form.
pub proof fn lemma_entry_lines_rendered(m: Pairs, i: int)
    requires
        0 <= i <= m.len(),
    ensures
        entry_lines(rendered(m), i) == entry_lines(m, i),
    decreases m.len() - i,
{
    if i < m.len() {
        lemma_formatted_twice(m[i].1);
        lemma_entry_lines_rendered(m, i + 1);
    }
}

/// Setting a key keeps the keys distinct.
pub proof fn lemma_upsert_distinct(m: Pairs, k: Seq<char>, v: Seq<char>)
    requires
        distinct_keys(m),
    ensures
        distinct_keys(upsert(m, k, v)),
{
    lemma_key_index(m, k, 0);
}

/// Merging entries keeps the keys distinct.
pub proof fn lemma_upsert_all_distinct(m: Pairs, es: Pairs, i: int)
    requires
        0 <= i <= es.len(),
        distinct_keys(m),
    ensures
        distinct_keys(upsert_all(m, es, i)),
    decreases es.len() - i,
{
    if i < es.len() {
        lemma_upsert_distinct(m, es[i].0, es[i].1);
        lemma_upsert_all_distinct(upsert(m, es[i].0, es[i].1), es, i + 1);
    }
}

/// Entries with distinct keys, set one after the other, give themselves.
pub proof fn lemma_upsert_all_of_distinct(es: Pairs, i: int)
    requires
        0 <= i <= es.len(),
        distinct_keys(es),
    ensures
        upsert_all(es.subrange(0, i), es, i) == es,
    decreases es.len() - i,
{
    let head = es.subrange(0, i);
    if i < es.len() {
        lemma_key_index_is(head, es[i].0, 0, i);
        assert(upsert(head, es[i].0, es[i].1) =~= es.subrange(0, i + 1));
        lemma_upsert_all_of_distinct(es, i + 1);
    } else {
        assert(head =~= es);
    }
}

} // verus!
