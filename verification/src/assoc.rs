//! Association lists keyed by strings: the model of the maps that mpv hands
//! over (node maps, option maps), where inserting a key that is present
//! replaces its value.

use vstd::prelude::*;

verus! {

/// Whether some entry of `m` has the key `k`.
pub open spec fn has_key<V>(m: Seq<(Seq<char>, V)>, k: Seq<char>) -> bool {
    exists|i: int| 0 <= i < m.len() && m[i].0 == k
}

/// Whether the entries `m` name no key twice.
pub open spec fn distinct_keys<V>(m: Seq<(Seq<char>, V)>) -> bool {
    forall|i: int, j: int| 0 <= i < m.len() && 0 <= j < m.len() && i != j ==> m[i].0 != m[j].0
}

/// Inserting into entries: the entry with key `k` takes the value `v`, or,
/// if there is none, a new entry comes last.
pub open spec fn entries_insert<V>(m: Seq<(Seq<char>, V)>, k: Seq<char>, v: V) -> Seq<
    (Seq<char>, V),
> {
    if has_key(m, k) {
        m.update(choose|i: int| 0 <= i < m.len() && m[i].0 == k, (k, v))
    } else {
        m.push((k, v))
    }
}

/// Inserting the pairs `ps` in order.
pub open spec fn insert_all<V>(m: Seq<(Seq<char>, V)>, ps: Seq<(Seq<char>, V)>) -> Seq<
    (Seq<char>, V),
>
    decreases ps.len(),
{
    if ps.len() == 0 {
        m
    } else {
        insert_all(entries_insert(m, ps[0].0, ps[0].1), ps.drop_first())
    }
}

/// The value stored under `k`, if any.
pub open spec fn lookup<V>(m: Seq<(Seq<char>, V)>, k: Seq<char>) -> Option<V> {
    if has_key(m, k) {
        Some(m[choose|i: int| 0 <= i < m.len() && m[i].0 == k].1)
    } else {
        None
    }
}

/// Inserting a key that is absent appends it.
pub proof fn lemma_insert_absent<V>(m: Seq<(Seq<char>, V)>, k: Seq<char>, v: V)
    requires
        !has_key(m, k),
    ensures
        entries_insert(m, k, v) == m.push((k, v)),
{
}

/// Inserting keeps keys distinct, and the key is present afterwards.
pub proof fn lemma_insert_keeps_distinct<V>(m: Seq<(Seq<char>, V)>, k: Seq<char>, v: V)
    requires
        distinct_keys(m),
    ensures
        distinct_keys(entries_insert(m, k, v)),
        has_key(entries_insert(m, k, v), k),
{
    let r = entries_insert(m, k, v);
    if has_key(m, k) {
        let p = choose|i: int| 0 <= i < m.len() && m[i].0 == k;
        assert(r[p].0 == k);
    } else {
        assert(r[m.len() as int].0 == k);
    }
}

/// In entries without repeated keys, an entry's key looks up its value.
pub proof fn lemma_lookup_at<V>(m: Seq<(Seq<char>, V)>, i: int)
    requires
        distinct_keys(m),
        0 <= i < m.len(),
    ensures
        lookup(m, m[i].0) == Some(m[i].1),
{
    let k = m[i].0;
    assert(has_key(m, k));
    let c = choose|j: int| 0 <= j < m.len() && m[j].0 == k;
    assert(c == i);
}

/// After an insertion the inserted key looks up the inserted value, and
/// every other key looks up what it did before.
pub proof fn lemma_insert_lookup<V>(m: Seq<(Seq<char>, V)>, k: Seq<char>, v: V, k2: Seq<char>)
    requires
        distinct_keys(m),
    ensures
        lookup(entries_insert(m, k, v), k) == Some(v),
        k2 != k ==> lookup(entries_insert(m, k, v), k2) == lookup(m, k2),
{
    let r = entries_insert(m, k, v);
    lemma_insert_keeps_distinct(m, k, v);
    let p = if has_key(m, k) {
        choose|i: int| 0 <= i < m.len() && m[i].0 == k
    } else {
        m.len() as int
    };
    assert(r[p] == (k, v));
    lemma_lookup_at(r, p);
    if k2 != k {
        if has_key(m, k2) {
            let q = choose|i: int| 0 <= i < m.len() && m[i].0 == k2;
            assert(r[q] == m[q]);
            lemma_lookup_at(r, q);
            lemma_lookup_at(m, q);
        } else {
            assert(!has_key(r, k2)) by {
                if has_key(r, k2) {
                    let q = choose|i: int| 0 <= i < r.len() && r[i].0 == k2;
                    if q < m.len() {
                        assert(m[q].0 == k2);
                    }
                }
            }
        }
    }
}

/// Inserting pairs in order keeps keys distinct.
pub proof fn lemma_insert_all_distinct<V>(m: Seq<(Seq<char>, V)>, ps: Seq<(Seq<char>, V)>)
    requires
        distinct_keys(m),
    ensures
        distinct_keys(insert_all(m, ps)),
    decreases ps.len(),
{
    if ps.len() > 0 {
        lemma_insert_keeps_distinct(m, ps[0].0, ps[0].1);
        lemma_insert_all_distinct(entries_insert(m, ps[0].0, ps[0].1), ps.drop_first());
    }
}

/// What `k` looks up after the pairs `ps` are inserted in order into a map
/// where it looked up `before`: the value of the last pair that names it,
/// or `before` when none does.
pub open spec fn last_value<V>(ps: Seq<(Seq<char>, V)>, k: Seq<char>, before: Option<V>) -> Option<
    V,
>
    decreases ps.len(),
{
    if ps.len() == 0 {
        before
    } else {
        last_value(
            ps.drop_first(),
            k,
            if ps[0].0 == k {
                Some(ps[0].1)
            } else {
                before
            },
        )
    }
}

/// After inserting pairs in order, a key looks up the value of the last
/// pair that names it, or, if none does, what it looked up before.
pub proof fn lemma_insert_all_lookup<V>(m: Seq<(Seq<char>, V)>, ps: Seq<(Seq<char>, V)>, k: Seq<char>)
    requires
        distinct_keys(m),
    ensures
        lookup(insert_all(m, ps), k) == last_value(ps, k, lookup(m, k)),
    decreases ps.len(),
{
    if ps.len() > 0 {
        let m2 = entries_insert(m, ps[0].0, ps[0].1);
        lemma_insert_keeps_distinct(m, ps[0].0, ps[0].1);
        lemma_insert_all_lookup(m2, ps.drop_first(), k);
        lemma_insert_lookup(m, ps[0].0, ps[0].1, k);
    }
}

} // verus!
