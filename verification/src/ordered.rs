//! Sequences of entries that behave as maps which remember the order of
//! insertion: a key stands once, a new key goes to the end, and a known key
//! keeps its place when its value is replaced.

use vstd::prelude::*;

verus! {

/// The keys of `entries`, in order.
pub open spec fn keys_of<K, V>(entries: Seq<(K, V)>) -> Seq<K> {
    entries.map_values(|e: (K, V)| e.0)
}

/// The value that `entries` holds for `key`, if it holds one.
pub open spec fn lookup<K, V>(entries: Seq<(K, V)>, key: K) -> Option<V> {
    match keys_of(entries).index_of_first(key) {
        Some(i) => Some(entries[i].1),
        None => None,
    }
}

/// `entries` after `value` is put under `key`: in the place of the old value
/// where the key is known, at the end where it is new.
pub open spec fn put<K, V>(entries: Seq<(K, V)>, key: K, value: V) -> Seq<(K, V)> {
    match keys_of(entries).index_of_first(key) {
        Some(i) => entries.update(i, (key, value)),
        None => entries.push((key, value)),
    }
}

/// `entries` after each entry of `more` is put, one after the other. Where
/// both hold a key, the value of `more` wins and the place of `entries` stays.
pub open spec fn put_all<K, V>(entries: Seq<(K, V)>, more: Seq<(K, V)>) -> Seq<(K, V)>
    decreases more.len(),
{
    if more.len() == 0 {
        entries
    } else {
        put_all(put(entries, more[0].0, more[0].1), more.drop_first())
    }
}

/// `entries` with `f` applied to each value.
pub open spec fn with_values<K, V, W>(entries: Seq<(K, V)>, f: spec_fn(V) -> W) -> Seq<(K, W)> {
    entries.map_values(|e: (K, V)| (e.0, f(e.1)))
}

/// Changing the values of entries leaves their keys alone.
pub proof fn lemma_with_values_keys<K, V, W>(entries: Seq<(K, V)>, f: spec_fn(V) -> W)
    ensures
        keys_of(with_values(entries, f)) == keys_of(entries),
{
    assert(keys_of(with_values(entries, f)) =~= keys_of(entries));
}

/// What `put` does to the keys: nothing where the key is known, and the key
/// at the end where it is new. Keys that stood once still stand once.
pub proof fn lemma_put_keys<K, V>(entries: Seq<(K, V)>, key: K, value: V)
    ensures
        keys_of(entries).contains(key) ==> keys_of(put(entries, key, value)) == keys_of(entries),
        !keys_of(entries).contains(key) ==> keys_of(put(entries, key, value)) == keys_of(
            entries,
        ).push(key),
        !keys_of(entries).contains(key) ==> put(entries, key, value) == entries.push((key, value)),
        keys_of(entries).no_duplicates() ==> keys_of(put(entries, key, value)).no_duplicates(),
        lookup(put(entries, key, value), key) == Some(value),
{
    let keys = keys_of(entries);
    keys.index_of_first_ensures(key);
    let after = put(entries, key, value);
    match keys.index_of_first(key) {
        Some(i) => {
            assert(keys_of(after) =~= keys);
            keys_of(after).index_of_first_ensures(key);
        },
        None => {
            assert(keys_of(after) =~= keys.push(key));
            let next = keys.push(key);
            assert(next[keys.len() as int] == key);
            next.index_of_first_ensures(key);
            if keys.no_duplicates() {
                assert forall|i: int, j: int| 0 <= i < next.len() && 0 <= j < next.len() && i
                    != j implies next[i] != next[j] by {
                    if i < keys.len() {
                        assert(keys.contains(keys[i]));
                    }
                    if j < keys.len() {
                        assert(keys.contains(keys[j]));
                    }
                }
            }
            let found = next.index_of_first(key)->Some_0;
            if found < keys.len() {
                assert(keys.contains(keys[found]));
            }
        },
    }
}

/// Putting a value and then changing all values is putting the changed value
/// among the changed values.
pub proof fn lemma_put_with_values<K, V, W>(
    entries: Seq<(K, V)>,
    key: K,
    value: V,
    f: spec_fn(V) -> W,
)
    ensures
        with_values(put(entries, key, value), f) == put(with_values(entries, f), key, f(value)),
{
    lemma_with_values_keys(entries, f);
    let changed = with_values(entries, f);
    match keys_of(entries).index_of_first(key) {
        Some(i) => {
            keys_of(entries).index_of_first_ensures(key);
            assert(with_values(entries.update(i, (key, value)), f) =~= changed.update(
                i,
                (key, f(value)),
            ));
        },
        None => {
            assert(with_values(entries.push((key, value)), f) =~= changed.push((key, f(value))));
        },
    }
}

/// Putting many entries and then changing all values is putting the changed
/// entries among the changed values.
pub proof fn lemma_put_all_with_values<K, V, W>(
    entries: Seq<(K, V)>,
    more: Seq<(K, V)>,
    f: spec_fn(V) -> W,
)
    ensures
        with_values(put_all(entries, more), f) == put_all(
            with_values(entries, f),
            with_values(more, f),
        ),
    decreases more.len(),
{
    if more.len() > 0 {
        lemma_put_with_values(entries, more[0].0, more[0].1, f);
        lemma_put_all_with_values(put(entries, more[0].0, more[0].1), more.drop_first(), f);
        assert(with_values(more, f).drop_first() =~= with_values(more.drop_first(), f));
    }
}

/// Putting many entries keeps keys that stood once standing once.
pub proof fn lemma_put_all_keys<K, V>(entries: Seq<(K, V)>, more: Seq<(K, V)>)
    requires
        keys_of(entries).no_duplicates(),
    ensures
        keys_of(put_all(entries, more)).no_duplicates(),
    decreases more.len(),
{
    if more.len() > 0 {
        lemma_put_keys(entries, more[0].0, more[0].1);
        lemma_put_all_keys(put(entries, more[0].0, more[0].1), more.drop_first());
    }
}

/// Putting one more entry after many is putting the many and then the one.
pub proof fn lemma_put_all_push<K, V>(entries: Seq<(K, V)>, more: Seq<(K, V)>, last: (K, V))
    ensures
        put_all(entries, more.push(last)) == put(put_all(entries, more), last.0, last.1),
    decreases more.len(),
{
    let all = more.push(last);
    if more.len() == 0 {
        assert(all.drop_first() =~= more);
        assert(all[0] == last);
        assert(put_all(entries, more) == entries);
        assert(put_all(put(entries, last.0, last.1), more) == put(entries, last.0, last.1));
    } else {
        assert(all[0] == more[0]);
        assert(all.drop_first() =~= more.drop_first().push(last));
        lemma_put_all_push(put(entries, more[0].0, more[0].1), more.drop_first(), last);
    }
}

/// Entries whose keys stand once each are what one gets by putting them, in
/// order, into nothing.
pub proof fn lemma_put_all_rebuilds<K, V>(entries: Seq<(K, V)>)
    requires
        keys_of(entries).no_duplicates(),
    ensures
        put_all(Seq::<(K, V)>::empty(), entries) == entries,
    decreases entries.len(),
{
    if entries.len() > 0 {
        let front = entries.drop_last();
        let last = entries.last();
        assert(keys_of(front) =~= keys_of(entries).drop_last());
        assert(keys_of(front).no_duplicates());
        lemma_put_all_rebuilds(front);
        assert(front.push(last) =~= entries);
        lemma_put_all_push(Seq::<(K, V)>::empty(), front, last);
        if keys_of(front).contains(last.0) {
            let i = choose|i: int| 0 <= i < keys_of(front).len() && keys_of(front)[i] == last.0;
            assert(keys_of(entries)[i] == last.0);
            assert(keys_of(entries)[entries.len() - 1] == last.0);
        }
        lemma_put_keys(front, last.0, last.1);
    }
}

/// Whether `holds` is true of every value of `entries`.
pub open spec fn all_values<K, V>(entries: Seq<(K, V)>, holds: spec_fn(V) -> bool) -> bool {
    forall|i: int| 0 <= i < entries.len() ==> holds((#[trigger] entries[i]).1)
}

/// What is true of every value stays true when a value of which it is true
/// is put.
pub proof fn lemma_put_keeps<K, V>(
    entries: Seq<(K, V)>,
    key: K,
    value: V,
    holds: spec_fn(V) -> bool,
)
    requires
        all_values(entries, holds),
        holds(value),
    ensures
        all_values(put(entries, key, value), holds),
{
    keys_of(entries).index_of_first_ensures(key);
    let after = put(entries, key, value);
    assert forall|i: int| 0 <= i < after.len() implies holds((#[trigger] after[i]).1) by {
        match keys_of(entries).index_of_first(key) {
            Some(at) => {
                if i != at {
                    assert(after[i] == entries[i]);
                }
            },
            None => {
                if i < entries.len() {
                    assert(after[i] == entries[i]);
                }
            },
        }
    }
}

/// What is true of every value stays true when values of which it is true
/// are put.
pub proof fn lemma_put_all_keeps<K, V>(
    entries: Seq<(K, V)>,
    more: Seq<(K, V)>,
    holds: spec_fn(V) -> bool,
)
    requires
        all_values(entries, holds),
        all_values(more, holds),
    ensures
        all_values(put_all(entries, more), holds),
    decreases more.len(),
{
    if more.len() > 0 {
        assert(holds(more[0].1));
        lemma_put_keeps(entries, more[0].0, more[0].1, holds);
        assert(all_values(more.drop_first(), holds)) by {
            assert forall|i: int| 0 <= i < more.drop_first().len() implies holds(
                (#[trigger] more.drop_first()[i]).1,
            ) by {
                assert(more.drop_first()[i] == more[i + 1]);
            }
        }
        lemma_put_all_keeps(put(entries, more[0].0, more[0].1), more.drop_first(), holds);
    }
}

} // verus!
