//! Tables of values keyed by text, as vectors of pairs with unique keys.
use vstd::prelude::*;

verus! {

/// No key occurs twice in `t`.
pub open spec fn keys_unique<V>(t: Seq<(String, V)>) -> bool {
    forall|a: int, b: int| 0 <= a < b < t.len() ==> #[trigger] t[a].0@ != #[trigger] t[b].0@
}

/// Index of the first entry of `t[k..]` keyed by `key`.
pub open spec fn key_index_from<V>(t: Seq<(String, V)>, key: Seq<char>, k: int) -> Option<int>
    decreases t.len() - k,
{
    if k < 0 || k >= t.len() {
        None
    } else if t[k].0@ == key {
        Some(k)
    } else {
        key_index_from(t, key, k + 1)
    }
}

/// Index of the entry of `t` keyed by `key`.
pub open spec fn key_index<V>(t: Seq<(String, V)>, key: Seq<char>) -> Option<int> {
    key_index_from(t, key, 0)
}

/// The value of `t` under `key`.
pub open spec fn lookup<V>(t: Seq<(String, V)>, key: Seq<char>) -> Option<V> {
    match key_index(t, key) {
        Some(k) => Some(t[k].1),
        None => None,
    }
}

/// `u` is `t` with `value` under `key` and every other key's value kept.
pub open spec fn upserted<V>(t: Seq<(String, V)>, u: Seq<(String, V)>, key: Seq<char>, value: V) -> bool {
    &&& lookup(u, key) == Some(value)
    &&& forall|other: Seq<char>| other != key ==> #[trigger] lookup(u, other) == lookup(t, other)
}

/// Finds the entry keyed by `key`.
pub fn find_key<V>(t: &Vec<(String, V)>, key: &String) -> (r: Option<usize>)
    ensures
        match r {
            Some(k) => k < t@.len() && key_index(t@, key@) == Some(k as int),
            None => key_index(t@, key@) is None,
        },
{
    let mut k: usize = 0;
    while k < t.len()
        invariant
            k <= t@.len(),
            key_index(t@, key@) == key_index_from(t@, key@, k as int),
        decreases t@.len() - k,
    {
        if t[k].0 == *key {
            return Some(k);
        }
        k = k + 1;
    }
    None
}

/// Puts `value` under `key`, replacing the value it had.
pub fn upsert<V>(t: &mut Vec<(String, V)>, key: String, value: V)
    requires
        keys_unique(old(t)@),
    ensures
        keys_unique(final(t)@),
        upserted(old(t)@, final(t)@, key@, value),
{
    let ghost before = t@;
    let ghost k0 = key@;
    match find_key(t, &key) {
        Some(k) => {
            proof {
                lemma_key_index_bounds(before, k0, 0);
            }
            t.set(k, (key, value));
            assert forall|other: Seq<char>| other != k0 implies #[trigger] lookup(t@, other)
                == lookup(before, other) by {
                lemma_key_index_update(before, t@, other, k as int, 0);
            }
            proof {
                lemma_key_index_update_same(before, t@, k as int, 0);
            }
        },
        None => {
            proof {
                lemma_key_index_absent(before, k0);
            }
            t.push((key, value));
            assert(t@.subrange(0, before.len() as int) =~= before);
            assert forall|other: Seq<char>| other != k0 implies #[trigger] lookup(t@, other)
                == lookup(before, other) by {
                lemma_key_index_push(before, t@, other, 0);
            }
            proof {
                lemma_key_index_push_new(before, t@, 0);
            }
        },
    }
}

proof fn lemma_key_index_bounds<V>(t: Seq<(String, V)>, key: Seq<char>, k: int)
    requires
        key_index_from(t, key, k) is Some,
    ensures
        k <= key_index_from(t, key, k)->Some_0 < t.len(),
        0 <= key_index_from(t, key, k)->Some_0,
        t[key_index_from(t, key, k)->Some_0].0@ == key,
    decreases t.len() - k,
{
    if k >= 0 && k < t.len() && t[k].0@ != key {
        lemma_key_index_bounds(t, key, k + 1);
    }
}

proof fn lemma_key_index_absent<V>(t: Seq<(String, V)>, key: Seq<char>)
    requires
        key_index(t, key) is None,
    ensures
        forall|a: int| 0 <= a < t.len() ==> #[trigger] t[a].0@ != key,
{
    assert forall|a: int| 0 <= a < t.len() implies #[trigger] t[a].0@ != key by {
        lemma_key_index_none(t, key, 0, a);
    }
}

proof fn lemma_key_index_none<V>(t: Seq<(String, V)>, key: Seq<char>, k: int, a: int)
    requires
        key_index_from(t, key, k) is None,
        0 <= k <= a < t.len(),
    ensures
        t[a].0@ != key,
    decreases a - k,
{
    if k < a {
        lemma_key_index_none(t, key, k + 1, a);
    }
}

/// Replacing the entry at `p` by one of the same key keeps every other
/// key's value.
proof fn lemma_key_index_update<V>(t: Seq<(String, V)>, u: Seq<(String, V)>, other: Seq<char>, p: int, k: int)
    requires
        0 <= p < t.len(),
        u.len() == t.len(),
        u[p].0@ == t[p].0@,
        t[p].0@ != other,
        forall|a: int| 0 <= a < t.len() && a != p ==> u[a] == t[a],
        0 <= k <= t.len(),
    ensures
        match key_index_from(t, other, k) {
            Some(i) => match key_index_from(u, other, k) {
                Some(m) => u[m].1 == t[i].1,
                None => false,
            },
            None => key_index_from(u, other, k) is None,
        },
    decreases t.len() - k,
{
    if k < t.len() {
        lemma_key_index_update(t, u, other, p, k + 1);
    }
}

proof fn lemma_key_index_update_same<V>(t: Seq<(String, V)>, u: Seq<(String, V)>, p: int, k: int)
    requires
        0 <= p < t.len(),
        u.len() == t.len(),
        u[p].0@ == t[p].0@,
        forall|a: int| 0 <= a < t.len() && a != p ==> u[a] == t[a],
        key_index_from(t, t[p].0@, 0) == Some(p),
        0 <= k <= p,
    ensures
        key_index_from(u, t[p].0@, k) == Some(p),
    decreases p - k,
{
    if k < p {
        lemma_key_index_none_before(t, t[p].0@, p, 0, k);
        lemma_key_index_update_same(t, u, p, k + 1);
    }
}

/// Before the first match no key matches.
proof fn lemma_key_index_none_before<V>(t: Seq<(String, V)>, key: Seq<char>, p: int, k: int, a: int)
    requires
        key_index_from(t, key, k) == Some(p),
        0 <= k <= a < p,
    ensures
        t[a].0@ != key,
    decreases a - k,
{
    if k < a {
        lemma_key_index_none_before(t, key, p, k + 1, a);
    }
}

proof fn lemma_key_index_push<V>(t: Seq<(String, V)>, u: Seq<(String, V)>, other: Seq<char>, k: int)
    requires
        u.len() == t.len() + 1,
        u.subrange(0, t.len() as int) == t,
        u[t.len() as int].0@ != other,
        0 <= k <= t.len(),
    ensures
        match key_index_from(t, other, k) {
            Some(i) => match key_index_from(u, other, k) {
                Some(m) => u[m].1 == t[i].1,
                None => false,
            },
            None => key_index_from(u, other, k) is None,
        },
    decreases t.len() - k,
{
    if k < t.len() {
        assert(u[k] == u.subrange(0, t.len() as int)[k]);
        lemma_key_index_push(t, u, other, k + 1);
    } else {
        assert(key_index_from(u, other, k + 1) is None);
    }
}

proof fn lemma_key_index_push_new<V>(t: Seq<(String, V)>, u: Seq<(String, V)>, k: int)
    requires
        u.len() == t.len() + 1,
        u.subrange(0, t.len() as int) == t,
        forall|a: int| 0 <= a < t.len() ==> #[trigger] t[a].0@ != u[t.len() as int].0@,
        0 <= k <= t.len(),
    ensures
        key_index_from(u, u[t.len() as int].0@, k) == Some(t.len() as int),
    decreases t.len() - k,
{
    if k < t.len() {
        assert(u[k] == u.subrange(0, t.len() as int)[k]);
        assert(t[k].0@ != u[t.len() as int].0@);
        lemma_key_index_push_new(t, u, k + 1);
    }
}

} // verus!
