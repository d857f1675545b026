//! Association sequences keyed by byte-string names.
//!
//! The receipt store models every on-disk table (receipts, environments,
//! entrypoint shims) as a sequence of key/value pairs with pairwise-distinct
//! keys. This module gives the specification-level operations on such
//! sequences and the lemmas that relate lookup to each mutation.

use vstd::prelude::*;

verus! {

/// First binding for `key`, if any.
pub open spec fn kv_find<V>(s: Seq<(Seq<u8>, V)>, key: Seq<u8>) -> Option<V>
    decreases s.len(),
{
    if s.len() == 0 {
        None
    } else if s[0].0 == key {
        Some(s[0].1)
    } else {
        kv_find(s.drop_first(), key)
    }
}

/// All keys are pairwise distinct.
pub open spec fn kv_unique<V>(s: Seq<(Seq<u8>, V)>) -> bool {
    forall|i: int, j: int| 0 <= i < j < s.len() ==> s[i].0 != s[j].0
}

/// `s` with `key` bound to `v`: the first binding is replaced in place,
/// or a new binding is appended.
pub open spec fn kv_set<V>(s: Seq<(Seq<u8>, V)>, key: Seq<u8>, v: V) -> Seq<(Seq<u8>, V)>
    decreases s.len(),
{
    if s.len() == 0 {
        seq![(key, v)]
    } else if s[0].0 == key {
        seq![(key, v)] + s.drop_first()
    } else {
        seq![s[0]] + kv_set(s.drop_first(), key, v)
    }
}

/// `s` without the first binding for `key`.
pub open spec fn kv_del<V>(s: Seq<(Seq<u8>, V)>, key: Seq<u8>) -> Seq<(Seq<u8>, V)>
    decreases s.len(),
{
    if s.len() == 0 {
        s
    } else if s[0].0 == key {
        s.drop_first()
    } else {
        seq![s[0]] + kv_del(s.drop_first(), key)
    }
}

/// `s` without the bindings for any key in `keys`.
pub open spec fn kv_del_all<V>(s: Seq<(Seq<u8>, V)>, keys: Seq<Seq<u8>>) -> Seq<(Seq<u8>, V)>
    decreases keys.len(),
{
    if keys.len() == 0 {
        s
    } else {
        kv_del(kv_del_all(s, keys.drop_last()), keys.last())
    }
}

/// `s` with every key in `keys` bound to `v`.
pub open spec fn kv_set_all<V>(s: Seq<(Seq<u8>, V)>, keys: Seq<Seq<u8>>, v: V) -> Seq<(Seq<u8>, V)>
    decreases keys.len(),
{
    if keys.len() == 0 {
        s
    } else {
        kv_set(kv_set_all(s, keys.drop_last(), v), keys.last(), v)
    }
}

/// `s` without every binding whose value is `v`.
pub open spec fn kv_del_value<V>(s: Seq<(Seq<u8>, V)>, v: V) -> Seq<(Seq<u8>, V)>
    decreases s.len(),
{
    if s.len() == 0 {
        s
    } else if s[0].1 == v {
        kv_del_value(s.drop_first(), v)
    } else {
        seq![s[0]] + kv_del_value(s.drop_first(), v)
    }
}

/// A key is found exactly when some pair carries it.
proof fn lemma_kv_find_none<V>(s: Seq<(Seq<u8>, V)>, key: Seq<u8>)
    ensures
        kv_find(s, key) is None <==> forall|i: int| 0 <= i < s.len() ==> s[i].0 != key,
    decreases s.len(),
{
    if s.len() > 0 {
        lemma_kv_find_none(s.drop_first(), key);
        assert(forall|i: int|
            1 <= i < s.len() ==> s.drop_first()[i - 1] == s[i]);
    }
}

/// Lookup after `kv_set`.
pub proof fn lemma_kv_find_set<V>(s: Seq<(Seq<u8>, V)>, key: Seq<u8>, v: V, probe: Seq<u8>)
    ensures
        kv_find(kv_set(s, key, v), probe) == if probe == key {
            Some(v)
        } else {
            kv_find(s, probe)
        },
    decreases s.len(),
{
    reveal_with_fuel(kv_find, 3);
    if s.len() == 0 {
        let out = kv_set(s, key, v);
        assert(out[0] == (key, v));
        assert(out.drop_first() =~= Seq::<(Seq<u8>, V)>::empty());
    } else if s[0].0 == key {
        let out = kv_set(s, key, v);
        assert(out[0] == (key, v));
        assert(out.drop_first() =~= s.drop_first());
    } else {
        lemma_kv_find_set(s.drop_first(), key, v, probe);
        let out = kv_set(s, key, v);
        assert(out[0] == s[0]);
        assert(out.drop_first() =~= kv_set(s.drop_first(), key, v));
    }
}

/// `kv_set` keeps keys pairwise distinct.
pub proof fn lemma_kv_set_unique<V>(s: Seq<(Seq<u8>, V)>, key: Seq<u8>, v: V)
    requires
        kv_unique(s),
    ensures
        kv_unique(kv_set(s, key, v)),
    decreases s.len(),
{
    if s.len() == 0 {
    } else if s[0].0 == key {
        let out = kv_set(s, key, v);
        assert(out =~= s.update(0, (key, v)));
    } else {
        assert(kv_unique(s.drop_first())) by {
            assert(forall|i: int|
                1 <= i < s.len() ==> s.drop_first()[i - 1] == s[i]);
        }
        lemma_kv_set_unique(s.drop_first(), key, v);
        let tail = kv_set(s.drop_first(), key, v);
        lemma_kv_find_none(s.drop_first(), s[0].0);
        assert(kv_find(s.drop_first(), s[0].0) is None) by {
            assert(forall|i: int|
                1 <= i < s.len() ==> s.drop_first()[i - 1] == s[i]);
        }
        lemma_kv_find_set(s.drop_first(), key, v, s[0].0);
        lemma_kv_find_none(tail, s[0].0);
        let out = kv_set(s, key, v);
        assert(forall|i: int| 1 <= i < out.len() ==> out[i] == tail[i - 1]);
        assert(out[0] == s[0]);
    }
}

/// Lookup after `kv_del`.
pub proof fn lemma_kv_find_del<V>(s: Seq<(Seq<u8>, V)>, key: Seq<u8>, probe: Seq<u8>)
    requires
        kv_unique(s),
    ensures
        kv_find(kv_del(s, key), probe) == if probe == key {
            None::<V>
        } else {
            kv_find(s, probe)
        },
    decreases s.len(),
{
    if s.len() == 0 {
    } else if s[0].0 == key {
        lemma_kv_find_none(s.drop_first(), key);
        assert(forall|i: int|
            1 <= i < s.len() ==> s.drop_first()[i - 1] == s[i]);
    } else {
        assert(kv_unique(s.drop_first())) by {
            assert(forall|i: int|
                1 <= i < s.len() ==> s.drop_first()[i - 1] == s[i]);
        }
        lemma_kv_find_del(s.drop_first(), key, probe);
        let out = kv_del(s, key);
        assert(out[0] == s[0]);
        assert(out.drop_first() =~= kv_del(s.drop_first(), key));
    }
}

/// `kv_del` keeps keys pairwise distinct.
pub proof fn lemma_kv_del_unique<V>(s: Seq<(Seq<u8>, V)>, key: Seq<u8>)
    requires
        kv_unique(s),
    ensures
        kv_unique(kv_del(s, key)),
    decreases s.len(),
{
    if s.len() == 0 {
    } else if s[0].0 == key {
        assert(forall|i: int|
            1 <= i < s.len() ==> s.drop_first()[i - 1] == s[i]);
    } else {
        assert(kv_unique(s.drop_first())) by {
            assert(forall|i: int|
                1 <= i < s.len() ==> s.drop_first()[i - 1] == s[i]);
        }
        lemma_kv_del_unique(s.drop_first(), key);
        let tail = kv_del(s.drop_first(), key);
        lemma_kv_find_none(s.drop_first(), s[0].0);
        assert(kv_find(s.drop_first(), s[0].0) is None) by {
            assert(forall|i: int|
                1 <= i < s.len() ==> s.drop_first()[i - 1] == s[i]);
        }
        lemma_kv_find_del(s.drop_first(), key, s[0].0);
        lemma_kv_find_none(tail, s[0].0);
        let out = kv_del(s, key);
        assert(forall|i: int| 1 <= i < out.len() ==> out[i] == tail[i - 1]);
        assert(out[0] == s[0]);
    }
}

/// Lookup after `kv_del_all`, together with preservation of distinctness.
pub proof fn lemma_kv_find_del_all<V>(s: Seq<(Seq<u8>, V)>, keys: Seq<Seq<u8>>, probe: Seq<u8>)
    requires
        kv_unique(s),
    ensures
        kv_unique(kv_del_all(s, keys)),
        kv_find(kv_del_all(s, keys), probe) == if keys.contains(probe) {
            None::<V>
        } else {
            kv_find(s, probe)
        },
    decreases keys.len(),
{
    if keys.len() == 0 {
    } else {
        lemma_kv_find_del_all(s, keys.drop_last(), probe);
        lemma_kv_find_del_all(s, keys.drop_last(), keys.last());
        let mid = kv_del_all(s, keys.drop_last());
        lemma_kv_del_unique(mid, keys.last());
        lemma_kv_find_del(mid, keys.last(), probe);
        if keys.contains(probe) {
            if probe != keys.last() {
                let i = choose|i: int| 0 <= i < keys.len() && keys[i] == probe;
                assert(keys.drop_last()[i] == probe);
                assert(keys.drop_last().contains(probe));
            }
        } else {
            assert(!keys.drop_last().contains(probe)) by {
                if keys.drop_last().contains(probe) {
                    let i = choose|i: int|
                        0 <= i < keys.drop_last().len() && keys.drop_last()[i] == probe;
                    assert(keys[i] == probe);
                }
            }
        }
    }
}

/// Lookup after `kv_set_all`, together with preservation of distinctness.
pub proof fn lemma_kv_find_set_all<V>(s: Seq<(Seq<u8>, V)>, keys: Seq<Seq<u8>>, v: V, probe: Seq<u8>)
    requires
        kv_unique(s),
    ensures
        kv_unique(kv_set_all(s, keys, v)),
        kv_find(kv_set_all(s, keys, v), probe) == if keys.contains(probe) {
            Some(v)
        } else {
            kv_find(s, probe)
        },
    decreases keys.len(),
{
    if keys.len() == 0 {
    } else {
        lemma_kv_find_set_all(s, keys.drop_last(), v, probe);
        let mid = kv_set_all(s, keys.drop_last(), v);
        lemma_kv_set_unique(mid, keys.last(), v);
        lemma_kv_find_set(mid, keys.last(), v, probe);
        if keys.contains(probe) {
            if probe != keys.last() {
                let i = choose|i: int| 0 <= i < keys.len() && keys[i] == probe;
                assert(keys.drop_last()[i] == probe);
                assert(keys.drop_last().contains(probe));
            }
        } else {
            assert(!keys.drop_last().contains(probe)) by {
                if keys.drop_last().contains(probe) {
                    let i = choose|i: int|
                        0 <= i < keys.drop_last().len() && keys.drop_last()[i] == probe;
                    assert(keys[i] == probe);
                }
            }
        }
    }
}

/// Lookup after `kv_del_value`, together with preservation of distinctness.
pub proof fn lemma_kv_find_del_value<V>(s: Seq<(Seq<u8>, V)>, v: V, probe: Seq<u8>)
    requires
        kv_unique(s),
    ensures
        kv_unique(kv_del_value(s, v)),
        kv_find(kv_del_value(s, v), probe) == match kv_find(s, probe) {
            Some(x) => if x == v {
                None::<V>
            } else {
                Some(x)
            },
            None => None::<V>,
        },
    decreases s.len(),
{
    if s.len() > 0 {
        reveal_with_fuel(kv_find, 3);
        reveal_with_fuel(kv_del_value, 3);
        assert(forall|i: int| 1 <= i < s.len() ==> s.drop_first()[i - 1] == s[i]);
        assert(kv_unique(s.drop_first()));
        lemma_kv_find_del_value(s.drop_first(), v, probe);
        lemma_kv_find_del_value(s.drop_first(), v, s[0].0);
        let tail = kv_del_value(s.drop_first(), v);
        lemma_kv_find_none(s.drop_first(), s[0].0);
        assert(kv_find(s.drop_first(), s[0].0) is None);
        lemma_kv_find_none(tail, s[0].0);
        if s[0].1 == v {
        } else {
            let out = kv_del_value(s, v);
            assert(out[0] == s[0]);
            assert(out.drop_first() =~= tail);
            assert(forall|i: int| 1 <= i < out.len() ==> out[i] == tail[i - 1]);
        }
    }
}

/// `kv_set` on a present key is an in-place update.
pub proof fn lemma_kv_set_is_update<V>(s: Seq<(Seq<u8>, V)>, key: Seq<u8>, v: V, i: int)
    requires
        kv_unique(s),
        0 <= i < s.len(),
        s[i].0 == key,
    ensures
        kv_set(s, key, v) == s.update(i, (key, v)),
    decreases s.len(),
{
    if i == 0 {
        assert(kv_set(s, key, v) =~= s.update(0, (key, v)));
    } else {
        assert(s[0].0 != key);
        assert(kv_unique(s.drop_first())) by {
            assert(forall|j: int|
                1 <= j < s.len() ==> s.drop_first()[j - 1] == s[j]);
        }
        assert(s.drop_first()[i - 1] == s[i]);
        lemma_kv_set_is_update(s.drop_first(), key, v, i - 1);
        assert(kv_set(s, key, v) =~= s.update(i, (key, v)));
    }
}

/// `kv_set` on an absent key appends the new binding.
pub proof fn lemma_kv_set_is_push<V>(s: Seq<(Seq<u8>, V)>, key: Seq<u8>, v: V)
    requires
        kv_find(s, key) is None,
    ensures
        kv_set(s, key, v) == s.push((key, v)),
    decreases s.len(),
{
    if s.len() == 0 {
        assert(kv_set(s, key, v) =~= s.push((key, v)));
    } else {
        lemma_kv_set_is_push(s.drop_first(), key, v);
        assert(kv_set(s, key, v) =~= s.push((key, v)));
    }
}

/// `kv_del` of a present key removes exactly its pair.
pub proof fn lemma_kv_del_is_remove<V>(s: Seq<(Seq<u8>, V)>, key: Seq<u8>, i: int)
    requires
        kv_unique(s),
        0 <= i < s.len(),
        s[i].0 == key,
    ensures
        kv_del(s, key) == s.remove(i),
    decreases s.len(),
{
    if i == 0 {
        assert(kv_del(s, key) =~= s.remove(0));
    } else {
        assert(s[0].0 != key);
        assert(kv_unique(s.drop_first())) by {
            assert(forall|j: int|
                1 <= j < s.len() ==> s.drop_first()[j - 1] == s[j]);
        }
        assert(s.drop_first()[i - 1] == s[i]);
        lemma_kv_del_is_remove(s.drop_first(), key, i - 1);
        assert(kv_del(s, key) =~= s.remove(i));
    }
}

/// `kv_del` of an absent key changes nothing.
pub proof fn lemma_kv_del_absent<V>(s: Seq<(Seq<u8>, V)>, key: Seq<u8>)
    requires
        kv_find(s, key) is None,
    ensures
        kv_del(s, key) == s,
    decreases s.len(),
{
    if s.len() > 0 {
        lemma_kv_del_absent(s.drop_first(), key);
        assert(kv_del(s, key) =~= s);
    }
}

/// `kv_del_value` processed front to back: effect of one more pair.
pub proof fn lemma_kv_del_value_push<V>(s: Seq<(Seq<u8>, V)>, p: (Seq<u8>, V), v: V)
    ensures
        kv_del_value(s.push(p), v) == if p.1 == v {
            kv_del_value(s, v)
        } else {
            kv_del_value(s, v).push(p)
        },
    decreases s.len(),
{
    reveal_with_fuel(kv_del_value, 3);
    if s.len() == 0 {
        assert(s.push(p).drop_first() =~= Seq::<(Seq<u8>, V)>::empty());
        assert(s.push(p)[0] == p);
        if p.1 != v {
            assert(kv_del_value(s.push(p), v) =~= kv_del_value(s, v).push(p));
        }
    } else {
        assert(s.push(p).drop_first() =~= s.drop_first().push(p));
        assert(s.push(p)[0] == s[0]);
        lemma_kv_del_value_push(s.drop_first(), p, v);
        if s[0].1 == v {
        } else {
            if p.1 == v {
                assert(kv_del_value(s.push(p), v) =~= kv_del_value(s, v));
            } else {
                assert(kv_del_value(s.push(p), v) =~= kv_del_value(s, v).push(p));
            }
        }
    }
}

} // verus!
