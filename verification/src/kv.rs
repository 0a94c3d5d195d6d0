//! Small maps keyed by strings, kept as vectors of `(key, value)` pairs with
//! distinct keys, in insertion order.
use vstd::prelude::*;
use crate::text::str_eq;

verus! {

/// The map that a list of pairs denotes; a later pair wins over an earlier
/// one with the same key.
pub open spec fn kv_map<V>(s: Seq<(String, V)>) -> Map<Seq<char>, V>
    decreases s.len(),
{
    if s.len() == 0 {
        Map::empty()
    } else {
        kv_map(s.drop_last()).insert(s.last().0@, s.last().1)
    }
}

/// No two pairs share a key.
pub open spec fn keys_distinct<V>(s: Seq<(String, V)>) -> bool {
    forall|i: int, j: int| 0 <= i < j < s.len() ==> #[trigger] s[i].0@ != #[trigger] s[j].0@
}

/// A list of pairs is empty exactly when its map has no key.
pub proof fn lemma_kv_map_empty<V>(s: Seq<(String, V)>)
    ensures
        s.len() == 0 <==> kv_map(s).dom() == Set::<Seq<char>>::empty(),
{
    lemma_kv_map(s);
    if s.len() > 0 {
        assert(kv_map(s).contains_key(s[0].0@));
    } else {
        assert(kv_map(s).dom() =~= Set::<Seq<char>>::empty());
    }
}

/// A key is in the map exactly when some pair has it, and with distinct
/// keys each pair's value is the map's value of its key.
pub proof fn lemma_kv_map<V>(s: Seq<(String, V)>)
    ensures
        forall|k: Seq<char>|
            #[trigger] kv_map(s).contains_key(k) <==> exists|i: int| 0 <= i < s.len() && s[i].0@ == k,
        keys_distinct(s) ==> forall|i: int| 0 <= i < s.len() ==> #[trigger] kv_map(s)[s[i].0@] == s[i].1,
        kv_map(s).dom().finite(),
    decreases s.len(),
{
    if s.len() > 0 {
        let t = s.drop_last();
        lemma_kv_map(t);
        assert forall|k: Seq<char>| #[trigger] kv_map(s).contains_key(k) <==> exists|i: int|
            0 <= i < s.len() && s[i].0@ == k by {
            if kv_map(s).contains_key(k) && k != s.last().0@ {
                let i = choose|i: int| 0 <= i < t.len() && t[i].0@ == k;
                assert(s[i] == t[i]);
            }
            if exists|i: int| 0 <= i < s.len() && s[i].0@ == k {
                let i = choose|i: int| 0 <= i < s.len() && s[i].0@ == k;
                if i < t.len() {
                    assert(t[i] == s[i]);
                }
            }
        }
        if keys_distinct(s) {
            assert forall|i: int| 0 <= i < s.len() implies #[trigger] kv_map(s)[s[i].0@] == s[i].1 by {
                if i < t.len() {
                    assert(t[i] == s[i]);
                    assert(s[i].0@ != s.last().0@);
                }
            }
        }
    }
}

/// Replacing the value of the pair at `i` replaces the map's value of its key.
pub proof fn lemma_kv_update<V>(s: Seq<(String, V)>, i: int, v: V)
    requires
        keys_distinct(s),
        0 <= i < s.len(),
    ensures
        kv_map(s.update(i, (s[i].0, v))) == kv_map(s).insert(s[i].0@, v),
        keys_distinct(s.update(i, (s[i].0, v))),
    decreases s.len(),
{
    let u = s.update(i, (s[i].0, v));
    assert(u.drop_last() == if i == s.len() - 1 {
        s.drop_last()
    } else {
        s.drop_last().update(i, (s[i].0, v))
    });
    if i < s.len() - 1 {
        assert(s.drop_last()[i] == s[i]);
        lemma_kv_update(s.drop_last(), i, v);
        assert(s[i].0@ != s.last().0@);
    }
    assert(kv_map(u) =~= kv_map(s).insert(s[i].0@, v));
}

/// Adding a pair with a new key adds that key to the map.
pub proof fn lemma_kv_push<V>(s: Seq<(String, V)>, k: String, v: V)
    requires
        keys_distinct(s),
        !kv_map(s).contains_key(k@),
    ensures
        kv_map(s.push((k, v))) == kv_map(s).insert(k@, v),
        keys_distinct(s.push((k, v))),
{
    lemma_kv_map(s);
    assert(s.push((k, v)).drop_last() == s);
    let p = s.push((k, v));
    assert forall|i: int, j: int| 0 <= i < j < p.len() implies #[trigger] p[i].0@ != #[trigger] p[j].0@ by {
        if j == s.len() {
            assert(p[i] == s[i]);
        } else {
            assert(p[i] == s[i]);
            assert(p[j] == s[j]);
        }
    }
}

/// The position of the pair with key `key`.
pub fn kv_find<V>(s: &Vec<(String, V)>, key: &str) -> (r: Option<usize>)
    ensures
        match r {
            Some(i) => i < s@.len() && s@[i as int].0@ == key@,
            None => forall|i: int| 0 <= i < s@.len() ==> #[trigger] s@[i].0@ != key@,
        },
{
    let mut i: usize = 0;
    while i < s.len()
        invariant
            i <= s.len(),
            forall|j: int| 0 <= j < i ==> #[trigger] s@[j].0@ != key@,
        decreases s.len() - i,
    {
        if str_eq(s[i].0.as_str(), key) {
            return Some(i);
        }
        i += 1;
    }
    None
}

} // verus!
