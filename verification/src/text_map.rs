//! A map keyed by text that keeps its keys in the order of `String`, as
//! `BTreeMap<String, V>` does: walking it yields the keys in that order, each
//! once.

use vstd::prelude::*;
use crate::text::{
    lemma_text_before_irreflexive, lemma_text_before_transitive,
    text_before, text_order, views_of, TextOrder,
};

verus! {

/// Every key comes before every later key.
pub open spec fn strictly_sorted(keys: Seq<Seq<char>>) -> bool {
    forall|i: int, j: int| 0 <= i < j < keys.len() ==> text_before(#[trigger] keys[i], #[trigger] keys[j])
}

/// The map that pairs each key with the value at the same position.
pub open spec fn map_of<V>(keys: Seq<Seq<char>>, values: Seq<V>) -> Map<Seq<char>, V> {
    Map::new(|k: Seq<char>| keys.contains(k), |k: Seq<char>| values[keys.index_of(k)])
}

/// In a strictly sorted list each key stands at one place only.
pub proof fn lemma_sorted_unique(keys: Seq<Seq<char>>, i: int, j: int)
    requires
        strictly_sorted(keys),
        0 <= i < keys.len(),
        0 <= j < keys.len(),
        keys[i] == keys[j],
    ensures
        i == j,
{
    lemma_text_before_irreflexive(keys[i]);
    if i < j {
        assert(text_before(keys[i], keys[j]));
    } else if j < i {
        assert(text_before(keys[j], keys[i]));
    }
}

/// The value the map gives a listed key is the one at its position.
pub proof fn lemma_map_of_at<V>(keys: Seq<Seq<char>>, values: Seq<V>, i: int)
    requires
        strictly_sorted(keys),
        0 <= i < keys.len(),
    ensures
        map_of(keys, values).contains_key(keys[i]),
        map_of(keys, values)[keys[i]] == values[i],
{
    assert(keys.contains(keys[i]));
    let j = keys.index_of(keys[i]);
    lemma_sorted_unique(keys, i, j);
}

/// Putting `k` where it belongs keeps the keys sorted.
proof fn lemma_sorted_insert(keys: Seq<Seq<char>>, p: int, k: Seq<char>)
    requires
        strictly_sorted(keys),
        0 <= p <= keys.len(),
        forall|j: int| 0 <= j < p ==> text_before(#[trigger] keys[j], k),
        forall|j: int| p <= j < keys.len() ==> text_before(k, #[trigger] keys[j]),
    ensures
        strictly_sorted(keys.insert(p, k)),
{
    let nk = keys.insert(p, k);
    keys.insert_ensures(p, k);
    assert forall|i: int, j: int| 0 <= i < j < nk.len() implies text_before(
        #[trigger] nk[i],
        #[trigger] nk[j],
    ) by {
        if i < p && j < p {
            assert(nk[i] == keys[i] && nk[j] == keys[j]);
        } else if i < p && j == p {
            assert(nk[i] == keys[i]);
        } else if i < p {
            assert(nk[i] == keys[i] && nk[j] == keys[j - 1]);
            if i < j - 1 {
                assert(text_before(keys[i], keys[j - 1]));
            }
        } else if i == p {
            assert(nk[j] == keys[j - 1]);
        } else {
            assert(nk[i] == keys[i - 1] && nk[j] == keys[j - 1]);
            assert(text_before(keys[i - 1], keys[j - 1]));
        }
    }
}

/// Dropping a key keeps the rest sorted.
proof fn lemma_sorted_remove(keys: Seq<Seq<char>>, i: int)
    requires
        strictly_sorted(keys),
        0 <= i < keys.len(),
    ensures
        strictly_sorted(keys.remove(i)),
{
    let nk = keys.remove(i);
    keys.remove_ensures(i);
    assert forall|a: int, b: int| 0 <= a < b < nk.len() implies text_before(
        #[trigger] nk[a],
        #[trigger] nk[b],
    ) by {
        let a2 = if a < i { a } else { a + 1 };
        let b2 = if b < i { b } else { b + 1 };
        assert(nk[a] == keys[a2] && nk[b] == keys[b2]);
        assert(text_before(keys[a2], keys[b2]));
    }
}

/// Adding a new key and its value adds that pair to the map.
proof fn lemma_map_of_insert<V>(keys: Seq<Seq<char>>, values: Seq<V>, p: int, k: Seq<char>, v: V)
    requires
        strictly_sorted(keys),
        strictly_sorted(keys.insert(p, k)),
        keys.len() == values.len(),
        0 <= p <= keys.len(),
    ensures
        map_of(keys.insert(p, k), values.insert(p, v)) == map_of(keys, values).insert(k, v),
{
    let nk = keys.insert(p, k);
    let nv = values.insert(p, v);
    keys.insert_ensures(p, k);
    values.insert_ensures(p, v);
    let m = map_of(nk, nv);
    let o = map_of(keys, values).insert(k, v);
    assert forall|x: Seq<char>| m.contains_key(x) <==> o.contains_key(x) by {
        if nk.contains(x) {
            let j = nk.index_of(x);
            if j < p {
                assert(keys[j] == x);
            } else if j > p {
                assert(keys[j - 1] == x);
            }
        }
        if keys.contains(x) {
            let j = keys.index_of(x);
            if j < p {
                assert(nk[j] == x);
            } else {
                assert(nk[j + 1] == x);
            }
        }
        if x == k {
            assert(nk[p] == x);
        }
    }
    assert forall|x: Seq<char>| #[trigger] m.contains_key(x) implies m[x] == o[x] by {
        if x == k {
            lemma_map_of_at(nk, nv, p);
        } else {
            let j = keys.index_of(x);
            lemma_map_of_at(keys, values, j);
            let j2 = if j < p { j } else { j + 1 };
            assert(nk[j2] == x);
            lemma_map_of_at(nk, nv, j2);
        }
    }
    assert(m =~= o);
}

/// Replacing the value at a listed key replaces it in the map.
proof fn lemma_map_of_update<V>(keys: Seq<Seq<char>>, values: Seq<V>, i: int, v: V)
    requires
        strictly_sorted(keys),
        keys.len() == values.len(),
        0 <= i < keys.len(),
    ensures
        map_of(keys, values.update(i, v)) == map_of(keys, values).insert(keys[i], v),
{
    let nv = values.update(i, v);
    let m = map_of(keys, nv);
    let o = map_of(keys, values).insert(keys[i], v);
    assert forall|x: Seq<char>| m.contains_key(x) <==> o.contains_key(x) by {
        if x == keys[i] {
            assert(keys.contains(x));
        }
    }
    assert forall|x: Seq<char>| #[trigger] m.contains_key(x) implies m[x] == o[x] by {
        let j = keys.index_of(x);
        lemma_map_of_at(keys, values, j);
        lemma_map_of_at(keys, nv, j);
        if x == keys[i] {
            lemma_sorted_unique(keys, i, j);
        }
    }
    assert(m =~= o);
}

/// Dropping a listed key and its value drops it from the map.
proof fn lemma_map_of_remove<V>(keys: Seq<Seq<char>>, values: Seq<V>, i: int)
    requires
        strictly_sorted(keys),
        keys.len() == values.len(),
        0 <= i < keys.len(),
    ensures
        map_of(keys.remove(i), values.remove(i)) == map_of(keys, values).remove(keys[i]),
{
    let nk = keys.remove(i);
    let nv = values.remove(i);
    keys.remove_ensures(i);
    values.remove_ensures(i);
    lemma_sorted_remove(keys, i);
    let m = map_of(nk, nv);
    let o = map_of(keys, values).remove(keys[i]);
    assert forall|x: Seq<char>| m.contains_key(x) <==> o.contains_key(x) by {
        if nk.contains(x) {
            let j = nk.index_of(x);
            let j2 = if j < i { j } else { j + 1 };
            assert(keys[j2] == x);
            if x == keys[i] {
                lemma_sorted_unique(keys, i, j2);
            }
        }
        if keys.contains(x) && x != keys[i] {
            let j = keys.index_of(x);
            if j < i {
                assert(nk[j] == x);
            } else {
                assert(nk[j - 1] == x);
            }
        }
    }
    assert forall|x: Seq<char>| #[trigger] m.contains_key(x) implies m[x] == o[x] by {
        let j = nk.index_of(x);
        let j2 = if j < i { j } else { j + 1 };
        assert(keys[j2] == x);
        lemma_map_of_at(nk, nv, j);
        lemma_map_of_at(keys, values, j2);
    }
    assert(m =~= o);
}

/// A map from text keys to values, kept in key order.
pub struct TextMap<V> {
    entries: Vec<(String, V)>,
}

impl<V> TextMap<V> {
    /// The keys, in order.
    pub closed spec fn keys(&self) -> Seq<Seq<char>> {
        Seq::new(self.entries@.len(), |i: int| self.entries@[i].0@)
    }

    /// The values, in the order of their keys.
    pub closed spec fn values(&self) -> Seq<V> {
        Seq::new(self.entries@.len(), |i: int| self.entries@[i].1)
    }

    /// The keys are in strictly increasing order.
    pub open spec fn wf(&self) -> bool {
        &&& strictly_sorted(self.keys())
        &&& self.keys().len() == self.values().len()
    }

    /// What the map holds.
    pub open spec fn view(&self) -> Map<Seq<char>, V> {
        map_of(self.keys(), self.values())
    }

    /// An empty map.
    pub fn new() -> (r: Self)
        ensures
            r.wf(),
            r.keys() == Seq::<Seq<char>>::empty(),
            r@ == Map::<Seq<char>, V>::empty(),
    {
        let r = TextMap { entries: Vec::new() };
        assert(r.keys() =~= Seq::<Seq<char>>::empty());
        assert(r@ =~= Map::<Seq<char>, V>::empty());
        r
    }

    /// The number of keys.
    pub fn len(&self) -> (r: usize)
        ensures
            r == self.keys().len(),
    {
        self.entries.len()
    }

    /// The key and value at position `i`.
    pub fn entry_at(&self, i: usize) -> (r: (&String, &V))
        requires
            i < self.keys().len(),
        ensures
            r.0@ == self.keys()[i as int],
            *r.1 == self.values()[i as int],
    {
        let e = &self.entries[i];
        (&e.0, &e.1)
    }

    /// Where `key` stands: its position, or the position at which it would go.
    fn find(&self, key: &str) -> (r: Result<usize, usize>)
        requires
            self.wf(),
        ensures
            r matches Ok(i) ==> i < self.keys().len() && self.keys()[i as int] == key@,
            r matches Err(p) ==> p <= self.keys().len() && (forall|j: int|
                0 <= j < p ==> text_before(#[trigger] self.keys()[j], key@)) && (forall|j: int|
                p <= j < self.keys().len() ==> text_before(key@, #[trigger] self.keys()[j])),
    {
        let n = self.entries.len();
        let mut i: usize = 0;
        while i < n
            invariant
                self.wf(),
                n == self.keys().len(),
                i <= n,
                forall|j: int| 0 <= j < i ==> text_before(#[trigger] self.keys()[j], key@),
            decreases n - i,
        {
            let o = text_order(key, self.entries[i].0.as_str());
            assert(self.keys()[i as int] == self.entries@[i as int].0@);
            match o {
                TextOrder::Same => {
                    return Ok(i);
                },
                TextOrder::Before => {
                    assert forall|j: int| i <= j < n implies text_before(
                        key@,
                        #[trigger] self.keys()[j],
                    ) by {
                        if j > i {
                            lemma_text_before_transitive(key@, self.keys()[i as int], self.keys()[j]);
                        }
                    }
                    return Err(i);
                },
                TextOrder::After => {},
            }
            i = i + 1;
        }
        Err(n)
    }

    /// The value stored under `key`, if any.
    pub fn get(&self, key: &str) -> (r: Option<&V>)
        requires
            self.wf(),
        ensures
            r is Some <==> self@.contains_key(key@),
            r matches Some(v) ==> *v == self@[key@],
    {
        match self.find(key) {
            Ok(i) => {
                proof {
                    lemma_map_of_at(self.keys(), self.values(), i as int);
                }
                Some(&self.entries[i].1)
            },
            Err(p) => {
                proof {
                    if self.keys().contains(key@) {
                        let j = self.keys().index_of(key@);
                        lemma_text_before_irreflexive(key@);
                        if j < p {
                            assert(text_before(self.keys()[j], key@));
                        } else {
                            assert(text_before(key@, self.keys()[j]));
                        }
                    }
                }
                None
            },
        }
    }

    /// Stores `value` under `key`, replacing what was stored there.
    pub fn insert(&mut self, key: String, value: V)
        requires
            old(self).wf(),
        ensures
            final(self).wf(),
            final(self)@ == old(self)@.insert(key@, value),
    {
        let ghost ok = self.keys();
        let ghost ov = self.values();
        match self.find(key.as_str()) {
            Ok(i) => {
                let ghost k = key@;
                self.entries.remove(i);
                self.entries.insert(i, (key, value));
                assert(self.keys() =~= ok);
                assert(self.values() =~= ov.update(i as int, value));
                proof {
                    lemma_map_of_update(ok, ov, i as int, value);
                }
            },
            Err(p) => {
                let ghost k = key@;
                self.entries.insert(p, (key, value));
                assert(self.keys() =~= ok.insert(p as int, k));
                assert(self.values() =~= ov.insert(p as int, value));
                proof {
                    lemma_sorted_insert(ok, p as int, k);
                    lemma_map_of_insert(ok, ov, p as int, k, value);
                }
            },
        }
    }

    /// Removes what is stored under `key` and hands it back.
    pub fn take(&mut self, key: &str) -> (r: Option<V>)
        requires
            old(self).wf(),
        ensures
            final(self).wf(),
            final(self)@ == old(self)@.remove(key@),
            r is Some <==> old(self)@.contains_key(key@),
            r matches Some(v) ==> v == old(self)@[key@],
    {
        let ghost ok = self.keys();
        let ghost ov = self.values();
        match self.find(key) {
            Ok(i) => {
                let e = self.entries.remove(i);
                assert(self.keys() =~= ok.remove(i as int));
                assert(self.values() =~= ov.remove(i as int));
                proof {
                    lemma_sorted_remove(ok, i as int);
                    lemma_map_of_remove(ok, ov, i as int);
                    lemma_map_of_at(ok, ov, i as int);
                }
                Some(e.1)
            },
            Err(p) => {
                proof {
                    if ok.contains(key@) {
                        let j = ok.index_of(key@);
                        lemma_text_before_irreflexive(key@);
                        if j < p {
                            assert(text_before(ok[j], key@));
                        } else {
                            assert(text_before(key@, ok[j]));
                        }
                    }
                    assert(old(self)@.remove(key@) =~= old(self)@);
                }
                None
            },
        }
    }

    /// The keys, in order, as strings.
    pub fn key_list(&self) -> (r: Vec<String>)
        ensures
            views_of(r@) == self.keys(),
    {
        let mut out: Vec<String> = Vec::new();
        let mut i: usize = 0;
        while i < self.entries.len()
            invariant
                i <= self.entries@.len(),
                views_of(out@) == self.keys().take(i as int),
            decreases self.entries.len() - i,
        {
            let ghost before = out@;
            let k = self.entries[i].0.clone();
            assert(k@ == self.keys()[i as int]);
            out.push(k);
            assert(views_of(out@) =~= views_of(before).push(k@));
            assert(self.keys().take(i + 1) =~= self.keys().take(i as int).push(self.keys()[i as int]));
            i = i + 1;
        }
        assert(self.keys().take(i as int) =~= self.keys());
        out
    }

    /// The listed keys are the keys the map holds, each listed once, in
    /// increasing order, and each with its value.
    pub proof fn lemma_keys_in_order(&self)
        requires
            self.wf(),
        ensures
            strictly_sorted(self.keys()),
            self.keys().no_duplicates(),
            forall|k: Seq<char>| self@.contains_key(k) <==> self.keys().contains(k),
            forall|i: int|
                0 <= i < self.keys().len() ==> #[trigger] self@[self.keys()[i]] == self.values()[i],
    {
        assert forall|i: int| 0 <= i < self.keys().len() implies #[trigger] self@[self.keys()[i]]
            == self.values()[i] by {
            lemma_map_of_at(self.keys(), self.values(), i);
        }
        assert forall|i: int, j: int|
            0 <= i < self.keys().len() && 0 <= j < self.keys().len() && i != j implies self.keys()[i]
            != self.keys()[j] by {
            if self.keys()[i] == self.keys()[j] {
                lemma_sorted_unique(self.keys(), i, j);
            }
        }
    }
}

} // verus!
