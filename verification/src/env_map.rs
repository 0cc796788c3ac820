//! A map from names to values kept sorted by name, as an environment or a
//! set of secrets needs it.
use vstd::prelude::*;

use crate::text::{
    lemma_text_lt_irreflexive, lemma_text_lt_total, lemma_text_lt_trans, owned, strictly_sorted,
    text_lt, text_lt_exec,
};

verus! {

/// Abstract state of an [`EnvMap`]: the names in ascending order and their
/// values at the same positions.
pub struct EnvMapView {
    pub keys: Seq<Seq<char>>,
    pub values: Seq<Seq<char>>,
}

pub open spec fn env_map_wf(m: EnvMapView) -> bool {
    m.keys.len() == m.values.len() && strictly_sorted(m.keys)
}

pub open spec fn empty_env_map() -> EnvMapView {
    EnvMapView { keys: seq![], values: seq![] }
}

/// Number of keys that sort strictly before `key`: where `key` belongs.
pub open spec fn count_lt(keys: Seq<Seq<char>>, key: Seq<char>) -> nat
    decreases keys.len(),
{
    if keys.len() == 0 {
        0
    } else {
        count_lt(keys.drop_last(), key) + if text_lt(keys.last(), key) {
            1nat
        } else {
            0nat
        }
    }
}

/// Stores `value` under `key`, replacing an earlier value and keeping the
/// keys sorted.
pub open spec fn map_insert(m: EnvMapView, key: Seq<char>, value: Seq<char>) -> EnvMapView {
    let k = count_lt(m.keys, key) as int;
    if k < m.keys.len() && m.keys[k] == key {
        EnvMapView { keys: m.keys, values: m.values.update(k, value) }
    } else {
        EnvMapView { keys: m.keys.insert(k, key), values: m.values.insert(k, value) }
    }
}

/// The value stored under `key`, if any.
pub open spec fn map_get(m: EnvMapView, key: Seq<char>) -> Option<Seq<char>> {
    if m.keys.contains(key) {
        Some(m.values[m.keys.index_of(key)])
    } else {
        None
    }
}

/// Inserts every pair of `other`, in its order, into `m`.
pub open spec fn map_extend(m: EnvMapView, other: EnvMapView) -> EnvMapView
    decreases other.keys.len(),
{
    if other.keys.len() == 0 {
        m
    } else {
        map_extend(
            map_insert(m, other.keys[0], other.values[0]),
            EnvMapView { keys: other.keys.drop_first(), values: other.values.drop_first() },
        )
    }
}

pub proof fn lemma_count_lt_props(keys: Seq<Seq<char>>, key: Seq<char>)
    requires
        strictly_sorted(keys),
    ensures
        count_lt(keys, key) <= keys.len(),
        forall|j: int| 0 <= j < count_lt(keys, key) ==> text_lt(#[trigger] keys[j], key),
        forall|j: int| count_lt(keys, key) <= j < keys.len() ==> !text_lt(#[trigger] keys[j], key),
    decreases keys.len(),
{
    if keys.len() > 0 {
        let d = keys.drop_last();
        assert(strictly_sorted(d)) by {
            assert forall|a: int, b: int| 0 <= a < b < d.len() implies text_lt(
                #[trigger] d[a],
                #[trigger] d[b],
            ) by {
                assert(d[a] == keys[a] && d[b] == keys[b]);
            }
        }
        lemma_count_lt_props(d, key);
        let last = keys.last();
        if text_lt(last, key) {
            assert forall|j: int| 0 <= j < keys.len() implies text_lt(#[trigger] keys[j], key) by {
                if j < keys.len() - 1 {
                    assert(text_lt(keys[j], last));
                    lemma_text_lt_trans(keys[j], last, key);
                }
            }
        } else {
            assert forall|j: int| count_lt(keys, key) <= j < keys.len() implies !text_lt(
                #[trigger] keys[j],
                key,
            ) by {
                if j < keys.len() - 1 {
                    assert(d[j] == keys[j]);
                }
            }
            assert forall|j: int| 0 <= j < count_lt(keys, key) implies text_lt(
                #[trigger] keys[j],
                key,
            ) by {
                assert(d[j] == keys[j]);
            }
        }
    }
}

pub proof fn lemma_index_of_unique(keys: Seq<Seq<char>>, i: int)
    requires
        strictly_sorted(keys),
        0 <= i < keys.len(),
    ensures
        keys.index_of(keys[i]) == i,
        keys.contains(keys[i]),
{
    let j = keys.index_of(keys[i]);
    assert(keys[i] == keys[i]);
    if j != i {
        if j < i {
            assert(text_lt(keys[j], keys[i]));
        } else {
            assert(text_lt(keys[i], keys[j]));
        }
        lemma_text_lt_irreflexive(keys[i]);
    }
}

/// Every key reads back the value at its position.
pub proof fn lemma_map_get_at(m: EnvMapView, i: int)
    requires
        env_map_wf(m),
        0 <= i < m.keys.len(),
    ensures
        map_get(m, m.keys[i]) == Some(m.values[i]),
{
    lemma_index_of_unique(m.keys, i);
}

/// A read gives back the last write: inserting keeps the map sorted, makes
/// `key` read `value`, and leaves every other key as it was.
pub proof fn lemma_map_insert(m: EnvMapView, key: Seq<char>, value: Seq<char>)
    requires
        env_map_wf(m),
    ensures
        env_map_wf(map_insert(m, key, value)),
        map_get(map_insert(m, key, value), key) == Some(value),
        forall|n: Seq<char>|
            n != key ==> map_get(map_insert(m, key, value), n) == #[trigger] map_get(m, n),
        forall|n: Seq<char>|
            #[trigger] map_insert(m, key, value).keys.contains(n) == (m.keys.contains(n) || n
                == key),
        forall|i: int|
            0 <= i < map_insert(m, key, value).values.len() ==> (#[trigger] map_insert(
                m,
                key,
                value,
            ).values[i] == value || m.values.contains(map_insert(m, key, value).values[i])),
{
    let w = map_insert(m, key, value);
    let k = count_lt(m.keys, key) as int;
    lemma_count_lt_props(m.keys, key);
    if k < m.keys.len() && m.keys[k] == key {
        lemma_index_of_unique(m.keys, k);
        assert forall|n: Seq<char>| n != key implies map_get(w, n) == #[trigger] map_get(m, n) by {
            if m.keys.contains(n) {
                let j = m.keys.index_of(n);
                lemma_index_of_unique(m.keys, j);
            }
        }
        assert forall|i: int| 0 <= i < w.values.len() implies (#[trigger] w.values[i] == value
            || m.values.contains(w.values[i])) by {
            if i != k {
                assert(m.values[i] == w.values[i]);
            }
        }
    } else {
        let keys2 = m.keys.insert(k, key);
        m.keys.insert_ensures(k, key);
        m.values.insert_ensures(k, value);
        assert(!m.keys.contains(key)) by {
            if m.keys.contains(key) {
                let j = m.keys.index_of(key);
                if j < k {
                    assert(text_lt(m.keys[j], key));
                    lemma_text_lt_irreflexive(key);
                } else if j > k {
                    assert(text_lt(m.keys[k], m.keys[j]));
                    lemma_text_lt_total(m.keys[k], key);
                    lemma_text_lt_trans(m.keys[k], m.keys[j], key);
                    lemma_text_lt_irreflexive(key);
                }
            }
        }
        assert(strictly_sorted(keys2)) by {
            assert forall|a: int, b: int| 0 <= a < b < keys2.len() implies text_lt(
                #[trigger] keys2[a],
                #[trigger] keys2[b],
            ) by {
                if a < k && b == k {
                } else if a < k && b > k {
                    assert(keys2[b] == m.keys[b - 1]);
                } else if a == k && b > k {
                    assert(keys2[b] == m.keys[b - 1]);
                    lemma_text_lt_total(m.keys[k], key);
                    if b - 1 > k {
                        lemma_text_lt_trans(key, m.keys[k], m.keys[b - 1]);
                    }
                } else if a > k {
                    assert(keys2[a] == m.keys[a - 1]);
                    assert(keys2[b] == m.keys[b - 1]);
                }
            }
        }
        lemma_index_of_unique(keys2, k);
        assert forall|n: Seq<char>| n != key implies map_get(w, n) == #[trigger] map_get(m, n) by {
            if m.keys.contains(n) {
                let j = m.keys.index_of(n);
                lemma_index_of_unique(m.keys, j);
                let j2 = if j < k {
                    j
                } else {
                    j + 1
                };
                assert(keys2[j2] == n);
                lemma_index_of_unique(keys2, j2);
            } else if keys2.contains(n) {
                let t = keys2.index_of(n);
                if t < k {
                    assert(m.keys[t] == n);
                } else if t > k {
                    assert(m.keys[t - 1] == n);
                }
            }
        }
        assert forall|n: Seq<char>| #[trigger] keys2.contains(n) == (m.keys.contains(n) || n == key) by {
            if m.keys.contains(n) {
                let j = m.keys.index_of(n);
                if j < k {
                    assert(keys2[j] == n);
                } else {
                    assert(keys2[j + 1] == n);
                }
            }
            if keys2.contains(n) {
                let t = keys2.index_of(n);
                if t < k {
                    assert(m.keys[t] == n);
                } else if t > k {
                    assert(m.keys[t - 1] == n);
                }
            }
        }
        assert forall|i: int| 0 <= i < w.values.len() implies (#[trigger] w.values[i] == value
            || m.values.contains(w.values[i])) by {
            if i < k {
                assert(m.values[i] == w.values[i]);
            } else if i > k {
                assert(m.values[i - 1] == w.values[i]);
            }
        }
    }
}

/// A map from names to values, sorted by name.
pub struct EnvMap {
    keys: Vec<String>,
    values: Vec<String>,
}

impl View for EnvMap {
    type V = EnvMapView;

    closed spec fn view(&self) -> EnvMapView {
        EnvMapView { keys: self.keys.deep_view(), values: self.values.deep_view() }
    }
}

impl EnvMap {
    #[verifier::type_invariant]
    spec fn inv(&self) -> bool {
        env_map_wf(self@)
    }

    /// An empty map.
    pub fn new() -> (m: Self)
        ensures
            m@ == empty_env_map(),
    {
        let m = EnvMap { keys: Vec::new(), values: Vec::new() };
        assert(m@.keys =~= Seq::<Seq<char>>::empty());
        assert(m@.values =~= Seq::<Seq<char>>::empty());
        m
    }

    pub fn len(&self) -> (n: usize)
        ensures
            n == self@.keys.len(),
    {
        proof {
            use_type_invariant(self);
        }
        self.keys.len()
    }

    /// Stores `value` under `key`.
    pub fn insert(&mut self, key: &str, value: &str)
        ensures
            final(self)@ == map_insert(old(self)@, key@, value@),
    {
        proof {
            use_type_invariant(&*self);
            lemma_map_insert(self@, key@, value@);
        }
        let ghost old_view = self@;
        let mut keys = self.keys.clone();
        let mut values = self.values.clone();
        assert(keys.deep_view() =~= old_view.keys);
        assert(values.deep_view() =~= old_view.values);
        let mut k: usize = 0;
        while k < keys.len() && text_lt_exec(keys[k].as_str(), key)
            invariant
                k <= keys.len(),
                keys.deep_view() == old_view.keys,
                forall|j: int| 0 <= j < k ==> text_lt(#[trigger] old_view.keys[j], key@),
            decreases keys.len() - k,
        {
            k = k + 1;
        }
        proof {
            lemma_count_lt_props(old_view.keys, key@);
            let c = count_lt(old_view.keys, key@) as int;
            if (k as int) < c {
                assert(text_lt(old_view.keys[k as int], key@));
            }
            if (k as int) > c {
                assert(text_lt(old_view.keys[c], key@));
            }
        }
        let key_s = owned(key);
        if k < keys.len() && keys[k] == key_s {
            values.set(k, owned(value));
            assert(values.deep_view() =~= old_view.values.update(k as int, value@));
        } else {
            keys.insert(k, key_s);
            values.insert(k, owned(value));
            assert(keys.deep_view() =~= old_view.keys.insert(k as int, key@));
            assert(values.deep_view() =~= old_view.values.insert(k as int, value@));
        }
        *self = EnvMap { keys, values };
    }

    /// Inserts every pair of `other`, in name order.
    pub fn extend(&mut self, other: &EnvMap)
        ensures
            final(self)@ == map_extend(old(self)@, other@),
    {
        proof {
            use_type_invariant(other);
        }
        let mut i: usize = 0;
        let ghost ov = other@;
        assert(ov.keys.skip(0) =~= ov.keys);
        assert(ov.values.skip(0) =~= ov.values);
        while i < other.keys.len()
            invariant
                i <= other.keys.len(),
                ov == other@,
                ov.keys.len() == ov.values.len(),
                map_extend(old(self)@, ov) == map_extend(
                    self@,
                    EnvMapView { keys: ov.keys.skip(i as int), values: ov.values.skip(i as int) },
                ),
            decreases other.keys.len() - i,
        {
            assert(ov.keys[i as int] == other.keys[i as int]@);
            assert(ov.values[i as int] == other.values[i as int]@);
            assert(ov.keys.skip(i as int).drop_first() =~= ov.keys.skip(i + 1));
            assert(ov.values.skip(i as int).drop_first() =~= ov.values.skip(i + 1));
            self.insert(other.keys[i].as_str(), other.values[i].as_str());
            i = i + 1;
        }
        assert(ov.keys.skip(i as int) =~= Seq::<Seq<char>>::empty());
    }

    /// The names, ascending.
    pub fn keys(&self) -> (r: Vec<String>)
        ensures
            r.deep_view() == self@.keys,
    {
        let r = self.keys.clone();
        assert(r.deep_view() =~= self@.keys);
        r
    }

    /// The values, in name order.
    pub fn values(&self) -> (r: Vec<String>)
        ensures
            r.deep_view() == self@.values,
    {
        let r = self.values.clone();
        assert(r.deep_view() =~= self@.values);
        r
    }

    /// The name/value pairs in name order.
    pub fn pairs(&self) -> (r: Vec<(String, String)>)
        ensures
            r.len() == self@.keys.len(),
            forall|i: int|
                0 <= i < r.len() ==> (#[trigger] r@[i]).0@ == self@.keys[i] && r@[i].1@
                    == self@.values[i],
    {
        proof {
            use_type_invariant(self);
        }
        let mut r: Vec<(String, String)> = Vec::new();
        let mut i: usize = 0;
        while i < self.keys.len()
            invariant
                i <= self.keys.len(),
                self.keys.len() == self.values.len(),
                r.len() == i,
                forall|t: int|
                    0 <= t < i ==> (#[trigger] r@[t]).0@ == self@.keys[t] && r@[t].1@
                        == self@.values[t],
            decreases self.keys.len() - i,
        {
            assert(self@.keys[i as int] == self.keys[i as int]@);
            assert(self@.values[i as int] == self.values[i as int]@);
            r.push((self.keys[i].clone(), self.values[i].clone()));
            i = i + 1;
        }
        r
    }
}

impl Clone for EnvMap {
    fn clone(&self) -> (r: Self)
        ensures
            r@ == self@,
    {
        proof {
            use_type_invariant(self);
        }
        let keys = self.keys.clone();
        let values = self.values.clone();
        assert(keys.deep_view() =~= self@.keys);
        assert(values.deep_view() =~= self@.values);
        EnvMap { keys, values }
    }
}

} // verus!
