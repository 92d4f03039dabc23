//! A map from texts to values, kept in the order of its keys.

use vstd::prelude::*;
use crate::text::{compare, lemma_text_order, text_before, Order};

verus! {

/// Whether each key comes before all that follow it.
pub open spec fn ascending(keys: Seq<Seq<char>>) -> bool {
    forall|i: int, j: int|
        0 <= i < j < keys.len() ==> text_before(#[trigger] keys[i], #[trigger] keys[j])
}

/// The map that holds `values[i]` under `keys[i]`.
pub open spec fn map_of<T>(keys: Seq<Seq<char>>, values: Seq<T>) -> Map<Seq<char>, T> {
    Map::new(|k: Seq<char>| keys.contains(k), |k: Seq<char>| values[keys.index_of(k)])
}

/// In ascending keys nothing occurs twice, so each key has one place.
pub proof fn lemma_ascending_distinct(keys: Seq<Seq<char>>)
    requires
        ascending(keys),
    ensures
        keys.no_duplicates(),
        forall|i: int| 0 <= i < keys.len() ==> #[trigger] keys.index_of(keys[i]) == i,
{
    assert forall|i: int, j: int| 0 <= i < keys.len() && 0 <= j < keys.len() && i != j implies keys[i]
        != keys[j] by {
        lemma_text_order(keys[i], keys[j], keys[i]);
        lemma_text_order(keys[j], keys[i], keys[j]);
    }
    assert forall|i: int| 0 <= i < keys.len() implies #[trigger] keys.index_of(keys[i]) == i by {
        let j = keys.index_of(keys[i]);
        assert(0 <= j < keys.len() && keys[j] == keys[i]);
    }
}

/// What the map holds under each of its keys, and that it holds nothing else.
pub proof fn lemma_map_of<T>(keys: Seq<Seq<char>>, values: Seq<T>)
    requires
        ascending(keys),
        keys.len() == values.len(),
    ensures
        forall|i: int|
            0 <= i < keys.len() ==> map_of(keys, values).dom().contains(#[trigger] keys[i])
                && map_of(keys, values)[keys[i]] == values[i],
        forall|k: Seq<char>| #[trigger]
            map_of(keys, values).dom().contains(k) ==> keys.contains(k),
        map_of(keys, values).dom() == keys.to_set(),
        map_of(keys, values).dom().finite(),
        map_of(keys, values).dom().len() == keys.len(),
{
    lemma_ascending_distinct(keys);
    assert(map_of(keys, values).dom() =~= keys.to_set());
    keys.unique_seq_to_set();
    vstd::seq_lib::seq_to_set_is_finite(keys);
}

/// Putting a new key in its place puts it into the map.
pub proof fn lemma_insert_new<T>(keys: Seq<Seq<char>>, values: Seq<T>, pos: int, k: Seq<char>, v: T)
    requires
        ascending(keys),
        keys.len() == values.len(),
        0 <= pos <= keys.len(),
        forall|i: int| 0 <= i < pos ==> text_before(#[trigger] keys[i], k),
        forall|i: int| pos <= i < keys.len() ==> text_before(k, #[trigger] keys[i]),
    ensures
        ascending(keys.insert(pos, k)),
        map_of(keys.insert(pos, k), values.insert(pos, v)) == map_of(keys, values).insert(k, v),
{
    let nk = keys.insert(pos, k);
    let nv = values.insert(pos, v);
    assert forall|i: int, j: int| 0 <= i < j < nk.len() implies text_before(
        #[trigger] nk[i],
        #[trigger] nk[j],
    ) by {
        if j < pos {
            assert(nk[i] == keys[i] && nk[j] == keys[j]);
        } else if j == pos {
            assert(nk[i] == keys[i]);
        } else if i < pos {
            assert(nk[i] == keys[i] && nk[j] == keys[j - 1]);
        } else if i == pos {
            assert(nk[j] == keys[j - 1]);
        } else {
            assert(nk[i] == keys[i - 1] && nk[j] == keys[j - 1]);
        }
    }
    lemma_ascending_distinct(keys);
    lemma_ascending_distinct(nk);
    let a = map_of(nk, nv);
    let b = map_of(keys, values).insert(k, v);
    assert forall|x: Seq<char>| a.dom().contains(x) == b.dom().contains(x) by {
        if keys.contains(x) {
            let i = keys.index_of(x);
            if i < pos {
                assert(nk[i] == x);
            } else {
                assert(nk[i + 1] == x);
            }
        }
        if nk.contains(x) {
            let j = nk.index_of(x);
            if j < pos {
                assert(keys[j] == x);
            } else if j > pos {
                assert(keys[j - 1] == x);
            }
        }
        assert(nk[pos] == k);
    }
    assert forall|x: Seq<char>| a.dom().contains(x) implies a[x] == b[x] by {
        assert(nk.contains(x));
        let j = nk.index_of(x);
        assert(nk[j] == x);
        lemma_text_order(k, k, k);
        if j < pos {
            assert(keys[j] == x);
            assert(keys.index_of(keys[j]) == j);
        } else if j > pos {
            assert(keys[j - 1] == x);
            assert(keys.index_of(keys[j - 1]) == j - 1);
        } else {
            assert(x == k);
        }
    }
    assert(a =~= b);
}

/// Replacing the value in a key's place replaces it in the map.
pub proof fn lemma_replace<T>(keys: Seq<Seq<char>>, values: Seq<T>, pos: int, v: T)
    requires
        ascending(keys),
        keys.len() == values.len(),
        0 <= pos < keys.len(),
    ensures
        map_of(keys, values.update(pos, v)) == map_of(keys, values).insert(keys[pos], v),
{
    lemma_ascending_distinct(keys);
    let a = map_of(keys, values.update(pos, v));
    let b = map_of(keys, values).insert(keys[pos], v);
    assert forall|x: Seq<char>| a.dom().contains(x) == b.dom().contains(x) by {
        assert(keys.contains(keys[pos]));
    }
    assert forall|x: Seq<char>| a.dom().contains(x) implies a[x] == b[x] by {
        assert(keys.contains(x));
        let j = keys.index_of(x);
        assert(keys[j] == x);
        assert(keys.index_of(keys[pos]) == pos);
    }
    assert(a =~= b);
}

/// Taking a key out of its place takes it out of the map.
pub proof fn lemma_remove<T>(keys: Seq<Seq<char>>, values: Seq<T>, pos: int)
    requires
        ascending(keys),
        keys.len() == values.len(),
        0 <= pos < keys.len(),
    ensures
        ascending(keys.remove(pos)),
        map_of(keys.remove(pos), values.remove(pos)) == map_of(keys, values).remove(keys[pos]),
{
    let nk = keys.remove(pos);
    let nv = values.remove(pos);
    assert forall|i: int, j: int| 0 <= i < j < nk.len() implies text_before(
        #[trigger] nk[i],
        #[trigger] nk[j],
    ) by {
        let i0 = if i < pos {
            i
        } else {
            i + 1
        };
        let j0 = if j < pos {
            j
        } else {
            j + 1
        };
        assert(nk[i] == keys[i0] && nk[j] == keys[j0]);
    }
    lemma_ascending_distinct(keys);
    lemma_ascending_distinct(nk);
    let a = map_of(nk, nv);
    let b = map_of(keys, values).remove(keys[pos]);
    assert forall|x: Seq<char>| a.dom().contains(x) == b.dom().contains(x) by {
        if nk.contains(x) {
            let j = nk.index_of(x);
            let j0 = if j < pos {
                j
            } else {
                j + 1
            };
            assert(keys[j0] == x);
            assert(keys.index_of(keys[j0]) == j0);
        }
        if keys.contains(x) && x != keys[pos] {
            let i = keys.index_of(x);
            if i < pos {
                assert(nk[i] == x);
            } else {
                assert(nk[i - 1] == x);
            }
        }
    }
    assert forall|x: Seq<char>| a.dom().contains(x) implies a[x] == b[x] by {
        assert(nk.contains(x));
        let j = nk.index_of(x);
        let j0 = if j < pos {
            j
        } else {
            j + 1
        };
        assert(nk[j] == x);
        assert(keys[j0] == x);
        assert(keys.index_of(keys[j0]) == j0);
    }
    assert(a =~= b);
}

/// A key that stands between two neighbours is none of the keys.
pub proof fn lemma_absent(keys: Seq<Seq<char>>, pos: int, k: Seq<char>)
    requires
        ascending(keys),
        0 <= pos <= keys.len(),
        forall|i: int| 0 <= i < pos ==> text_before(#[trigger] keys[i], k),
        forall|i: int| pos <= i < keys.len() ==> text_before(k, #[trigger] keys[i]),
    ensures
        !keys.contains(k),
{
    if keys.contains(k) {
        let i = keys.index_of(k);
        assert(keys[i] == k);
        lemma_text_order(k, k, k);
    }
}

/// The keys of a list of entries.
pub open spec fn entry_keys<V>(entries: Seq<(String, V)>) -> Seq<Seq<char>> {
    Seq::new(entries.len(), |i: int| entries[i].0@)
}

/// The values of a list of entries.
pub open spec fn entry_values<V: View>(entries: Seq<(String, V)>) -> Seq<V::V> {
    Seq::new(entries.len(), |i: int| entries[i].1@)
}

/// A map from texts to values. It keeps its keys in ascending order, so
/// that two maps with the same content are the same value.
#[derive(Debug, PartialEq, Eq)]
pub struct Dict<V> {
    entries: Vec<(String, V)>,
}

impl<V: View> View for Dict<V> {
    type V = Map<Seq<char>, V::V>;

    closed spec fn view(&self) -> Map<Seq<char>, V::V> {
        map_of(self.keys(), self.values())
    }
}

impl<V> Dict<V> {
    /// The keys in their order.
    pub closed spec fn keys(&self) -> Seq<Seq<char>> {
        entry_keys(self.entries@)
    }

    #[verifier::type_invariant]
    spec fn inv(&self) -> bool {
        ascending(self.keys())
    }
}

impl<V: View> Dict<V> {
    /// The values in the order of their keys.
    pub closed spec fn values(&self) -> Seq<V::V> {
        entry_values(self.entries@)
    }

    /// How the keys and values in their order relate to the map: the keys
    /// ascend, and they and their values are what the map holds.
    pub open spec fn listed(&self) -> bool {
        &&& ascending(self.keys())
        &&& self.keys().len() == self.values().len()
        &&& self@ == map_of(self.keys(), self.values())
        &&& self@.dom().finite()
        &&& self@.dom().len() == self.keys().len()
        &&& self@.dom() == self.keys().to_set()
        &&& forall|i: int|
            0 <= i < self.keys().len() ==> self@.dom().contains(#[trigger] self.keys()[i])
                && self@[self.keys()[i]] == self.values()[i]
    }

    proof fn lemma_listed(&self)
        requires
            self.inv(),
        ensures
            self.listed(),
    {
        lemma_map_of(self.keys(), self.values());
    }

    pub fn new() -> (r: Self)
        ensures
            r@ == Map::<Seq<char>, V::V>::empty(),
            r.keys().len() == 0,
    {
        let r = Dict { entries: Vec::new() };
        assert(r@ =~= Map::<Seq<char>, V::V>::empty());
        r
    }

    /// The number of entries.
    pub fn len(&self) -> (n: usize)
        ensures
            n == self.keys().len(),
            n == self@.dom().len(),
            self.listed(),
    {
        proof {
            use_type_invariant(self);
            self.lemma_listed();
        }
        self.entries.len()
    }

    pub fn is_empty(&self) -> (r: bool)
        ensures
            r == (self@.dom().len() == 0),
            r == (self@ == Map::<Seq<char>, V::V>::empty()),
            self.listed(),
    {
        proof {
            use_type_invariant(self);
            self.lemma_listed();
            if self.entries.len() == 0 {
                assert(self@ =~= Map::<Seq<char>, V::V>::empty());
            } else {
                assert(self@.dom().contains(self.keys()[0]));
            }
        }
        self.entries.len() == 0
    }

    /// The key in place `i`.
    pub fn key(&self, i: usize) -> (r: &String)
        requires
            i < self.keys().len(),
        ensures
            r@ == self.keys()[i as int],
    {
        &self.entries[i].0
    }

    /// The value in place `i`.
    pub fn value(&self, i: usize) -> (r: &V)
        requires
            i < self.keys().len(),
        ensures
            r@ == self.values()[i as int],
    {
        &self.entries[i].1
    }

    /// The keys in their order.
    pub fn key_list(&self) -> (r: Vec<String>)
        ensures
            r.deep_view() == self.keys(),
    {
        let mut out: Vec<String> = Vec::new();
        let mut i: usize = 0;
        while i < self.entries.len()
            invariant
                i <= self.entries.len(),
                out.len() == i,
                forall|j: int| 0 <= j < i ==> out[j]@ == self.entries[j].0@,
            decreases self.entries.len() - i,
        {
            out.push(self.entries[i].0.clone());
            i += 1;
        }
        assert(out.deep_view() =~= self.keys());
        out
    }

    /// Where `key` stands, or would stand if it were there.
    fn locate(&self, key: &str) -> (r: (usize, bool))
        ensures
            r.0 <= self.keys().len(),
            forall|i: int| 0 <= i < r.0 ==> text_before(#[trigger] self.keys()[i], key@),
            r.1 ==> r.0 < self.keys().len() && self.keys()[r.0 as int] == key@,
            forall|i: int|
                r.0 + (if r.1 {
                    1int
                } else {
                    0int
                }) <= i < self.keys().len() ==> text_before(key@, #[trigger] self.keys()[i]),
    {
        proof {
            use_type_invariant(self);
        }
        let mut lo: usize = 0;
        let mut hi: usize = self.entries.len();
        while lo < hi
            invariant
                lo <= hi <= self.entries.len(),
                self.keys().len() == self.entries.len(),
                ascending(self.keys()),
                forall|i: int| 0 <= i < lo ==> text_before(#[trigger] self.keys()[i], key@),
                forall|i: int|
                    hi <= i < self.keys().len() ==> text_before(key@, #[trigger] self.keys()[i]),
            decreases hi - lo,
        {
            let mid = lo + (hi - lo) / 2;
            let ghost pivot = self.keys()[mid as int];
            match compare(self.entries[mid].0.as_str(), key) {
                Order::Before => {
                    assert forall|i: int| 0 <= i < mid + 1 implies text_before(
                        #[trigger] self.keys()[i],
                        key@,
                    ) by {
                        if i < mid {
                            lemma_text_order(self.keys()[i], pivot, key@);
                        }
                    }
                    lo = mid + 1;
                },
                Order::Same => {
                    assert forall|i: int| mid + 1 <= i < self.keys().len() implies text_before(
                        key@,
                        #[trigger] self.keys()[i],
                    ) by {
                        assert(text_before(self.keys()[mid as int], self.keys()[i]));
                    }
                    assert forall|i: int| 0 <= i < mid implies text_before(
                        #[trigger] self.keys()[i],
                        key@,
                    ) by {
                        assert(text_before(self.keys()[i], self.keys()[mid as int]));
                    }
                    return (mid, true);
                },
                Order::After => {
                    assert forall|i: int| mid <= i < self.keys().len() implies text_before(
                        key@,
                        #[trigger] self.keys()[i],
                    ) by {
                        if i > mid {
                            lemma_text_order(key@, pivot, self.keys()[i]);
                        }
                    }
                    hi = mid;
                },
            }
        }
        (lo, false)
    }

    pub fn contains_key(&self, key: &str) -> (r: bool)
        ensures
            r == self@.dom().contains(key@),
    {
        let (pos, found) = self.locate(key);
        proof {
            use_type_invariant(self);
            self.lemma_listed();
            if !found {
                lemma_absent(self.keys(), pos as int, key@);
            }
        }
        found
    }

    pub fn get(&self, key: &str) -> (r: Option<&V>)
        ensures
            r is Some <==> self@.dom().contains(key@),
            r matches Some(value) ==> value@ == self@[key@],
    {
        let (pos, found) = self.locate(key);
        proof {
            use_type_invariant(self);
            self.lemma_listed();
            if !found {
                lemma_absent(self.keys(), pos as int, key@);
            }
        }
        if found {
            Some(&self.entries[pos].1)
        } else {
            None
        }
    }

    /// Puts `value` under `key` and hands back what was there before.
    pub fn insert(&mut self, key: String, value: V) -> (r: Option<V>)
        ensures
            final(self)@ == old(self)@.insert(key@, value@),
            r is Some <==> old(self)@.dom().contains(key@),
            r matches Some(previous) ==> previous@ == old(self)@[key@],
    {
        let (pos, found) = self.locate(key.as_str());
        proof {
            use_type_invariant(&*self);
            self.lemma_listed();
        }
        let ghost keys = self.keys();
        let ghost values = self.values();
        let mut entries: Vec<(String, V)> = Vec::new();
        core::mem::swap(&mut self.entries, &mut entries);
        assert(entry_keys(entries@) == keys && entry_values(entries@) == values);
        if found {
            let previous = entries.remove(pos);
            proof {
                lemma_remove(keys, values, pos as int);
                assert(entry_keys(entries@) =~= keys.remove(pos as int));
                assert(entry_values(entries@) =~= values.remove(pos as int));
                lemma_insert_new(
                    entry_keys(entries@),
                    entry_values(entries@),
                    pos as int,
                    key@,
                    value@,
                );
                assert(entry_keys(entries@).insert(pos as int, key@) =~= keys);
                assert(entry_values(entries@).insert(pos as int, value@) =~= values.update(
                    pos as int,
                    value@,
                ));
                lemma_replace(keys, values, pos as int, value@);
            }
            let ghost mid = entries@;
            entries.insert(pos, (key, value));
            proof {
                assert(entry_keys(entries@) =~= entry_keys(mid).insert(pos as int, key@));
                assert(entry_values(entries@) =~= entry_values(mid).insert(pos as int, value@));
            }
            core::mem::swap(&mut self.entries, &mut entries);
            Some(previous.1)
        } else {
            proof {
                lemma_absent(keys, pos as int, key@);
                lemma_insert_new(keys, values, pos as int, key@, value@);
            }
            entries.insert(pos, (key, value));
            proof {
                assert(entry_keys(entries@) =~= keys.insert(pos as int, key@));
                assert(entry_values(entries@) =~= values.insert(pos as int, value@));
            }
            core::mem::swap(&mut self.entries, &mut entries);
            None
        }
    }

    /// Takes `key` out and hands back what was under it.
    pub fn remove(&mut self, key: &str) -> (r: Option<V>)
        ensures
            final(self)@ == old(self)@.remove(key@),
            r is Some <==> old(self)@.dom().contains(key@),
            r matches Some(previous) ==> previous@ == old(self)@[key@],
    {
        let (pos, found) = self.locate(key);
        proof {
            use_type_invariant(&*self);
            self.lemma_listed();
        }
        let ghost keys = self.keys();
        let ghost values = self.values();
        if found {
            let mut entries: Vec<(String, V)> = Vec::new();
            core::mem::swap(&mut self.entries, &mut entries);
            assert(entry_keys(entries@) == keys && entry_values(entries@) == values);
            proof {
                lemma_remove(keys, values, pos as int);
            }
            let previous = entries.remove(pos);
            proof {
                assert(entry_keys(entries@) =~= keys.remove(pos as int));
                assert(entry_values(entries@) =~= values.remove(pos as int));
            }
            core::mem::swap(&mut self.entries, &mut entries);
            Some(previous.1)
        } else {
            proof {
                lemma_absent(keys, pos as int, key@);
                assert(self@.remove(key@) =~= self@);
            }
            None
        }
    }

    /// Takes the map apart into its entries, in the order of the keys.
    pub fn into_entries(self) -> (r: Vec<(String, V)>)
        ensures
            self.listed(),
            entry_keys(r@) == self.keys(),
            entry_values(r@) == self.values(),
    {
        proof {
            use_type_invariant(&self);
            self.lemma_listed();
        }
        self.entries
    }

    /// Puts every entry of `other` into the map. Where both hold a key, the
    /// value of `other` stays.
    pub fn extend(&mut self, other: Dict<V>)
        ensures
            final(self)@ == old(self)@.union_prefer_right(other@),
    {
        let ghost keys = other.keys();
        let ghost values = other.values();
        let mut entries = other.into_entries();
        proof {
            lemma_ascending_distinct(keys);
        }
        while entries.len() > 0
            invariant
                other.listed(),
                keys == other.keys(),
                values == other.values(),
                keys.no_duplicates(),
                entries.len() <= keys.len(),
                forall|i: int|
                    0 <= i < entries.len() ==> (#[trigger] entries[i]).0@ == keys[i] && entries[i].1@
                        == values[i],
                forall|k: Seq<char>|
                    self@.dom().contains(k) <==> old(self)@.dom().contains(k) || exists|i: int|
                        entries.len() <= i < keys.len() && keys[i] == k,
                forall|i: int|
                    entries.len() <= i < keys.len() ==> self@[#[trigger] keys[i]] == values[i],
                forall|k: Seq<char>|
                    old(self)@.dom().contains(k) && !(exists|i: int|
                        entries.len() <= i < keys.len() && keys[i] == k) ==> self@[k] == old(
                        self,
                    )@[k],
            decreases entries.len(),
        {
            let ghost rest = entries.len() - 1;
            let ghost before = self@;
            let last = entries.pop();
            match last {
                Some((key, value)) => {
                    assert(key@ == keys[rest] && value@ == values[rest]);
                    self.insert(key, value);
                    assert forall|k: Seq<char>|
                        self@.dom().contains(k) <==> old(self)@.dom().contains(k) || exists|i: int|
                            rest <= i < keys.len() && keys[i] == k by {
                        if before.dom().contains(k) && !old(self)@.dom().contains(k) {
                            let i = choose|i: int| rest + 1 <= i < keys.len() && keys[i] == k;
                            assert(rest <= i < keys.len() && keys[i] == k);
                        }
                        if exists|i: int| rest <= i < keys.len() && keys[i] == k {
                            let i = choose|i: int| rest <= i < keys.len() && keys[i] == k;
                            if i != rest {
                                assert(rest + 1 <= i < keys.len() && keys[i] == k);
                            }
                        }
                    }
                    assert forall|k: Seq<char>|
                        old(self)@.dom().contains(k) && !(exists|i: int|
                            rest <= i < keys.len() && keys[i] == k) implies self@[k] == old(
                        self,
                    )@[k] by {
                        assert(k != keys[rest]);
                        assert(!(exists|i: int| rest + 1 <= i < keys.len() && keys[i] == k)) by {
                            if exists|i: int| rest + 1 <= i < keys.len() && keys[i] == k {
                                let i = choose|i: int| rest + 1 <= i < keys.len() && keys[i] == k;
                                assert(rest <= i < keys.len() && keys[i] == k);
                            }
                        }
                    }
                },
                None => {},
            }
        }
        proof {
            let a = self@;
            let b = old(self)@.union_prefer_right(other@);
            assert forall|k: Seq<char>| a.dom().contains(k) == b.dom().contains(k) by {
                if other@.dom().contains(k) {
                    assert(keys.contains(k));
                    let i = keys.index_of(k);
                    assert(0 <= i < keys.len() && keys[i] == k);
                }
                if exists|i: int| 0 <= i < keys.len() && keys[i] == k {
                    let i = choose|i: int| 0 <= i < keys.len() && keys[i] == k;
                    assert(other@.dom().contains(keys[i]));
                }
            }
            assert forall|k: Seq<char>| a.dom().contains(k) implies a[k] == b[k] by {
                if other@.dom().contains(k) {
                    assert(keys.contains(k));
                    let i = keys.index_of(k);
                    assert(0 <= i < keys.len() && keys[i] == k);
                    assert(other@[keys[i]] == values[i]);
                } else {
                    if exists|i: int| 0 <= i < keys.len() && keys[i] == k {
                        let i = choose|i: int| 0 <= i < keys.len() && keys[i] == k;
                        assert(other@.dom().contains(keys[i]));
                    }
                }
            }
            assert(a =~= b);
        }
    }
}

impl<V> Dict<V> {
    /// The values as they are held, in the order of their keys.
    pub closed spec fn held(&self) -> Seq<V> {
        Seq::new(self.entries.len() as nat, |i: int| self.entries[i].1)
    }
}

impl<V: Clone> Clone for Dict<V> {
    /// A map with the same keys, and under each a clone of its value.
    fn clone(&self) -> (r: Self)
        ensures
            r.keys() == self.keys(),
            r.held().len() == self.held().len(),
            forall|i: int|
                0 <= i < self.held().len() ==> cloned::<V>(
                    #[trigger] self.held()[i],
                    r.held()[i],
                ),
    {
        proof {
            use_type_invariant(self);
        }
        let mut entries: Vec<(String, V)> = Vec::new();
        let mut i: usize = 0;
        while i < self.entries.len()
            invariant
                i <= self.entries.len(),
                entries.len() == i,
                forall|j: int| 0 <= j < i ==> (#[trigger] entries[j]).0@ == self.entries[j].0@,
                forall|j: int|
                    0 <= j < i ==> cloned::<V>(#[trigger] self.entries[j].1, entries[j].1),
            decreases self.entries.len() - i,
        {
            let key = self.entries[i].0.clone();
            let value = self.entries[i].1.clone();
            entries.push((key, value));
            i += 1;
        }
        assert(entry_keys(entries@) =~= self.keys());
        Dict { entries }
    }
}

} // verus!
