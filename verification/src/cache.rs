//! A map from structured keys to shared values.
//!
//! The entries stand in a vector, in the order in which their keys came. A hash table leads from
//! the number that a key hashes by to the places of the entries whose keys have that number.

use std::collections::HashMap;
use std::sync::Arc;
use vstd::prelude::*;

verus! {

/// `Arc::clone`: another handle to the same value.
#[verifier::external_body]
pub(crate) fn share<T>(value: &Arc<T>) -> (handle: Arc<T>)
    ensures
        handle == *value,
{
    Arc::clone(value)
}

/// A key of a `KeyedCache`.
pub trait CacheKey: View {
    /// The number that a key hashes by.
    spec fn bucket_of(key: Self::V) -> u128;

    /// The number that this key hashes by.
    fn bucket(&self) -> (number: u128)
        ensures
            number == Self::bucket_of(self@),
    ;

    /// Whether two keys are the same.
    fn same(&self, other: &Self) -> (same: bool)
        ensures
            same == (self@ == other@),
    ;
}

/// A map from keys to shared values.
pub struct KeyedCache<K: CacheKey, T> {
    entries: Vec<(K, Arc<T>)>,
    places: HashMap<u128, Vec<usize>>,
}

/// The map that entries make up, where later entries replace earlier ones.
pub open spec fn entries_map<K: CacheKey, T>(entries: Seq<(K, Arc<T>)>) -> Map<K::V, T>
    decreases entries.len(),
{
    if entries.len() == 0 {
        Map::empty()
    } else {
        entries_map(entries.drop_last()).insert(entries.last().0@, *entries.last().1)
    }
}

/// Whether no key stands in two entries.
pub open spec fn keys_differ<K: CacheKey, T>(entries: Seq<(K, Arc<T>)>) -> bool {
    forall|i: int, j: int|
        0 <= i < j < entries.len() ==> (#[trigger] entries[i]).0@ != (#[trigger] entries[j]).0@
}

/// What the map holds under a key that stands in an entry, and that it holds nothing else.
proof fn lemma_entries_map<K: CacheKey, T>(entries: Seq<(K, Arc<T>)>)
    requires
        keys_differ(entries),
    ensures
        forall|i: int|
            0 <= i < entries.len() ==> entries_map(entries).contains_pair(
                (#[trigger] entries[i]).0@,
                *entries[i].1,
            ),
        forall|k: K::V| #[trigger]
            entries_map(entries).contains_key(k) ==> exists|i: int|
                0 <= i < entries.len() && (#[trigger] entries[i]).0@ == k,
        entries_map(entries).dom().finite(),
        entries_map(entries).len() == entries.len(),
    decreases entries.len(),
{
    if entries.len() > 0 {
        let front = entries.drop_last();
        let last = entries.last();
        assert(keys_differ(front)) by {
            assert forall|i: int, j: int| 0 <= i < j < front.len() implies (
            #[trigger] front[i]).0@ != (#[trigger] front[j]).0@ by {
                assert(front[i] == entries[i] && front[j] == entries[j]);
            }
        }
        lemma_entries_map(front);
        let map = entries_map(entries);
        assert forall|i: int| 0 <= i < entries.len() implies map.contains_pair(
            (#[trigger] entries[i]).0@,
            *entries[i].1,
        ) by {
            if i < front.len() {
                assert(front[i] == entries[i]);
                assert(entries[i].0@ != entries[entries.len() - 1].0@);
            }
        }
        assert forall|k: K::V| #[trigger] map.contains_key(k) implies exists|i: int|
            0 <= i < entries.len() && (#[trigger] entries[i]).0@ == k by {
            if k == last.0@ {
                assert(entries[entries.len() - 1].0@ == k);
            } else {
                assert(entries_map(front).contains_key(k));
                let i = choose|i: int| 0 <= i < front.len() && (#[trigger] front[i]).0@ == k;
                assert(entries[i].0@ == k);
            }
        }
        assert(!entries_map(front).contains_key(last.0@)) by {
            if entries_map(front).contains_key(last.0@) {
                let i = choose|i: int|
                    0 <= i < front.len() && (#[trigger] front[i]).0@ == last.0@;
                assert(entries[i].0@ == entries[entries.len() - 1].0@);
            }
        }
    }
}

impl<K: CacheKey, T> View for KeyedCache<K, T> {
    type V = Map<K::V, T>;

    closed spec fn view(&self) -> Map<K::V, T> {
        entries_map(self.entries@)
    }
}

impl<K: CacheKey, T> KeyedCache<K, T> {
    /// The places under a number are those of the entries whose keys hash by it.
    spec fn places_match(entries: Seq<(K, Arc<T>)>, places: Map<u128, Vec<usize>>) -> bool {
        &&& forall|number: u128, p: int|
            places.contains_key(number) && 0 <= p < places[number]@.len() ==> (
            #[trigger] places[number]@[p]) < entries.len()
        &&& forall|i: int|
            #![trigger entries[i]]
            0 <= i < entries.len() ==> {
                let number = K::bucket_of(entries[i].0@);
                places.contains_key(number) && exists|p: int|
                    0 <= p < places[number]@.len() && (#[trigger] places[number]@[p]) as int == i
            }
    }

    #[verifier::type_invariant]
    spec fn well_formed(&self) -> bool {
        &&& keys_differ(self.entries@)
        &&& Self::places_match(self.entries@, self.places@)
    }

    /// A map that holds nothing.
    pub fn new() -> (cache: Self)
        ensures
            cache@ == Map::<K::V, T>::empty(),
    {
        KeyedCache { entries: Vec::new(), places: HashMap::new() }
    }

    /// The number of keys in the map.
    pub fn len(&self) -> (n: usize)
        ensures
            n == self@.len(),
    {
        proof {
            use_type_invariant(self);
            lemma_entries_map(self.entries@);
        }
        self.entries.len()
    }

    /// The place of the entry of `key`.
    fn find(&self, key: &K) -> (place: Option<usize>)
        ensures
            match place {
                Some(i) => i < self.entries@.len() && self.entries@[i as int].0@ == key@,
                None => forall|i: int|
                    0 <= i < self.entries@.len() ==> (#[trigger] self.entries@[i]).0@ != key@,
            },
    {
        proof {
            use_type_invariant(self);
        }
        let number: u128 = key.bucket();
        match self.places.get(&number) {
            None => None,
            Some(places) => {
                let mut p: usize = 0;
                while p < places.len()
                    invariant
                        Self::places_match(self.entries@, self.places@),
                        self.places@.contains_key(number),
                        self.places@[number] == *places,
                        p <= places@.len(),
                        forall|q: int|
                            0 <= q < p ==> self.entries@[#[trigger] places@[q] as int].0@ != key@,
                    decreases places@.len() - p,
                {
                    assert(self.places@[number]@[p as int] < self.entries@.len());
                    let i: usize = places[p];
                    if self.entries[i].0.same(key) {
                        return Some(i);
                    }
                    p += 1;
                }
                proof {
                    assert forall|i: int| 0 <= i < self.entries@.len() implies (
                    #[trigger] self.entries@[i]).0@ != key@ by {
                        if self.entries@[i].0@ == key@ {
                            let q = choose|q: int|
                                0 <= q < self.places@[number]@.len() && (
                                #[trigger] self.places@[number]@[q]) as int == i;
                            assert(self.entries@[places@[q] as int].0@ != key@);
                        }
                    }
                }
                None
            },
        }
    }

    /// The value under `key`.
    pub fn get(&self, key: &K) -> (value: Option<Arc<T>>)
        ensures
            match value {
                Some(v) => self@.contains_pair(key@, *v),
                None => !self@.contains_key(key@),
            },
    {
        proof {
            use_type_invariant(self);
            lemma_entries_map(self.entries@);
        }
        match self.find(key) {
            Some(i) => Some(share(&self.entries[i].1)),
            None => None,
        }
    }

    /// Puts `value` under `key`, in place of what stood there.
    pub fn insert(&mut self, key: K, value: Arc<T>)
        ensures
            final(self)@ == old(self)@.insert(key@, *value),
    {
        let found: Option<usize> = self.find(&key);
        let mut taken: Self = KeyedCache::new();
        std::mem::swap(&mut taken, self);
        proof {
            use_type_invariant(&taken);
            lemma_entries_map(taken.entries@);
        }
        let KeyedCache { mut entries, mut places } = taken;
        let ghost before = entries@;
        let ghost places_before = places@;
        match found {
            Some(i) => {
                entries.set(i, (key, value));
                proof {
                    Self::lemma_entry_replaced(before, places@, i as int, key, value);
                }
            },
            None => {
                let place: usize = entries.len();
                let number: u128 = key.bucket();
                places.entry(number).or_insert(Vec::new()).push(place);
                entries.push((key, value));
                proof {
                    Self::lemma_entry_added(before, places_before, places@, key, value);
                }
            },
        }
        *self = KeyedCache { entries, places };
    }

    /// Replacing the value of an entry replaces the value in the map.
    proof fn lemma_entry_replaced(
        entries: Seq<(K, Arc<T>)>,
        places: Map<u128, Vec<usize>>,
        i: int,
        key: K,
        value: Arc<T>,
    )
        requires
            keys_differ(entries),
            Self::places_match(entries, places),
            0 <= i < entries.len(),
            entries[i].0@ == key@,
        ensures
            keys_differ(entries.update(i, (key, value))),
            Self::places_match(entries.update(i, (key, value)), places),
            entries_map(entries.update(i, (key, value))) == entries_map(entries).insert(key@, *value),
    {
        let after = entries.update(i, (key, value));
        assert forall|j: int| 0 <= j < entries.len() implies (#[trigger] after[j]).0@
            == entries[j].0@ by {}
        lemma_entries_map(entries);
        lemma_entries_map(after);
        let old_map = entries_map(entries);
        let new_map = entries_map(after);
        assert forall|k: K::V| #[trigger] new_map.contains_key(k) implies old_map.insert(
            key@,
            *value,
        ).contains_key(k) && new_map[k] == old_map.insert(key@, *value)[k] by {
            let j = choose|j: int| 0 <= j < after.len() && (#[trigger] after[j]).0@ == k;
            assert(entries[j].0@ == k);
            assert(old_map.contains_pair(entries[j].0@, *entries[j].1));
            assert(new_map.contains_pair(after[j].0@, *after[j].1));
            if k == key@ {
                assert(after[i].0@ == after[j].0@);
            }
        }
        assert forall|k: K::V| old_map.insert(key@, *value).contains_key(
            k,
        ) implies #[trigger] new_map.contains_key(k) by {
            if k == key@ {
                assert(new_map.contains_pair(after[i].0@, *after[i].1));
            } else {
                assert(old_map.contains_key(k));
                let j = choose|j: int| 0 <= j < entries.len() && (#[trigger] entries[j]).0@ == k;
                assert(new_map.contains_pair(after[j].0@, *after[j].1));
            }
        }
        assert(new_map =~= old_map.insert(key@, *value));
    }

    /// Adding an entry under a new key adds the key to the map.
    proof fn lemma_entry_added(
        entries: Seq<(K, Arc<T>)>,
        places: Map<u128, Vec<usize>>,
        more_places: Map<u128, Vec<usize>>,
        key: K,
        value: Arc<T>,
    )
        requires
            keys_differ(entries),
            Self::places_match(entries, places),
            entries.len() <= usize::MAX,
            forall|i: int| 0 <= i < entries.len() ==> (#[trigger] entries[i]).0@ != key@,
            ({
                let number = K::bucket_of(key@);
                &&& more_places.contains_key(number)
                &&& more_places[number]@ == (if places.contains_key(number) {
                    places[number]@
                } else {
                    Seq::empty()
                }).push(entries.len() as usize)
                &&& more_places == places.insert(number, more_places[number])
            }),
        ensures
            keys_differ(entries.push((key, value))),
            Self::places_match(entries.push((key, value)), more_places),
            entries_map(entries.push((key, value))) == entries_map(entries).insert(key@, *value),
    {
        let after = entries.push((key, value));
        let added = K::bucket_of(key@);
        assert(after.drop_last() =~= entries);
        assert forall|i: int, j: int| 0 <= i < j < after.len() implies (#[trigger] after[i]).0@ != (
        #[trigger] after[j]).0@ by {
            assert(after[i] == entries[i]);
            if j < entries.len() {
                assert(after[j] == entries[j]);
            }
        }
        assert forall|number: u128, p: int|
            more_places.contains_key(number) && 0 <= p < more_places[number]@.len() implies (
        #[trigger] more_places[number]@[p]) < after.len() by {
            if number != added || p < more_places[number]@.len() - 1 {
                assert(places[number]@[p] == more_places[number]@[p]);
            }
        }
        assert forall|i: int| #![trigger after[i]] 0 <= i < after.len() implies {
            let number = K::bucket_of(after[i].0@);
            more_places.contains_key(number) && exists|p: int|
                0 <= p < more_places[number]@.len() && (#[trigger] more_places[number]@[p]) as int
                    == i
        } by {
            let number = K::bucket_of(after[i].0@);
            if i < entries.len() {
                assert(after[i] == entries[i]);
                let p = choose|p: int|
                    0 <= p < places[number]@.len() && (#[trigger] places[number]@[p]) as int == i;
                assert(more_places[number]@[p] == places[number]@[p]);
            } else {
                let p = more_places[number]@.len() - 1;
                assert(more_places[number]@[p] as int == i);
            }
        }
    }
}

} // verus!
