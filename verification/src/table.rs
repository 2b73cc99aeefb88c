//! A hash map whose entries are numbered.
//!
//! The entries lie in a vector; a `hashbrown` map leads from a key to the
//! position of its entry.

use vstd::prelude::*;

use crate::primitives::{Address, Duplicate, B256, U256};

verus! {

/// What every key is hashed as. Tuples of integers are equal exactly when
/// their components are.
pub type RawKey = (u32, u128, u128, u128);

/// The `hashbrown` map from a key to the position of its entry.
#[verifier::external_body]
pub struct SlotIndex {
    map: hashbrown::HashMap<RawKey, usize>,
}

/// The positions that the index holds, by key.
pub uninterp spec fn slots(index: SlotIndex) -> Map<RawKey, usize>;

/// `hashbrown::HashMap::new`: the new map holds nothing.
#[verifier::external_body]
fn new_index() -> (index: SlotIndex)
    ensures
        slots(index).dom() == Set::<RawKey>::empty(),
{
    SlotIndex { map: hashbrown::HashMap::new() }
}

/// `hashbrown::HashMap::get`: the value under the key, or nothing where the
/// map does not hold the key.
#[verifier::external_body]
fn find_slot(index: &SlotIndex, key: &RawKey) -> (slot: Option<usize>)
    ensures
        slot == (if slots(*index).contains_key(*key) {
            Some(slots(*index)[*key])
        } else {
            None
        }),
{
    index.map.get(key).copied()
}

/// `hashbrown::HashMap::insert`: afterwards the map holds the value under the
/// key, whatever it held there before, and is otherwise the same.
#[verifier::external_body]
fn set_slot(index: &mut SlotIndex, key: RawKey, slot: usize)
    ensures
        slots(*final(index)) == slots(*old(index)).insert(key, slot),
{
    index.map.insert(key, slot);
}

/// `hashbrown::HashMap::clone`: the copy holds the same values under the same
/// keys.
#[verifier::external_body]
fn copy_index(index: &SlotIndex) -> (copy: SlotIndex)
    ensures
        slots(copy) == slots(*index),
{
    SlotIndex { map: index.map.clone() }
}

/// A type that can be a key: distinct keys are hashed as distinct tuples.
pub trait TableKey: Sized {
    spec fn raw(self) -> RawKey;

    fn to_raw(&self) -> (raw: RawKey)
        ensures
            raw == self.raw(),
    ;

    fn copied(&self) -> (key: Self)
        ensures
            key == *self,
    ;

    proof fn raw_injective(a: Self, b: Self)
        requires
            a.raw() == b.raw(),
        ensures
            a == b,
    ;
}

impl TableKey for u64 {
    open spec fn raw(self) -> RawKey {
        (0u32, 0u128, 0u128, self as u128)
    }

    fn to_raw(&self) -> (raw: RawKey) {
        (0u32, 0u128, 0u128, *self as u128)
    }

    fn copied(&self) -> (key: u64) {
        *self
    }

    proof fn raw_injective(a: u64, b: u64) {
    }
}

impl TableKey for B256 {
    open spec fn raw(self) -> RawKey {
        (0u32, 0u128, self.hi, self.lo)
    }

    fn to_raw(&self) -> (raw: RawKey) {
        (0u32, 0u128, self.hi, self.lo)
    }

    fn copied(&self) -> (key: B256) {
        *self
    }

    proof fn raw_injective(a: B256, b: B256) {
    }
}

impl TableKey for U256 {
    open spec fn raw(self) -> RawKey {
        (0u32, 0u128, self.hi, self.lo)
    }

    fn to_raw(&self) -> (raw: RawKey) {
        (0u32, 0u128, self.hi, self.lo)
    }

    fn copied(&self) -> (key: U256) {
        *self
    }

    proof fn raw_injective(a: U256, b: U256) {
    }
}

impl TableKey for Address {
    open spec fn raw(self) -> RawKey {
        (self.hi, self.lo, 0u128, 0u128)
    }

    fn to_raw(&self) -> (raw: RawKey) {
        (self.hi, self.lo, 0u128, 0u128)
    }

    fn copied(&self) -> (key: Address) {
        *self
    }

    proof fn raw_injective(a: Address, b: Address) {
    }
}

impl TableKey for (Address, U256) {
    open spec fn raw(self) -> RawKey {
        (self.0.hi, self.0.lo, self.1.hi, self.1.lo)
    }

    fn to_raw(&self) -> (raw: RawKey) {
        (self.0.hi, self.0.lo, self.1.hi, self.1.lo)
    }

    fn copied(&self) -> (key: (Address, U256)) {
        (self.0, self.1)
    }

    proof fn raw_injective(a: (Address, U256), b: (Address, U256)) {
    }
}

/// A map from keys to values, modelled as a `Map` from keys to the values'
/// models.
pub struct Table<K: TableKey, V: DeepView> {
    index: SlotIndex,
    entries: Vec<(K, V)>,
}

impl<K: TableKey, V: DeepView> View for Table<K, V> {
    type V = Map<K, V::V>;

    closed spec fn view(&self) -> Map<K, V::V> {
        Map::new(
            |key: K| slots(self.index).contains_key(key.raw()),
            |key: K| self.entries@[slots(self.index)[key.raw()] as int].1.deep_view(),
        )
    }
}

impl<K: TableKey, V: DeepView> DeepView for Table<K, V> {
    type V = Map<K, V::V>;

    open spec fn deep_view(&self) -> Map<K, V::V> {
        self@
    }
}

impl<K: TableKey, V: DeepView> Table<K, V> {
    /// The index leads from each entry's key to that entry, and nowhere else.
    #[verifier::type_invariant]
    spec fn well_formed(self) -> bool {
        &&& forall|i: int|
            #![trigger self.entries@[i]]
            0 <= i < self.entries@.len() ==> {
                &&& slots(self.index).contains_key(self.entries@[i].0.raw())
                &&& slots(self.index)[self.entries@[i].0.raw()] == i
            }
        &&& forall|raw: RawKey| #[trigger]
            slots(self.index).contains_key(raw) ==> {
                &&& slots(self.index)[raw] < self.entries@.len()
                &&& self.entries@[slots(self.index)[raw] as int].0.raw() == raw
            }
    }

    /// The keys, in the order of their numbers.
    pub closed spec fn keys(self) -> Seq<K> {
        self.entries@.map_values(|entry: (K, V)| entry.0)
    }

    /// Each key is listed once, the listed keys are those that the map holds,
    /// and so the map has as many keys as the list.
    pub open spec fn lists_its_keys(self) -> bool {
        &&& self.keys().no_duplicates()
        &&& self.keys().to_set() == self@.dom()
        &&& self@.dom().finite()
        &&& self@.len() == self.keys().len()
    }

    proof fn lemma_keys(self)
        requires
            self.well_formed(),
        ensures
            self.lists_its_keys(),
    {
        let keys = self.keys();
        assert forall|i: int, j: int|
            0 <= i < keys.len() && 0 <= j < keys.len() && i != j implies keys[i] != keys[j] by {
            let _ = self.entries@[i];
            let _ = self.entries@[j];
        }
        assert forall|key: K| keys.to_set().contains(key) implies self@.contains_key(key) by {
            let i = choose|i: int| 0 <= i < keys.len() && keys[i] == key;
            let _ = self.entries@[i];
        }
        assert forall|key: K| self@.contains_key(key) implies keys.to_set().contains(key) by {
            let i = slots(self.index)[key.raw()] as int;
            K::raw_injective(self.entries@[i].0, key);
            assert(keys[i] == key);
        }
        assert(keys.to_set() =~= self@.dom());
        keys.unique_seq_to_set();
    }

    pub fn new() -> (table: Table<K, V>)
        ensures
            table@ == Map::<K, V::V>::empty(),
            table.keys() == Seq::<K>::empty(),
    {
        let table = Table { index: new_index(), entries: Vec::new() };
        assert(table@ =~= Map::<K, V::V>::empty());
        assert(table.keys() =~= Seq::<K>::empty());
        table
    }

    pub fn len(&self) -> (len: usize)
        ensures
            len == self@.len(),
            self.lists_its_keys(),
    {
        proof {
            use_type_invariant(self);
            self.lemma_keys();
        }
        self.entries.len()
    }

    pub fn is_empty(&self) -> (res: bool)
        ensures
            res == (self@ == Map::<K, V::V>::empty()),
    {
        proof {
            use_type_invariant(self);
            self.lemma_keys();
            if self.entries@.len() == 0 {
                assert(self@ =~= Map::<K, V::V>::empty());
            }
        }
        self.entries.len() == 0
    }

    pub fn get(&self, key: &K) -> (value: Option<&V>)
        ensures
            value.is_some() == self@.contains_key(*key),
            value matches Some(held) ==> held.deep_view() == self@[*key],
    {
        proof {
            use_type_invariant(self);
        }
        match find_slot(&self.index, &key.to_raw()) {
            Some(slot) => Some(&self.entries[slot].1),
            None => None,
        }
    }

    pub fn contains_key(&self, key: &K) -> (res: bool)
        ensures
            res == self@.contains_key(*key),
    {
        self.get(key).is_some()
    }

    /// The entry with the number `i`, counted from zero.
    pub fn entry_at(&self, i: usize) -> (entry: &(K, V))
        requires
            i < self@.len(),
        ensures
            entry.0 == self.keys()[i as int],
            self@.contains_key(entry.0),
            entry.1.deep_view() == self@[entry.0],
            self.lists_its_keys(),
    {
        proof {
            use_type_invariant(self);
            self.lemma_keys();
        }
        &self.entries[i]
    }

    /// Puts the value under the key, whatever was there before. A key that is
    /// new gets the next number.
    pub fn insert(&mut self, key: K, value: V)
        ensures
            final(self)@ == old(self)@.insert(key, value.deep_view()),
            final(self).keys() == (if old(self)@.contains_key(key) {
                old(self).keys()
            } else {
                old(self).keys().push(key)
            }),
    {
        proof {
            use_type_invariant(&*self);
        }
        let ghost before = *self;
        let mut table: Table<K, V> = Table::new();
        std::mem::swap(self, &mut table);
        let Table { mut index, mut entries } = table;
        let raw = key.to_raw();
        match find_slot(&index, &raw) {
            Some(slot) => {
                proof {
                    K::raw_injective(entries@[slot as int].0, key);
                }
                entries.set(slot, (key, value));
            },
            None => {
                let slot: usize = entries.len();
                entries.push((key, value));
                set_slot(&mut index, raw, slot);
            },
        }
        *self = Table { index, entries };
        proof {
            assert forall|other: K| other.raw() == key.raw() implies other == key by {
                K::raw_injective(other, key);
            }
            assert(self@ =~= before@.insert(key, value.deep_view()));
            assert(self.keys() =~= if before@.contains_key(key) {
                before.keys()
            } else {
                before.keys().push(key)
            });
        }
    }

    /// Puts the value under the key if the map already holds the key, and
    /// leaves the map alone otherwise.
    pub fn replace(&mut self, key: &K, value: V)
        ensures
            final(self)@ == (if old(self)@.contains_key(*key) {
                old(self)@.insert(*key, value.deep_view())
            } else {
                old(self)@
            }),
            final(self).keys() == old(self).keys(),
    {
        if self.contains_key(key) {
            self.insert(key.copied(), value);
        }
    }

    /// Moves every entry of the other map into this one; where both hold a
    /// key, the other's value stays. How new keys are numbered is left open.
    pub fn extend(&mut self, other: Table<K, V>)
        ensures
            final(self)@ == old(self)@.union_prefer_right(other@),
    {
        proof {
            use_type_invariant(&other);
            other.lemma_keys();
        }
        let ghost start = self@;
        let ghost added = other@;
        let ghost keys = other.keys();
        let Table { index: _, entries } = other;
        let mut rest = entries;
        let ghost all = rest@;
        proof {
            assert(all.map_values(|entry: (K, V)| entry.0) =~= keys);
            assert(self@ =~= start.union_prefer_right(added.restrict(Set::empty())));
        }
        let ghost mut done: Set<K> = Set::empty();
        while rest.len() > 0
            invariant
                rest@ =~= all.take(rest@.len() as int),
                rest@.len() <= all.len(),
                keys.len() == all.len(),
                keys.no_duplicates(),
                keys.to_set() == added.dom(),
                forall|i: int| 0 <= i < all.len() ==> #[trigger] all[i].0 == keys[i],
                forall|i: int|
                    0 <= i < all.len() ==> #[trigger] all[i].1.deep_view() == added[keys[i]],
                done == keys.skip(rest@.len() as int).to_set(),
                self@ == start.union_prefer_right(added.restrict(done)),
            decreases rest.len(),
        {
            let ghost last = rest@.len() - 1;
            match rest.pop() {
                Some((key, value)) => {
                    self.insert(key, value);
                    proof {
                        let now = done.insert(key);
                        let tail = keys.skip(last + 1);
                        let longer = keys.skip(last);
                        assert(longer =~= seq![key] + tail);
                        assert(longer[0] == key);
                        assert forall|k: K| tail.contains(k) implies longer.contains(k) by {
                            let j = choose|j: int| 0 <= j < tail.len() && tail[j] == k;
                            assert(longer[j + 1] == k);
                        }
                        assert forall|k: K| longer.contains(k) && k != key implies tail.contains(
                            k,
                        ) by {
                            let j = choose|j: int| 0 <= j < longer.len() && longer[j] == k;
                            assert(tail[j - 1] == k);
                        }
                        assert(longer.to_set() =~= now);
                        assert(keys.contains(key)) by {
                            assert(keys[last] == key);
                        }
                        assert(added.dom().contains(key));
                        assert(self@ =~= start.union_prefer_right(added.restrict(now)));
                        done = now;
                    }
                },
                None => {},
            }
        }
        proof {
            assert(keys.skip(0) =~= keys);
            assert(added.restrict(done) =~= added);
        }
    }
}

impl<K: TableKey, V: Duplicate> Duplicate for Table<K, V> {
    fn duplicate(&self) -> (res: Table<K, V>) {
        proof {
            use_type_invariant(self);
        }
        let mut entries: Vec<(K, V)> = Vec::with_capacity(self.entries.len());
        let mut i: usize = 0;
        while i < self.entries.len()
            invariant
                i <= self.entries@.len(),
                entries@.len() == i,
                forall|j: int|
                    0 <= j < i ==> {
                        &&& (#[trigger] entries@[j]).0 == self.entries@[j].0
                        &&& entries@[j].1.deep_view() == self.entries@[j].1.deep_view()
                    },
            decreases self.entries.len() - i,
        {
            let entry = &self.entries[i];
            entries.push((entry.0.copied(), entry.1.duplicate()));
            i += 1;
        }
        let res = Table { index: copy_index(&self.index), entries };
        assert(res@ =~= self@);
        res
    }
}

/// A table gives back what was put in last under a key, and what was there of
/// every other key.
pub proof fn table_gives_back_what_was_put_in<K: TableKey, V: DeepView>(
    table: &mut Table<K, V>,
    key: K,
    value: V,
    later: Table<K, V>,
    asked: K,
    found: Option<&V>,
    fresh: Table<K, V>,
    len: usize,
    empty: bool,
)
    requires
        call_ensures(Table::<K, V>::insert, (table, key, value), ()),
        later@ == final(table)@,
        call_ensures(Table::<K, V>::get, (&later, &asked), found),
        call_ensures(Table::<K, V>::new, (), fresh),
        call_ensures(Table::<K, V>::len, (&later,), len),
        call_ensures(Table::<K, V>::is_empty, (&later,), empty),
    ensures
        asked == key ==> (found matches Some(held) && held.deep_view() == value.deep_view()),
        asked != key ==> (found is Some <==> old(table)@.contains_key(asked)),
        asked != key && old(table)@.contains_key(asked) ==> (found matches Some(held)
            && held.deep_view() == old(table)@[asked]),
        forall|k: K| !#[trigger] fresh@.contains_key(k),
        len == later@.len(),
        !empty,
{
    assert(later@.contains_key(key));
}

} // verus!
