//! Small maps and sets keyed by strings and by identifiers.
use vstd::prelude::*;

use crate::ids::Uuid;
use crate::seqs::lemma_take_step;
use crate::text::{same, texts};

verus! {

/// A map keyed by strings, small enough to be searched entry by entry.
#[derive(Debug)]
pub struct StrMap<V> {
    entries: Vec<(String, V)>,
}

/// The map that a list of entries stands for: a later entry replaces an earlier one.
pub closed spec fn str_map_of<V>(entries: Seq<(String, V)>) -> Map<Seq<char>, V>
    decreases entries.len(),
{
    if entries.len() == 0 {
        Map::empty()
    } else {
        str_map_of(entries.drop_last()).insert(entries.last().0@, entries.last().1)
    }
}

impl<V> View for StrMap<V> {
    type V = Map<Seq<char>, V>;

    closed spec fn view(&self) -> Map<Seq<char>, V> {
        str_map_of(self.entries@)
    }
}

impl<V> StrMap<V> {
    /// The empty map.
    pub fn new() -> (r: Self)
        ensures
            r@ == Map::<Seq<char>, V>::empty(),
    {
        StrMap { entries: Vec::new() }
    }

    fn find(&self, key: &str) -> (r: Option<usize>)
        ensures
            match r {
                Some(i) => i < self.entries@.len() && self@.dom().contains(key@)
                    && self@[key@] == self.entries@[i as int].1,
                None => !self@.dom().contains(key@),
            },
    {
        let mut i: usize = self.entries.len();
        assert(self.entries@.take(i as int) =~= self.entries@);
        while i > 0
            invariant
                i <= self.entries@.len(),
                self@.dom().contains(key@) == str_map_of(self.entries@.take(i as int)).dom().contains(key@),
                self@[key@] == str_map_of(self.entries@.take(i as int))[key@],
            decreases i,
        {
            proof {
                lemma_take_step(self.entries@, i - 1);
            }
            if same(self.entries[i - 1].0.as_str(), key) {
                return Some(i - 1);
            }
            i = i - 1;
        }
        None
    }

    /// Whether `key` has a value.
    pub fn contains_key(&self, key: &str) -> (r: bool)
        ensures
            r == self@.dom().contains(key@),
    {
        self.find(key).is_some()
    }

    /// The value of `key`.
    pub fn get(&self, key: &str) -> (r: Option<&V>)
        ensures
            match r {
                Some(v) => self@.dom().contains(key@) && *v == self@[key@],
                None => !self@.dom().contains(key@),
            },
    {
        match self.find(key) {
            Some(i) => Some(&self.entries[i].1),
            None => None,
        }
    }

    /// Takes `key` out of the map and returns the value it had.
    pub fn remove(&mut self, key: &str) -> (r: Option<V>)
        ensures
            final(self)@ == old(self)@.remove(key@),
            match r {
                Some(v) => old(self)@.dom().contains(key@) && v == old(self)@[key@],
                None => !old(self)@.dom().contains(key@),
            },
    {
        let ghost all = self.entries@;
        let mut rest: Vec<(String, V)> = Vec::new();
        let mut found: Option<V> = None;
        let mut old_entries: Vec<(String, V)> = Vec::new();
        std::mem::swap(&mut old_entries, &mut self.entries);
        assert(old_entries@.skip(0) =~= all);
        let ghost mut done: int = 0;
        assert(all.take(0) =~= Seq::empty());
        while old_entries.len() > 0
            invariant
                0 <= done <= all.len(),
                old_entries@ == all.skip(done),
                str_map_of(rest@) == str_map_of(all.take(done)).remove(key@),
                match found {
                    Some(v) => str_map_of(all.take(done)).dom().contains(key@) && v == str_map_of(
                        all.take(done),
                    )[key@],
                    None => !str_map_of(all.take(done)).dom().contains(key@),
                },
            decreases old_entries@.len(),
        {
            let entry = old_entries.remove(0);
            proof {
                lemma_take_step(all, done);
                assert(all.skip(done).remove(0) =~= all.skip(done + 1));
            }
            let hit: bool = same(entry.0.as_str(), key);
            if hit {
                found = Some(entry.1);
                assert(str_map_of(all.take(done + 1)).remove(key@) =~= str_map_of(all.take(done)).remove(key@));
            } else {
                let ghost before = rest@;
                rest.push(entry);
                assert(rest@.drop_last() =~= before);
                assert(str_map_of(all.take(done + 1)).remove(key@) =~= str_map_of(all.take(done)).remove(key@).insert(
                    all[done].0@,
                    all[done].1,
                ));
            }
            proof {
                done = done + 1;
            }
        }
        assert(all.take(done) =~= all);
        self.entries = rest;
        found
    }

    /// Gives `key` a value and returns the one it had.
    pub fn insert(&mut self, key: String, value: V) -> (r: Option<V>)
        ensures
            final(self)@ == old(self)@.insert(key@, value),
            match r {
                Some(v) => old(self)@.dom().contains(key@) && v == old(self)@[key@],
                None => !old(self)@.dom().contains(key@),
            },
    {
        let found = self.remove(key.as_str());
        let ghost before = self.entries@;
        self.entries.push((key, value));
        assert(self.entries@.drop_last() =~= before);
        assert(self@ =~= old(self)@.insert(key@, value));
        found
    }

    /// Empties the map.
    pub fn clear(&mut self)
        ensures
            final(self)@ == Map::<Seq<char>, V>::empty(),
    {
        self.entries = Vec::new();
    }
}

/// A set of strings.
#[derive(Debug)]
pub struct StrSet {
    items: Vec<String>,
}

impl View for StrSet {
    type V = Set<Seq<char>>;

    closed spec fn view(&self) -> Set<Seq<char>> {
        Set::new(|k: Seq<char>| exists|i: int| 0 <= i < self.items@.len() && #[trigger] self.items@[i]@ == k)
    }
}

impl StrSet {
    /// The empty set.
    pub fn new() -> (r: Self)
        ensures
            r@ == Set::<Seq<char>>::empty(),
    {
        let r = StrSet { items: Vec::new() };
        assert(r@ =~= Set::empty());
        r
    }

    /// Whether `key` is in the set.
    pub fn contains(&self, key: &str) -> (r: bool)
        ensures
            r == self@.contains(key@),
    {
        let mut i: usize = 0;
        while i < self.items.len()
            invariant
                i <= self.items@.len(),
                forall|j: int| 0 <= j < i ==> #[trigger] self.items@[j]@ != key@,
            decreases self.items@.len() - i,
        {
            if same(self.items[i].as_str(), key) {
                return true;
            }
            i = i + 1;
        }
        false
    }

    /// Puts `key` into the set; whether it was new.
    pub fn insert(&mut self, key: String) -> (r: bool)
        ensures
            final(self)@ == old(self)@.insert(key@),
            r == !old(self)@.contains(key@),
    {
        if self.contains(key.as_str()) {
            assert(self@ =~= self@.insert(key@));
            false
        } else {
            let ghost before = self.items@;
            self.items.push(key);
            proof {
                assert forall|k: Seq<char>| self@.contains(k) == old(self)@.insert(key@).contains(k) by {
                    if old(self)@.contains(k) {
                        let i = choose|i: int| 0 <= i < before.len() && #[trigger] before[i]@ == k;
                        assert(self.items@[i]@ == k);
                    }
                    if k == key@ {
                        assert(self.items@[before.len() as int]@ == k);
                    }
                    if self@.contains(k) {
                        let i = choose|i: int| 0 <= i < self.items@.len() && #[trigger] self.items@[i]@ == k;
                        if i < before.len() {
                            assert(before[i]@ == k);
                        }
                    }
                }
                assert(self@ =~= old(self)@.insert(key@));
            }
            true
        }
    }

    /// Takes `key` out of the set; whether it was there.
    pub fn remove(&mut self, key: &str) -> (r: bool)
        ensures
            final(self)@ == old(self)@.remove(key@),
            r == old(self)@.contains(key@),
    {
        let found = self.contains(key);
        let ghost all = self.items@;
        let mut items: Vec<String> = Vec::new();
        std::mem::swap(&mut items, &mut self.items);
        let mut i: usize = items.len();
        while i > 0
            invariant
                i <= items@.len(),
                forall|j: int| i <= j < items@.len() ==> #[trigger] items@[j]@ != key@,
                forall|j: int| 0 <= j < items@.len() ==> all.contains(#[trigger] items@[j]),
                forall|h: int| 0 <= h < all.len() && #[trigger] all[h]@ != key@ ==> items@.contains(all[h]),
            decreases i,
        {
            let ghost before = items@;
            if same(items[i - 1].as_str(), key) {
                let _ = items.remove(i - 1);
                proof {
                    assert forall|h: int| 0 <= h < all.len() && #[trigger] all[h]@ != key@ implies items@.contains(
                        all[h],
                    ) by {
                        let j = choose|j: int| 0 <= j < before.len() && before[j] == all[h];
                        assert(before[j] == all[h]);
                        if j < i - 1 {
                            assert(items@[j] == all[h]);
                        } else {
                            assert(items@[j - 1] == all[h]);
                        }
                    }
                    assert forall|j: int| 0 <= j < items@.len() implies all.contains(#[trigger] items@[j]) by {
                        if j < i - 1 {
                            assert(items@[j] == before[j]);
                        } else {
                            assert(items@[j] == before[j + 1]);
                        }
                    }
                    assert forall|j: int| i - 1 <= j < items@.len() implies #[trigger] items@[j]@ != key@ by {
                        assert(items@[j] == before[j + 1]);
                    }
                }
            }
            i = i - 1;
        }
        self.items = items;
        proof {
            assert forall|k: Seq<char>| self@.contains(k) == old(self)@.remove(key@).contains(k) by {
                if self@.contains(k) {
                    let j = choose|j: int| 0 <= j < self.items@.len() && #[trigger] self.items@[j]@ == k;
                    assert(all.contains(items@[j]));
                    let h = choose|h: int| 0 <= h < all.len() && all[h] == items@[j];
                    assert(all[h]@ == k);
                }
                if old(self)@.remove(key@).contains(k) {
                    let h = choose|h: int| 0 <= h < all.len() && #[trigger] all[h]@ == k;
                    assert(items@.contains(all[h]));
                    let j = choose|j: int| 0 <= j < items@.len() && items@[j] == all[h];
                    assert(self.items@[j]@ == k);
                }
            }
            assert(self@ =~= old(self)@.remove(key@));
        }
        found
    }

    /// Empties the set.
    pub fn clear(&mut self)
        ensures
            final(self)@ == Set::<Seq<char>>::empty(),
    {
        self.items = Vec::new();
        assert(self@ =~= Set::empty());
    }
}

/// A map keyed by identifiers, small enough to be searched entry by entry.
#[derive(Debug)]
pub struct IdMap<V> {
    entries: Vec<(Uuid, V)>,
}

/// The map that a list of entries stands for: a later entry replaces an earlier one.
pub closed spec fn id_map_of<V>(entries: Seq<(Uuid, V)>) -> Map<Uuid, V>
    decreases entries.len(),
{
    if entries.len() == 0 {
        Map::empty()
    } else {
        id_map_of(entries.drop_last()).insert(entries.last().0, entries.last().1)
    }
}

impl<V> View for IdMap<V> {
    type V = Map<Uuid, V>;

    closed spec fn view(&self) -> Map<Uuid, V> {
        id_map_of(self.entries@)
    }
}

impl<V> IdMap<V> {
    /// The empty map.
    pub fn new() -> (r: Self)
        ensures
            r@ == Map::<Uuid, V>::empty(),
    {
        IdMap { entries: Vec::new() }
    }

    fn find(&self, key: Uuid) -> (r: Option<usize>)
        ensures
            match r {
                Some(i) => i < self.entries@.len() && self@.dom().contains(key)
                    && self@[key] == self.entries@[i as int].1,
                None => !self@.dom().contains(key),
            },
    {
        let mut i: usize = self.entries.len();
        assert(self.entries@.take(i as int) =~= self.entries@);
        while i > 0
            invariant
                i <= self.entries@.len(),
                self@.dom().contains(key) == id_map_of(self.entries@.take(i as int)).dom().contains(key),
                self@[key] == id_map_of(self.entries@.take(i as int))[key],
            decreases i,
        {
            proof {
                lemma_take_step(self.entries@, i - 1);
            }
            if self.entries[i - 1].0 == key {
                return Some(i - 1);
            }
            i = i - 1;
        }
        None
    }

    /// Whether `key` has a value.
    pub fn contains_key(&self, key: Uuid) -> (r: bool)
        ensures
            r == self@.dom().contains(key),
    {
        self.find(key).is_some()
    }

    /// The value of `key`.
    pub fn get(&self, key: Uuid) -> (r: Option<&V>)
        ensures
            match r {
                Some(v) => self@.dom().contains(key) && *v == self@[key],
                None => !self@.dom().contains(key),
            },
    {
        match self.find(key) {
            Some(i) => Some(&self.entries[i].1),
            None => None,
        }
    }

    /// Takes `key` out of the map and returns the value it had.
    pub fn remove(&mut self, key: Uuid) -> (r: Option<V>)
        ensures
            final(self)@ == old(self)@.remove(key),
            match r {
                Some(v) => old(self)@.dom().contains(key) && v == old(self)@[key],
                None => !old(self)@.dom().contains(key),
            },
    {
        let ghost all = self.entries@;
        let mut rest: Vec<(Uuid, V)> = Vec::new();
        let mut found: Option<V> = None;
        let mut old_entries: Vec<(Uuid, V)> = Vec::new();
        std::mem::swap(&mut old_entries, &mut self.entries);
        assert(old_entries@.skip(0) =~= all);
        let ghost mut done: int = 0;
        assert(all.take(0) =~= Seq::empty());
        while old_entries.len() > 0
            invariant
                0 <= done <= all.len(),
                old_entries@ == all.skip(done),
                id_map_of(rest@) == id_map_of(all.take(done)).remove(key),
                match found {
                    Some(v) => id_map_of(all.take(done)).dom().contains(key) && v == id_map_of(
                        all.take(done),
                    )[key],
                    None => !id_map_of(all.take(done)).dom().contains(key),
                },
            decreases old_entries@.len(),
        {
            let entry = old_entries.remove(0);
            proof {
                lemma_take_step(all, done);
                assert(all.skip(done).remove(0) =~= all.skip(done + 1));
            }
            let hit: bool = entry.0 == key;
            if hit {
                found = Some(entry.1);
                assert(id_map_of(all.take(done + 1)).remove(key) =~= id_map_of(all.take(done)).remove(key));
            } else {
                let ghost before = rest@;
                rest.push(entry);
                assert(rest@.drop_last() =~= before);
                assert(id_map_of(all.take(done + 1)).remove(key) =~= id_map_of(all.take(done)).remove(key).insert(
                    all[done].0,
                    all[done].1,
                ));
            }
            proof {
                done = done + 1;
            }
        }
        assert(all.take(done) =~= all);
        self.entries = rest;
        found
    }

    /// Gives `key` a value and returns the one it had.
    pub fn insert(&mut self, key: Uuid, value: V) -> (r: Option<V>)
        ensures
            final(self)@ == old(self)@.insert(key, value),
            match r {
                Some(v) => old(self)@.dom().contains(key) && v == old(self)@[key],
                None => !old(self)@.dom().contains(key),
            },
    {
        let found = self.remove(key);
        let ghost before = self.entries@;
        self.entries.push((key, value));
        assert(self.entries@.drop_last() =~= before);
        assert(self@ =~= old(self)@.insert(key, value));
        found
    }

    /// Empties the map.
    pub fn clear(&mut self)
        ensures
            final(self)@ == Map::<Uuid, V>::empty(),
    {
        self.entries = Vec::new();
    }
}

/// A set of identifiers.
#[derive(Debug)]
pub struct IdSet {
    items: Vec<Uuid>,
}

impl View for IdSet {
    type V = Set<Uuid>;

    closed spec fn view(&self) -> Set<Uuid> {
        Set::new(|k: Uuid| exists|i: int| 0 <= i < self.items@.len() && #[trigger] self.items@[i] == k)
    }
}

impl IdSet {
    /// The empty set.
    pub fn new() -> (r: Self)
        ensures
            r@ == Set::<Uuid>::empty(),
    {
        let r = IdSet { items: Vec::new() };
        assert(r@ =~= Set::empty());
        r
    }

    /// Whether `key` is in the set.
    pub fn contains(&self, key: Uuid) -> (r: bool)
        ensures
            r == self@.contains(key),
    {
        let mut i: usize = 0;
        while i < self.items.len()
            invariant
                i <= self.items@.len(),
                forall|j: int| 0 <= j < i ==> #[trigger] self.items@[j] != key,
            decreases self.items@.len() - i,
        {
            if self.items[i] == key {
                return true;
            }
            i = i + 1;
        }
        false
    }

    /// Puts `key` into the set; whether it was new.
    pub fn insert(&mut self, key: Uuid) -> (r: bool)
        ensures
            final(self)@ == old(self)@.insert(key),
            r == !old(self)@.contains(key),
    {
        if self.contains(key) {
            assert(self@ =~= self@.insert(key));
            false
        } else {
            let ghost before = self.items@;
            self.items.push(key);
            proof {
                assert forall|k: Uuid| self@.contains(k) == old(self)@.insert(key).contains(k) by {
                    if old(self)@.contains(k) {
                        let i = choose|i: int| 0 <= i < before.len() && #[trigger] before[i] == k;
                        assert(self.items@[i] == k);
                    }
                    if k == key {
                        assert(self.items@[before.len() as int] == k);
                    }
                    if self@.contains(k) {
                        let i = choose|i: int| 0 <= i < self.items@.len() && #[trigger] self.items@[i] == k;
                        if i < before.len() {
                            assert(before[i] == k);
                        }
                    }
                }
                assert(self@ =~= old(self)@.insert(key));
            }
            true
        }
    }

    /// Takes `key` out of the set; whether it was there.
    pub fn remove(&mut self, key: Uuid) -> (r: bool)
        ensures
            final(self)@ == old(self)@.remove(key),
            r == old(self)@.contains(key),
    {
        let found = self.contains(key);
        let ghost all = self.items@;
        let mut items: Vec<Uuid> = Vec::new();
        std::mem::swap(&mut items, &mut self.items);
        let mut i: usize = items.len();
        while i > 0
            invariant
                i <= items@.len(),
                forall|j: int| i <= j < items@.len() ==> #[trigger] items@[j] != key,
                forall|j: int| 0 <= j < items@.len() ==> all.contains(#[trigger] items@[j]),
                forall|h: int| 0 <= h < all.len() && #[trigger] all[h] != key ==> items@.contains(all[h]),
            decreases i,
        {
            let ghost before = items@;
            if items[i - 1] == key {
                let _ = items.remove(i - 1);
                proof {
                    assert forall|h: int| 0 <= h < all.len() && #[trigger] all[h] != key implies items@.contains(
                        all[h],
                    ) by {
                        let j = choose|j: int| 0 <= j < before.len() && before[j] == all[h];
                        assert(before[j] == all[h]);
                        if j < i - 1 {
                            assert(items@[j] == all[h]);
                        } else {
                            assert(items@[j - 1] == all[h]);
                        }
                    }
                    assert forall|j: int| 0 <= j < items@.len() implies all.contains(#[trigger] items@[j]) by {
                        if j < i - 1 {
                            assert(items@[j] == before[j]);
                        } else {
                            assert(items@[j] == before[j + 1]);
                        }
                    }
                    assert forall|j: int| i - 1 <= j < items@.len() implies #[trigger] items@[j] != key by {
                        assert(items@[j] == before[j + 1]);
                    }
                }
            }
            i = i - 1;
        }
        self.items = items;
        proof {
            assert forall|k: Uuid| self@.contains(k) == old(self)@.remove(key).contains(k) by {
                if self@.contains(k) {
                    let j = choose|j: int| 0 <= j < self.items@.len() && #[trigger] self.items@[j] == k;
                    assert(all.contains(items@[j]));
                    let h = choose|h: int| 0 <= h < all.len() && all[h] == items@[j];
                    assert(all[h] == k);
                }
                if old(self)@.remove(key).contains(k) {
                    let h = choose|h: int| 0 <= h < all.len() && #[trigger] all[h] == k;
                    assert(items@.contains(all[h]));
                    let j = choose|j: int| 0 <= j < items@.len() && items@[j] == all[h];
                    assert(self.items@[j] == k);
                }
            }
            assert(self@ =~= old(self)@.remove(key));
        }
        found
    }

    /// Empties the set.
    pub fn clear(&mut self)
        ensures
            final(self)@ == Set::<Uuid>::empty(),
    {
        self.items = Vec::new();
        assert(self@ =~= Set::empty());
    }
}

proof fn lemma_entry_of_key(entries: Seq<(String, Uuid)>, key: Seq<char>)
    requires
        str_map_of(entries).dom().contains(key),
    ensures
        exists|i: int|
            0 <= i < entries.len() && #[trigger] entries[i].0@ == key && entries[i].1 == str_map_of(entries)[key],
    decreases entries.len(),
{
    let n = entries.len() - 1;
    if entries.last().0@ == key {
        assert(entries[n].0@ == key);
    } else {
        lemma_entry_of_key(entries.drop_last(), key);
        let i = choose|i: int|
            0 <= i < n && #[trigger] entries.drop_last()[i].0@ == key && entries.drop_last()[i].1 == str_map_of(
                entries.drop_last(),
            )[key];
        assert(entries[i].0@ == key);
    }
}

impl StrMap<Uuid> {
    /// Whether some key has this value.
    pub fn has_value(&self, id: Uuid) -> (r: bool)
        ensures
            r == self@.contains_value(id),
    {
        let mut i: usize = 0;
        while i < self.entries.len()
            invariant
                i <= self.entries@.len(),
                forall|j: int|
                    0 <= j < i ==> !(self@.dom().contains(#[trigger] self.entries@[j].0@) && self@[self.entries@[j].0@]
                        == id),
            decreases self.entries@.len() - i,
        {
            let current = match self.get(self.entries[i].0.as_str()) {
                Some(value) => *value == id,
                None => false,
            };
            if current {
                assert(self@.dom().contains(self.entries@[i as int].0@));
                return true;
            }
            i = i + 1;
        }
        proof {
            if self@.contains_value(id) {
                let key = choose|key: Seq<char>| self@.dom().contains(key) && self@[key] == id;
                lemma_entry_of_key(self.entries@, key);
            }
        }
        false
    }
}

impl<V> IdMap<V> {
    /// The keys, each once.
    pub fn keys(&self) -> (r: Vec<Uuid>)
        ensures
            r@.no_duplicates(),
            forall|key: Uuid| r@.contains(key) <==> #[trigger] self@.dom().contains(key),
    {
        let mut r: Vec<Uuid> = Vec::new();
        let mut i: usize = 0;
        assert(self.entries@.take(0) =~= Seq::empty());
        while i < self.entries.len()
            invariant
                i <= self.entries@.len(),
                r@.no_duplicates(),
                forall|key: Uuid|
                    r@.contains(key) <==> #[trigger] id_map_of(self.entries@.take(i as int)).dom().contains(key),
            decreases self.entries@.len() - i,
        {
            let key = self.entries[i].0;
            proof {
                lemma_take_step(self.entries@, i as int);
            }
            let ghost upto = id_map_of(self.entries@.take(i + 1));
            let ghost before = r@;
            if !has_id(&r, key) {
                r.push(key);
                assert forall|k: Uuid| r@.contains(k) <==> #[trigger] upto.dom().contains(k) by {
                    assert(before.contains(k) <==> id_map_of(self.entries@.take(i as int)).dom().contains(k));
                    if before.contains(k) {
                        let j = before.index_of(k);
                        assert(r@[j] == k);
                    }
                    assert(r@[r@.len() - 1] == key);
                    if r@.contains(k) {
                        let j = r@.index_of(k);
                        assert(j < before.len() ==> before[j] == k);
                    }
                }
            } else {
                assert forall|k: Uuid| r@.contains(k) <==> #[trigger] upto.dom().contains(k) by {
                    assert(before.contains(k) <==> id_map_of(self.entries@.take(i as int)).dom().contains(k));
                }
            }
            i = i + 1;
        }
        assert(self.entries@.take(i as int) =~= self.entries@);
        r
    }
}

impl<V> StrMap<V> {
    /// The keys, each once.
    pub fn keys(&self) -> (r: Vec<String>)
        ensures
            texts(r@).no_duplicates(),
            forall|key: Seq<char>| texts(r@).contains(key) <==> #[trigger] self@.dom().contains(key),
    {
        let mut r: Vec<String> = Vec::new();
        let mut i: usize = 0;
        assert(self.entries@.take(0) =~= Seq::empty());
        assert(texts(r@) =~= Seq::empty());
        while i < self.entries.len()
            invariant
                i <= self.entries@.len(),
                texts(r@).no_duplicates(),
                forall|key: Seq<char>|
                    texts(r@).contains(key) <==> #[trigger] str_map_of(self.entries@.take(i as int)).dom().contains(key),
            decreases self.entries@.len() - i,
        {
            let key = self.entries[i].0.as_str();
            proof {
                lemma_take_step(self.entries@, i as int);
            }
            let ghost upto = str_map_of(self.entries@.take(i + 1));
            let ghost before = texts(r@);
            if !has_text(&r, key) {
                r.push(key.to_owned());
                assert(texts(r@) =~= before.push(key@));
                assert forall|k: Seq<char>| texts(r@).contains(k) <==> #[trigger] upto.dom().contains(k) by {
                    assert(before.contains(k) <==> str_map_of(self.entries@.take(i as int)).dom().contains(k));
                    if before.contains(k) {
                        let j = before.index_of(k);
                        assert(texts(r@)[j] == k);
                    }
                    assert(texts(r@)[texts(r@).len() - 1] == key@);
                    if texts(r@).contains(k) {
                        let j = texts(r@).index_of(k);
                        assert(j < before.len() ==> before[j] == k);
                    }
                }
            } else {
                assert forall|k: Seq<char>| texts(r@).contains(k) <==> #[trigger] upto.dom().contains(k) by {
                    assert(before.contains(k) <==> str_map_of(self.entries@.take(i as int)).dom().contains(k));
                }
            }
            i = i + 1;
        }
        assert(self.entries@.take(i as int) =~= self.entries@);
        r
    }
}

/// Whether a text is in a list.
pub fn has_text(list: &Vec<String>, text: &str) -> (r: bool)
    ensures
        r == texts(list@).contains(text@),
{
    let mut i: usize = 0;
    while i < list.len()
        invariant
            i <= list@.len(),
            forall|j: int| 0 <= j < i ==> texts(list@)[j] != text@,
        decreases list@.len() - i,
    {
        assert(texts(list@)[i as int] == list@[i as int]@);
        if same(list[i].as_str(), text) {
            return true;
        }
        i = i + 1;
    }
    false
}

/// Whether an identifier is in a list.
pub fn has_id(ids: &Vec<Uuid>, id: Uuid) -> (r: bool)
    ensures
        r == ids@.contains(id),
{
    let mut i: usize = 0;
    while i < ids.len()
        invariant
            i <= ids@.len(),
            forall|j: int| 0 <= j < i ==> ids@[j] != id,
        decreases ids@.len() - i,
    {
        if ids[i] == id {
            assert(ids@[i as int] == id);
            return true;
        }
        i = i + 1;
    }
    false
}

} // verus!
