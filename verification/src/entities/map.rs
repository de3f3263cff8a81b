//! A map keyed by entity id.

use vstd::prelude::*;

use crate::entities::id::{EntityAddress, EntityId};

verus! {

/// An insertion-ordered map from entity ids to values.
#[derive(Debug)]
pub struct EntityMap<V> {
    entries: Vec<(EntityId, V)>,
}

spec fn entry_keys<V>(entries: Seq<(EntityId, V)>) -> Seq<EntityAddress> {
    entries.map_values(|e: (EntityId, V)| e.0@)
}

spec fn entries_as_map<V>(entries: Seq<(EntityId, V)>) -> Map<EntityAddress, V> {
    Map::new(
        |a: EntityAddress| entry_keys(entries).contains(a),
        |a: EntityAddress| entries[entry_keys(entries).index_of(a)].1,
    )
}

impl<V> View for EntityMap<V> {
    type V = Map<EntityAddress, V>;

    closed spec fn view(&self) -> Map<EntityAddress, V> {
        entries_as_map(self.entries@)
    }
}

impl<V> EntityMap<V> {
    /// The keys, in the order in which they were first inserted.
    pub closed spec fn keys(self) -> Seq<EntityAddress> {
        entry_keys(self.entries@)
    }

    #[verifier::type_invariant]
    spec fn inv(self) -> bool {
        entry_keys(self.entries@).no_duplicates()
    }

    pub fn new() -> (map: Self)
        ensures
            map@ == Map::<EntityAddress, V>::empty(),
            map.keys() == Seq::<EntityAddress>::empty(),
    {
        let map = EntityMap { entries: Vec::new() };
        assert(map.keys() =~= Seq::<EntityAddress>::empty());
        assert(map@ =~= Map::<EntityAddress, V>::empty());
        map
    }

    /// The number of keys.
    pub fn len(&self) -> (n: usize)
        ensures
            n == self.keys().len(),
            self.keys().no_duplicates(),
            forall|a: EntityAddress|
                #![trigger self@.contains_key(a)]
                #![trigger self.keys().contains(a)]
                self@.contains_key(a) <==> self.keys().contains(a),
    {
        proof {
            use_type_invariant(self);
        }
        self.entries.len()
    }

    /// The key that was inserted as number `i`.
    pub fn key_at(&self, i: usize) -> (id: &EntityId)
        requires
            i < self.keys().len(),
        ensures
            id@ == self.keys()[i as int],
            self@.contains_key(id@),
    {
        assert(self.keys().contains(self.keys()[i as int]));
        &self.entries[i].0
    }

    /// The value of the key that was inserted as number `i`.
    pub fn value_at(&self, i: usize) -> (value: &V)
        requires
            i < self.keys().len(),
        ensures
            *value == self@[self.keys()[i as int]],
    {
        proof {
            use_type_invariant(self);
            assert(self.keys().contains(self.keys()[i as int]));
        }
        &self.entries[i].1
    }

    /// The position of a key.
    fn position(&self, id: &EntityId) -> (found: Option<usize>)
        ensures
            match found {
                Some(i) => i < self.keys().len() && self.keys()[i as int] == id@,
                None => !self.keys().contains(id@),
            },
    {
        let mut i: usize = 0;
        while i < self.entries.len()
            invariant
                i <= self.entries@.len(),
                forall|j: int| 0 <= j < i ==> self.keys()[j] != id@,
            decreases self.entries@.len() - i,
        {
            if self.entries[i].0 == *id {
                return Some(i);
            }
            i += 1;
        }
        None
    }

    pub fn get(&self, id: &EntityId) -> (found: Option<&V>)
        ensures
            match found {
                Some(value) => self@.contains_key(id@) && *value == self@[id@],
                None => !self@.contains_key(id@),
            },
    {
        match self.position(id) {
            Some(i) => {
                assert(self.keys().contains(id@));
                Some(self.value_at(i))
            },
            None => None,
        }
    }

    /// Replace the value of the key that was inserted as number `i`.
    pub fn set_at(&mut self, i: usize, value: V)
        requires
            i < old(self).keys().len(),
        ensures
            final(self)@ == old(self)@.insert(old(self).keys()[i as int], value),
            final(self).keys() == old(self).keys(),
    {
        proof {
            use_type_invariant(&*self);
        }
        let mut entries: Vec<(EntityId, V)> = Vec::new();
        std::mem::swap(&mut entries, &mut self.entries);
        let id: EntityId = entries[i].0.clone();
        entries[i] = (id, value);
        proof {
            let before = old(self).entries@;
            assert(entry_keys(entries@) =~= entry_keys(before));
            assert(entry_keys(before).contains(entry_keys(before)[i as int]));
            assert(entries_as_map(entries@) =~= entries_as_map(before).insert(
                entry_keys(before)[i as int],
                value,
            ));
        }
        self.entries = entries;
    }

    /// Insert or replace.
    pub fn insert(&mut self, id: EntityId, value: V)
        ensures
            final(self)@ == old(self)@.insert(id@, value),
    {
        match self.position(&id) {
            Some(i) => {
                self.set_at(i, value);
            },
            None => {
                proof {
                    use_type_invariant(&*self);
                }
                let mut entries: Vec<(EntityId, V)> = Vec::new();
                std::mem::swap(&mut entries, &mut self.entries);
                entries.push((id, value));
                proof {
                    let before = entry_keys(old(self).entries@);
                    let after = entry_keys(entries@);
                    assert(after =~= before.push(id@));
                    assert(after[before.len() as int] == id@);
                    assert forall|a: EntityAddress| before.contains(a) implies after.contains(a)
                        && after.index_of(a) == before.index_of(a) by {
                        assert(after[before.index_of(a)] == a);
                    }
                    assert(entries_as_map(entries@) =~= entries_as_map(
                        old(self).entries@,
                    ).insert(id@, value));
                }
                self.entries = entries;
            },
        }
    }
}

impl<V: Copy> EntityMap<V> {
    /// A map of its own with the same entries.
    pub fn copied(&self) -> (copy: Self)
        ensures
            copy@ == self@,
            copy.keys() == self.keys(),
    {
        let mut entries: Vec<(EntityId, V)> = Vec::new();
        let mut i: usize = 0;
        while i < self.entries.len()
            invariant
                i <= self.entries@.len(),
                entries@ == self.entries@.take(i as int),
            decreases self.entries@.len() - i,
        {
            entries.push((self.entries[i].0.clone(), self.entries[i].1));
            i += 1;
            assert(entries@ =~= self.entries@.take(i as int));
        }
        assert(entries@ =~= self.entries@);
        proof {
            use_type_invariant(self);
        }
        EntityMap { entries }
    }
}

} // verus!
