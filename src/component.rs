//! Components and the storages that hold one component per entity.

use std::collections::HashMap;

use vstd::prelude::*;
use vstd::std_specs::hash::*;

verus! {

broadcast use group_hash_axioms;

/// The index of an entity.
pub type HandleIndex = u32;

/// A component kind, with the storage strategy it is kept in.
pub trait Component: Sized {
    type Storage: ComponentStorage<Self>;

    /// A number that tells this component kind apart from the others.
    fn type_index() -> usize;
}

/// A storage that maps entity indices to components.
pub trait ComponentStorage<T>: Sized {
    /// The component stored for each entity index.
    spec fn contents(&self) -> Map<HandleIndex, T>;

    /// Creates an empty storage.
    fn new() -> (r: Self)
        ensures
            r.contents() == Map::<HandleIndex, T>::empty();

    /// The component of entity `id`, if any.
    fn get(&self, id: HandleIndex) -> (r: Option<&T>)
        ensures
            r is Some == self.contents().contains_key(id),
            r is Some ==> *r->Some_0 == self.contents()[id];

    /// Stores `v` as the component of entity `id`, replacing any other.
    fn insert(&mut self, id: HandleIndex, v: T)
        ensures
            final(self).contents() == old(self).contents().insert(id, v);

    /// Removes the component of entity `id` and hands it back.
    fn remove(&mut self, id: HandleIndex) -> (r: Option<T>)
        ensures
            r == old(self).contents().get(id),
            final(self).contents() == old(self).contents().remove(id);
}

/// A hash-map storage, best suited to components that few entities have.
pub struct HashMapStorage<T> {
    values: HashMap<HandleIndex, T>,
}

impl<T> ComponentStorage<T> for HashMapStorage<T> {
    closed spec fn contents(&self) -> Map<HandleIndex, T> {
        self.values@
    }

    fn new() -> (r: Self) {
        HashMapStorage { values: HashMap::new() }
    }

    fn get(&self, id: HandleIndex) -> (r: Option<&T>) {
        self.values.get(&id)
    }

    fn insert(&mut self, id: HandleIndex, v: T) {
        let _ = self.values.insert(id, v);
    }

    fn remove(&mut self, id: HandleIndex) -> (r: Option<T>) {
        self.values.remove(&id)
    }
}

/// A vector storage indexed by entity, best suited to components that most
/// entities have. Each slot records whether it holds a component, so growing
/// and removing never touch an empty slot's memory.
pub struct VecStorage<T> {
    values: Vec<Option<T>>,
}

impl<T> ComponentStorage<T> for VecStorage<T> {
    closed spec fn contents(&self) -> Map<HandleIndex, T> {
        Map::new(
            |i: HandleIndex| (i as int) < self.values@.len() && self.values@[i as int] is Some,
            |i: HandleIndex| self.values@[i as int]->Some_0,
        )
    }

    fn new() -> (r: Self) {
        let r = VecStorage { values: Vec::new() };
        assert(r.contents() =~= Map::<HandleIndex, T>::empty());
        r
    }

    fn get(&self, id: HandleIndex) -> (r: Option<&T>) {
        let i = id as usize;
        if i < self.values.len() {
            self.values[i].as_ref()
        } else {
            None
        }
    }

    fn insert(&mut self, id: HandleIndex, v: T) {
        let i = id as usize;
        let ghost pre = self.contents();
        if self.values.len() <= i {
            while self.values.len() <= i
                invariant
                    self.contents() == pre,
                    self.values@.len() <= i + 1,
                decreases i + 1 - self.values@.len(),
            {
                self.values.push(None);
                assert(self.contents() =~= pre);
            }
        }
        self.values.set(i, Some(v));
        assert(self.contents() =~= pre.insert(id, v));
    }

    fn remove(&mut self, id: HandleIndex) -> (r: Option<T>) {
        let i = id as usize;
        let ghost pre = self.contents();
        if i >= self.values.len() {
            assert(pre.remove(id) =~= pre);
            return None;
        }
        let mut slot: Option<T> = None;
        std::mem::swap(&mut self.values[i], &mut slot);
        assert(self.contents() =~= pre.remove(id));
        slot
    }
}

} // verus!
