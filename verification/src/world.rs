//! The world: a store of keyed singleton resources together with an entity
//! table, where each entity carries its own keyed components.
//!
//! The store exclusively owns every resource it holds; callers borrow values
//! or take them out, they never co-own them. Resource identity is a `u64`
//! key chosen by the caller, standing in for the resource's type: at most one
//! value lives under a key at any time, and a later insertion overwrites the
//! earlier one silently.

use vstd::prelude::*;
use std::collections::HashMap;
use crate::ecs::EcsError;

verus! {

broadcast use vstd::std_specs::hash::group_hash_axioms;

/// The mathematical model of a world: resources as a map from key to value,
/// entities as a sequence (indexed by entity id) of component maps.
#[verifier::ext_equal]
pub ghost struct WorldModel<T> {
    pub resources: Map<u64, T>,
    pub entities: Seq<Map<u64, T>>,
}

/// A container of keyed singleton resources and of entities with keyed
/// components.
pub struct World<T> {
    resources: HashMap<u64, T>,
    entities: Vec<HashMap<u64, T>>,
}

impl<T> View for World<T> {
    type V = WorldModel<T>;

    closed spec fn view(&self) -> WorldModel<T> {
        WorldModel {
            resources: self.resources@,
            entities: self.entities@.map_values(|m: HashMap<u64, T>| m@),
        }
    }
}

impl<T> World<T> {
    /// A world with no resources and no entities.
    pub fn new() -> (w: World<T>)
        ensures
            w@.resources == Map::<u64, T>::empty(),
            w@.entities == Seq::<Map<u64, T>>::empty(),
    {
        let w = World { resources: HashMap::new(), entities: Vec::new() };
        proof {
            assert(w@.entities =~= Seq::<Map<u64, T>>::empty());
        }
        w
    }

    /// Stores `value` as the singleton resource under `key`, silently
    /// overwriting any earlier value under the same key.
    pub fn insert_resource(&mut self, key: u64, value: T)
        ensures
            final(self)@.resources == old(self)@.resources.insert(key, value),
            final(self)@.entities == old(self)@.entities,
    {
        self.resources.insert(key, value);
    }

    /// Whether a resource lives under `key`.
    pub fn contains_resource(&self, key: u64) -> (r: bool)
        ensures
            r == self@.resources.contains_key(key),
    {
        self.resources.contains_key(&key)
    }

    /// Borrows the resource under `key`, or reports that none is present.
    pub fn get_resource(&self, key: u64) -> (r: Result<&T, EcsError>)
        ensures
            match r {
                Ok(v) => self@.resources.contains_key(key) && *v == self@.resources[key],
                Err(e) => !self@.resources.contains_key(key) && e == EcsError::ResourceNotFound,
            },
    {
        match self.resources.get(&key) {
            Some(v) => Ok(v),
            None => Err(EcsError::ResourceNotFound),
        }
    }

    /// Takes the resource under `key` out of the world, so that later reads
    /// of the key fail until a new value is inserted.
    pub fn remove_resource(&mut self, key: u64) -> (r: Result<T, EcsError>)
        ensures
            final(self)@.entities == old(self)@.entities,
            match r {
                Ok(v) => {
                    &&& old(self)@.resources.contains_key(key)
                    &&& v == old(self)@.resources[key]
                    &&& final(self)@.resources == old(self)@.resources.remove(key)
                },
                Err(e) => {
                    &&& !old(self)@.resources.contains_key(key)
                    &&& e == EcsError::ResourceNotFound
                    &&& final(self)@.resources == old(self)@.resources
                },
            },
    {
        match self.resources.remove(&key) {
            Some(v) => Ok(v),
            None => {
                proof {
                    assert(final(self)@.resources =~= old(self)@.resources);
                }
                Err(EcsError::ResourceNotFound)
            },
        }
    }

    /// Creates a fresh entity with no components and returns its id, the
    /// index of its slot in the entity table.
    pub fn spawn(&mut self) -> (e: usize)
        ensures
            final(self)@.resources == old(self)@.resources,
            final(self)@.entities == old(self)@.entities.push(Map::<u64, T>::empty()),
            e == old(self)@.entities.len(),
    {
        let e = self.entities.len();
        self.entities.push(HashMap::new());
        proof {
            assert(final(self)@.entities =~= old(self)@.entities.push(Map::<u64, T>::empty()));
        }
        e
    }

    /// The number of entities spawned so far.
    pub fn entity_count(&self) -> (n: usize)
        ensures
            n == self@.entities.len(),
    {
        self.entities.len()
    }

    /// Attaches `value` as the component under `key` of entity `entity`,
    /// overwriting any earlier component under the same key.
    pub fn insert_component(&mut self, entity: usize, key: u64, value: T) -> (r: Result<
        (),
        EcsError,
    >)
        ensures
            final(self)@.resources == old(self)@.resources,
            match r {
                Ok(()) => {
                    &&& entity < old(self)@.entities.len()
                    &&& final(self)@.entities == old(self)@.entities.update(
                        entity as int,
                        old(self)@.entities[entity as int].insert(key, value),
                    )
                },
                Err(e) => {
                    &&& entity >= old(self)@.entities.len()
                    &&& e == EcsError::EntityNotFound
                    &&& final(self)@.entities == old(self)@.entities
                },
            },
    {
        if entity < self.entities.len() {
            let slot = &mut self.entities[entity];
            slot.insert(key, value);
            proof {
                assert(final(self)@.entities =~= old(self)@.entities.update(
                    entity as int,
                    old(self)@.entities[entity as int].insert(key, value),
                ));
            }
            Ok(())
        } else {
            Err(EcsError::EntityNotFound)
        }
    }

    /// Borrows the component under `key` of entity `entity`, reporting
    /// whether the entity or the component is missing.
    pub fn get_component(&self, entity: usize, key: u64) -> (r: Result<&T, EcsError>)
        ensures
            match r {
                Ok(v) => {
                    &&& entity < self@.entities.len()
                    &&& self@.entities[entity as int].contains_key(key)
                    &&& *v == self@.entities[entity as int][key]
                },
                Err(e) => {
                    if entity >= self@.entities.len() {
                        e == EcsError::EntityNotFound
                    } else {
                        &&& !self@.entities[entity as int].contains_key(key)
                        &&& e == EcsError::ComponentNotFound
                    }
                },
            },
    {
        if entity < self.entities.len() {
            match self.entities[entity].get(&key) {
                Some(v) => Ok(v),
                None => Err(EcsError::ComponentNotFound),
            }
        } else {
            Err(EcsError::EntityNotFound)
        }
    }
}

} // verus!
