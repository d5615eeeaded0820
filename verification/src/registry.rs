//! Open sessions keyed by an opaque id.
use std::collections::HashMap;
use vstd::prelude::*;

use crate::text::text_of;

verus! {

broadcast use vstd::std_specs::hash::group_hash_axioms;

/// The entries of a registry, and the id the next one gets.
pub struct RegistryView<E> {
    pub next_id: u64,
    pub entries: Map<u64, E>,
}

/// Entries by id; ids are handed out in increasing order (wrapping).
pub struct SessionRegistry<E> {
    next_id: u64,
    sessions: HashMap<u64, E>,
}

impl<E> View for SessionRegistry<E> {
    type V = RegistryView<E>;

    closed spec fn view(&self) -> RegistryView<E> {
        RegistryView { next_id: self.next_id, entries: self.sessions@ }
    }
}

impl<E> SessionRegistry<E> {
    pub fn new() -> (r: Self)
        ensures
            r@.next_id == 0,
            r@.entries == Map::<u64, E>::empty(),
    {
        SessionRegistry { next_id: 0, sessions: HashMap::new() }
    }

    /// Store `entry` under a fresh id and return the id.
    pub fn insert(&mut self, entry: E) -> (id: u64)
        ensures
            id == old(self)@.next_id,
            final(self)@.next_id == (if id == u64::MAX {
                0
            } else {
                id + 1
            }),
            final(self)@.entries == old(self)@.entries.insert(id, entry),
    {
        let id = self.next_id;
        self.next_id = id.wrapping_add(1);
        self.sessions.insert(id, entry);
        id
    }

    /// The entry stored under `id`.
    pub fn get(&self, id: u64) -> (r: Result<&E, String>)
        ensures
            r is Ok <==> self@.entries.contains_key(id),
            r matches Ok(e) ==> *e == self@.entries[id],
            r matches Err(m) ==> m@ == "no such session"@,
    {
        match self.sessions.get(&id) {
            Some(e) => Ok(e),
            None => Err(text_of("no such session")),
        }
    }

    /// Drop the entry stored under `id`.
    pub fn remove(&mut self, id: u64) -> (r: Result<(), String>)
        ensures
            r is Ok <==> old(self)@.entries.contains_key(id),
            final(self)@.entries == old(self)@.entries.remove(id),
            final(self)@.next_id == old(self)@.next_id,
            r matches Err(m) ==> m@ == "no such session"@,
    {
        match self.sessions.remove(&id) {
            Some(_) => Ok(()),
            None => Err(text_of("no such session")),
        }
    }
}

/// What was stored can be looked up under the id it was given, and is
/// gone once removed; other entries are untouched.
pub proof fn law_registry_insert_get_remove<E>(v: RegistryView<E>, entry: E, other: u64)
    ensures
        ({
            let id = v.next_id;
            let after = v.entries.insert(id, entry);
            &&& after.contains_key(id) && after[id] == entry
            &&& !after.remove(id).contains_key(id)
            &&& (other != id ==> after.remove(id).contains_key(other) == v.entries.contains_key(
                other,
            ))
        }),
{
}

} // verus!
