//! The storage that keeps its Pokemon in a hash map, in memory.

use std::collections::HashMap;
use vstd::prelude::*;

use crate::business_logic::Pokemon;
use crate::models::{PokemonIndexRequest, PokemonList};
use crate::query::{index, is_index};
use crate::storage::{Storage, StorageError};

verus! {

/// The records after `pokemon` was stored: it stands under its id, in place of what
/// stood there; nothing else has changed.
pub open spec fn stored(records: Map<usize, Pokemon>, pokemon: Pokemon) -> Map<usize, Pokemon> {
    records.insert(pokemon.id, pokemon)
}

/// What a lookup of `id` gives: the record kept under it, or `NotFound`.
pub open spec fn found(records: Map<usize, Pokemon>, id: usize) -> Result<Pokemon, StorageError> {
    if records.contains_key(id) {
        Ok(records[id])
    } else {
        Err(StorageError::NotFound)
    }
}

/// The records after what was kept under `id` has been dropped. Where nothing was
/// kept there, these are the records as they were.
pub open spec fn deleted(records: Map<usize, Pokemon>, id: usize) -> Map<usize, Pokemon> {
    records.remove(id)
}

/// The records after an update with `pokemon`: the record under its id has the new
/// name. Where nothing is kept under that id, nothing changes.
pub open spec fn updated(records: Map<usize, Pokemon>, pokemon: Pokemon) -> Map<usize, Pokemon> {
    if records.contains_key(pokemon.id) {
        records.insert(pokemon.id, Pokemon { name: pokemon.name, id: records[pokemon.id].id })
    } else {
        records
    }
}

/// What an update with `pokemon` returns: `NotFound` where nothing is kept under its id.
pub open spec fn update_outcome(
    records: Map<usize, Pokemon>,
    pokemon: Pokemon,
) -> Result<(), StorageError> {
    if records.contains_key(pokemon.id) {
        Ok(())
    } else {
        Err(StorageError::NotFound)
    }
}

/// A storage in memory: a hash map from id to Pokemon.
pub struct KeyValueStorage {
    inner: HashMap<usize, Pokemon>,
}

impl View for KeyValueStorage {
    type V = Map<usize, Pokemon>;

    closed spec fn view(&self) -> Map<usize, Pokemon> {
        self.inner@
    }
}

impl Storage for KeyValueStorage {
    open spec fn stores(
        before: Self,
        pokemon: Pokemon,
        after: Self,
        outcome: Result<(), StorageError>,
    ) -> bool {
        after@ == stored(before@, pokemon) && outcome == Ok::<(), StorageError>(())
    }

    open spec fn gets(&self, id: usize, outcome: Result<Pokemon, StorageError>) -> bool {
        outcome == found(self@, id)
    }

    open spec fn deletes(
        before: Self,
        id: usize,
        after: Self,
        outcome: Result<(), StorageError>,
    ) -> bool {
        after@ == deleted(before@, id) && outcome == Ok::<(), StorageError>(())
    }

    open spec fn updates(
        before: Self,
        pokemon: Pokemon,
        after: Self,
        outcome: Result<(), StorageError>,
    ) -> bool {
        after@ == updated(before@, pokemon) && outcome == update_outcome(before@, pokemon)
    }

    open spec fn indexes(
        &self,
        index_request: PokemonIndexRequest,
        outcome: Result<Vec<PokemonList>, StorageError>,
    ) -> bool {
        &&& outcome is Ok
        &&& is_index(self@, index_request, outcome->Ok_0@)
    }

    fn store_pokemon(&mut self, pokemon: Pokemon) -> (outcome: Result<(), StorageError>) {
        broadcast use vstd::std_specs::hash::group_hash_axioms;

        self.inner.insert(pokemon.id, pokemon);
        Ok(())
    }

    fn get_pokemon(&self, id: usize) -> (outcome: Result<Pokemon, StorageError>) {
        broadcast use vstd::std_specs::hash::group_hash_axioms;

        match self.inner.get(&id) {
            None => Err(StorageError::NotFound),
            Some(p) => Ok(p.clone()),
        }
    }

    fn delete_pokemon(&mut self, id: usize) -> (outcome: Result<(), StorageError>) {
        broadcast use vstd::std_specs::hash::group_hash_axioms;

        self.inner.remove(&id);
        Ok(())
    }

    fn update_pokemon(&mut self, pokemon: Pokemon) -> (outcome: Result<(), StorageError>) {
        broadcast use vstd::std_specs::hash::group_hash_axioms;

        match self.inner.get(&pokemon.id) {
            Some(p) => {
                let renamed = Pokemon { name: pokemon.name, id: p.id };
                self.inner.insert(pokemon.id, renamed);
                Ok(())
            },
            None => Err(StorageError::NotFound),
        }
    }

    fn index_pokemons(
        &self,
        index_request: PokemonIndexRequest,
    ) -> (outcome: Result<Vec<PokemonList>, StorageError>) {
        Ok(index(&self.inner, &index_request))
    }
}

impl KeyValueStorage {
    /// A storage that holds nothing.
    pub fn new() -> (storage: Self)
        ensures
            storage@ == Map::<usize, Pokemon>::empty(),
    {
        Self { inner: HashMap::new() }
    }

    /// A storage that holds the records of `storage`.
    pub fn with(storage: HashMap<usize, Pokemon>) -> (kept: Self)
        ensures
            kept@ == storage@,
    {
        Self { inner: storage }
    }

    /// The records that the storage holds.
    pub fn inner(&self) -> (records: &HashMap<usize, Pokemon>)
        ensures
            records@ == self@,
    {
        &self.inner
    }
}

} // verus!
