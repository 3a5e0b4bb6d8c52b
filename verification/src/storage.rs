//! What a storage of Pokemon offers, whatever keeps the records.

use vstd::prelude::*;

use crate::business_logic::Pokemon;
use crate::models::{PokemonIndexRequest, PokemonList};

verus! {

/// What an operation of a storage can fail with.
#[derive(Debug, PartialEq)]
pub enum StorageError {
    NotFound,
}

/// A storage of Pokemon, each kept under its id.
///
/// What an operation does is for each storage to say: beside every operation stands a
/// predicate that holds of each of its possible outcomes, and the operation promises
/// that predicate. Code that is written for every storage learns from it what holds
/// of the storage it was given. A storage that leaves a predicate as it stands here
/// promises nothing of that operation: it may fail, and it may keep what it likes.
pub trait Storage: Sized {
    /// `store_pokemon`, called with `pokemon` on `before`, may leave `after` and
    /// return `outcome`.
    open spec fn stores(
        before: Self,
        pokemon: Pokemon,
        after: Self,
        outcome: Result<(), StorageError>,
    ) -> bool {
        true
    }

    /// `get_pokemon`, called with `id`, may return `outcome`.
    open spec fn gets(&self, id: usize, outcome: Result<Pokemon, StorageError>) -> bool {
        true
    }

    /// `delete_pokemon`, called with `id` on `before`, may leave `after` and return
    /// `outcome`.
    open spec fn deletes(
        before: Self,
        id: usize,
        after: Self,
        outcome: Result<(), StorageError>,
    ) -> bool {
        true
    }

    /// `update_pokemon`, called with `pokemon` on `before`, may leave `after` and
    /// return `outcome`.
    open spec fn updates(
        before: Self,
        pokemon: Pokemon,
        after: Self,
        outcome: Result<(), StorageError>,
    ) -> bool {
        true
    }

    /// `index_pokemons`, called with `index_request`, may return `outcome`.
    open spec fn indexes(
        &self,
        index_request: PokemonIndexRequest,
        outcome: Result<Vec<PokemonList>, StorageError>,
    ) -> bool {
        true
    }

    /// Keeps `pokemon` under its id.
    fn store_pokemon(&mut self, pokemon: Pokemon) -> (outcome: Result<(), StorageError>)
        ensures
            Self::stores(*old(self), pokemon, *final(self), outcome),
    ;

    /// Hands out a copy of the Pokemon that is kept under `id`.
    fn get_pokemon(&self, id: usize) -> (outcome: Result<Pokemon, StorageError>)
        ensures
            self.gets(id, outcome),
    ;

    /// Drops what is kept under `id`.
    fn delete_pokemon(&mut self, id: usize) -> (outcome: Result<(), StorageError>)
        ensures
            Self::deletes(*old(self), id, *final(self), outcome),
    ;

    /// Overwrites the Pokemon that is kept under the id of `pokemon`.
    fn update_pokemon(&mut self, pokemon: Pokemon) -> (outcome: Result<(), StorageError>)
        ensures
            Self::updates(*old(self), pokemon, *final(self), outcome),
    ;

    /// Lists what is kept, ordered and searched as `index_request` says.
    fn index_pokemons(
        &self,
        index_request: PokemonIndexRequest,
    ) -> (outcome: Result<Vec<PokemonList>, StorageError>)
        ensures
            self.indexes(index_request, outcome),
    ;
}

} // verus!
