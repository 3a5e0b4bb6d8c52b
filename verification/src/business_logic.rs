//! The record of the key-value variant, and the operations on a storage of such records.

use vstd::prelude::*;
use vstd::std_specs::convert::FromSpecImpl;

use crate::query::Named;
use crate::storage::{Storage, StorageError};

verus! {

/// What an operation of the business logic can fail with.
#[derive(PartialEq, Debug)]
pub enum BusinessError {
    NotFound,
}

/// A Pokemon: its display name, and the number by which it is stored and found.
#[derive(Debug, PartialEq)]
pub struct Pokemon {
    pub name: String,
    pub id: usize,
}

impl Clone for Pokemon {
    fn clone(&self) -> (copy: Self)
        ensures
            copy == *self,
    {
        Pokemon { name: self.name.clone(), id: self.id }
    }
}

impl Named for Pokemon {
    open spec fn shown_name(&self) -> Seq<char> {
        self.name@
    }

    fn name(&self) -> (name: &String) {
        &self.name
    }
}

impl From<StorageError> for BusinessError {
    fn from(_value: StorageError) -> (error: Self) {
        BusinessError::NotFound
    }
}

impl FromSpecImpl<StorageError> for BusinessError {
    open spec fn obeys_from_spec() -> bool {
        true
    }

    open spec fn from_spec(_value: StorageError) -> BusinessError {
        BusinessError::NotFound
    }
}

/// What the business logic makes of an outcome of the storage: a success stays as it
/// is, and every failure of the storage is reported as `NotFound`.
pub open spec fn business_result<T>(outcome: Result<T, StorageError>) -> Result<T, BusinessError> {
    match outcome {
        Ok(value) => Ok(value),
        Err(_) => Err(BusinessError::NotFound),
    }
}

/// Turns an outcome of the storage into a result of the business logic.
pub fn into_business_result<T>(
    outcome: Result<T, StorageError>,
) -> (result: Result<T, BusinessError>)
    ensures
        result == business_result(outcome),
{
    match outcome {
        Ok(value) => Ok(value),
        Err(error) => Err(BusinessError::from(error)),
    }
}

/// `create_pokemon`, called with `pokemon` on the storage `before`, may leave
/// `after` and return `result`: the storage was asked once to store `pokemon`.
pub open spec fn creates<S: Storage>(
    before: S,
    pokemon: Pokemon,
    after: S,
    result: Result<(), BusinessError>,
) -> bool {
    exists|outcome: Result<(), StorageError>| #[trigger]
        S::stores(before, pokemon, after, outcome) && result == business_result(outcome)
}

/// `update_pokemon`, called with `pokemon` on the storage `before`, may leave
/// `after` and return `result`: the storage was asked once to update with `pokemon`.
pub open spec fn updates<S: Storage>(
    before: S,
    pokemon: Pokemon,
    after: S,
    result: Result<(), BusinessError>,
) -> bool {
    exists|outcome: Result<(), StorageError>| #[trigger]
        S::updates(before, pokemon, after, outcome) && result == business_result(outcome)
}

/// `delete_pokemon`, called with `id` on the storage `before`, may leave `after`
/// and return `result`: the storage was asked once to delete under `id`.
pub open spec fn deletes<S: Storage>(
    before: S,
    id: usize,
    after: S,
    result: Result<(), BusinessError>,
) -> bool {
    exists|outcome: Result<(), StorageError>| #[trigger]
        S::deletes(before, id, after, outcome) && result == business_result(outcome)
}

/// `get_pokemon`, called with `id` on `storage`, may return `result`: the storage
/// was asked once for what it keeps under `id`.
pub open spec fn fetches<S: Storage>(
    storage: S,
    id: usize,
    result: Result<Pokemon, BusinessError>,
) -> bool {
    exists|outcome: Result<Pokemon, StorageError>| #[trigger]
        storage.gets(id, outcome) && result == business_result(outcome)
}

/// Stores `pokemon`, and reports what the storage made of it.
pub fn create_pokemon<S>(pokemon: Pokemon, storage: &mut S) -> (result: Result<(), BusinessError>)
    where S: Storage
    ensures
        creates(*old(storage), pokemon, *final(storage), result),
{
    into_business_result(storage.store_pokemon(pokemon))
}

/// Overwrites the stored Pokemon that has the id of `pokemon`, and reports what the
/// storage made of it.
pub fn update_pokemon<S>(pokemon: Pokemon, storage: &mut S) -> (result: Result<(), BusinessError>)
    where S: Storage
    ensures
        updates(*old(storage), pokemon, *final(storage), result),
{
    into_business_result(storage.update_pokemon(pokemon))
}

/// Drops what is stored under `id`, and reports what the storage made of it.
pub fn delete_pokemon<S>(id: usize, storage: &mut S) -> (result: Result<(), BusinessError>)
    where S: Storage
    ensures
        deletes(*old(storage), id, *final(storage), result),
{
    into_business_result(storage.delete_pokemon(id))
}

/// Asks the storage for the Pokemon under `id`, and reports what it answered.
pub fn get_pokemon<S: Storage>(id: usize, storage: &S) -> (result: Result<Pokemon, BusinessError>)
    ensures
        fetches(*storage, id, result),
{
    into_business_result(storage.get_pokemon(id))
}

} // verus!
