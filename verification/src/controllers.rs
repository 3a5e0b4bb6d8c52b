//! The handlers of the key-value variant, for every storage.
//!
//! Each takes the storage as the caller holds it, already locked, and returns what
//! the client is to be told.

use vstd::prelude::*;

use crate::business_logic::{
    create_pokemon, delete_pokemon, get_pokemon, update_pokemon, Pokemon,
};
use crate::models::{PokemonCreateRequest, PokemonGetResponse, PokemonUpdateRequest};
use crate::status::Status;
use crate::storage::{Storage, StorageError};

verus! {

/// The answer to a request to create a Pokemon, by what the storage made of it.
pub open spec fn create_answer(outcome: Result<(), StorageError>) -> Status {
    match outcome {
        Ok(_) => Status::Success,
        Err(_) => Status::InternalServerError,
    }
}

/// The answer to a request for one Pokemon, by what the storage answered.
pub open spec fn get_answer(
    outcome: Result<Pokemon, StorageError>,
) -> Result<PokemonGetResponse, Status> {
    match outcome {
        Ok(pokemon) => Ok(PokemonGetResponse::showing(pokemon)),
        Err(_) => Err(Status::NotFound),
    }
}

/// The answer to a request to delete a Pokemon, by what the storage made of it.
pub open spec fn delete_answer(outcome: Result<(), StorageError>) -> Result<Status, Status> {
    match outcome {
        Ok(_) => Ok(Status::NoContent),
        Err(_) => Err(Status::InternalServerError),
    }
}

/// The answer to a request to update a Pokemon, by whether the storage found it.
pub open spec fn update_answer<T>(outcome: Result<T, StorageError>) -> Result<Status, Status> {
    match outcome {
        Ok(_) => Ok(Status::NoContent),
        Err(_) => Err(Status::NotFound),
    }
}

/// The handlers.
pub struct Controller;

impl Controller {
    /// Stores the Pokemon of the request.
    pub fn create_pokemon<T: Storage>(
        db: &mut T,
        pokemon_create_request: PokemonCreateRequest,
    ) -> (status: Status)
        ensures
            exists|outcome: Result<(), StorageError>| #[trigger]
                T::stores(*old(db), pokemon_create_request.pokemon(), *final(db), outcome)
                    && status == create_answer(outcome),
    {
        let pokemon = Pokemon::from(pokemon_create_request);
        match create_pokemon(pokemon, db) {
            Ok(_) => Status::Success,
            Err(_) => Status::InternalServerError,
        }
    }

    /// Answers with the Pokemon under `id`.
    pub fn get_pokemon<T: Storage>(
        db: &T,
        id: usize,
    ) -> (answer: Result<PokemonGetResponse, Status>)
        ensures
            exists|outcome: Result<Pokemon, StorageError>| #[trigger]
                db.gets(id, outcome) && answer == get_answer(outcome),
    {
        match get_pokemon(id, db) {
            Ok(pokemon) => Ok(PokemonGetResponse::from(pokemon)),
            Err(_) => Err(Status::NotFound),
        }
    }

    /// Deletes the Pokemon under `id`.
    pub fn delete_pokemon<T: Storage>(db: &mut T, id: usize) -> (answer: Result<Status, Status>)
        ensures
            exists|outcome: Result<(), StorageError>| #[trigger]
                T::deletes(*old(db), id, *final(db), outcome) && answer == delete_answer(outcome),
    {
        match delete_pokemon(id, db) {
            Ok(()) => Ok(Status::NoContent),
            _ => Err(Status::InternalServerError),
        }
    }

    /// Updates the Pokemon under `id`. A request that holds a name has the storage
    /// write it. One that holds none changes nothing, and only asks the storage
    /// whether the Pokemon is there.
    pub fn update_pokemon<T: Storage>(
        db: &mut T,
        id: usize,
        update_request: PokemonUpdateRequest,
    ) -> (answer: Result<Status, Status>)
        ensures
            match update_request.name {
                Some(name) => exists|outcome: Result<(), StorageError>| #[trigger]
                    T::updates(*old(db), Pokemon { name, id }, *final(db), outcome) && answer
                        == update_answer(outcome),
                None => *final(db) == *old(db) && exists|outcome: Result<Pokemon, StorageError>|
                    #[trigger] old(db).gets(id, outcome) && answer == update_answer(outcome),
            },
    {
        match update_request.name {
            Some(name) => match update_pokemon(Pokemon { name, id }, db) {
                Ok(()) => Ok(Status::NoContent),
                Err(_) => Err(Status::NotFound),
            },
            None => match get_pokemon(id, db) {
                Ok(_) => Ok(Status::NoContent),
                Err(_) => Err(Status::NotFound),
            },
        }
    }
}

} // verus!
