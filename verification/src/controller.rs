//! The operations of the full variant, on a map from number to Pokemon.
//!
//! A handler takes the map out of the shared state, calls one of these, and sends the
//! answer; nothing here waits or does I/O.

use std::collections::HashMap;
use vstd::prelude::*;

use crate::model::{Pokemon, PokemonError};
use crate::query::{index, is_index};
use crate::status::Status;
use crate::view::{PokemonCreate, PokemonIndexRequest, PokemonList, PokemonShow, PokemonUpdate};

verus! {

/// The records after the Pokemon of `request` was created: it stands under its id,
/// in place of what stood there; nothing else has changed.
pub open spec fn created(
    records: Map<usize, Pokemon>,
    request: PokemonCreate,
) -> Map<usize, Pokemon> {
    records.insert(request.id, request.pokemon())
}

/// What a request for the Pokemon under `id` is answered with.
pub open spec fn shown(records: Map<usize, Pokemon>, id: usize) -> Result<PokemonShow, Status> {
    if records.contains_key(id) {
        Ok(PokemonShow::showing(records[id]))
    } else {
        Err(Status::NotFound)
    }
}

/// The records after what stood under `id` was deleted. Where nothing stood there,
/// these are the records as they were.
pub open spec fn removed(records: Map<usize, Pokemon>, id: usize) -> Map<usize, Pokemon> {
    records.remove(id)
}

/// The records after `update` was applied to the Pokemon under `id`. Where nothing
/// stands under `id`, nothing changes.
pub open spec fn patched(
    records: Map<usize, Pokemon>,
    id: usize,
    update: PokemonUpdate,
) -> Map<usize, Pokemon> {
    if records.contains_key(id) {
        records.insert(id, records[id].patched(update))
    } else {
        records
    }
}

/// What a request that changes the Pokemon under `id` is answered with.
pub open spec fn change_status(records: Map<usize, Pokemon>, id: usize) -> Result<Status, Status> {
    if records.contains_key(id) {
        Ok(Status::NoContent)
    } else {
        Err(Status::NotFound)
    }
}

/// Creates the Pokemon of the request. One that stands under the same id is replaced.
pub fn create_pokemon(
    db: &mut HashMap<usize, Pokemon>,
    pokemon_create_request: PokemonCreate,
) -> (status: Status)
    ensures
        final(db)@ == created(old(db)@, pokemon_create_request),
        status == Status::Created,
{
    broadcast use vstd::std_specs::hash::group_hash_axioms;

    let pokemon: Pokemon = Pokemon::from(pokemon_create_request);
    db.insert(pokemon.number, pokemon);
    Status::Created
}

/// Lists the Pokemon as the request says.
pub fn list_pokemon(
    db: HashMap<usize, Pokemon>,
    index_request: PokemonIndexRequest,
) -> (listing: Vec<PokemonList>)
    ensures
        is_index(db@, index_request, listing@),
{
    match index_pokemons(db, index_request) {
        Ok(listing) => listing,
        Err(_) => Vec::new(),
    }
}

/// Shows the Pokemon under `id`.
pub fn show_pokemon(
    db: &HashMap<usize, Pokemon>,
    id: usize,
) -> (answer: Result<PokemonShow, Status>)
    ensures
        answer == shown(db@, id),
{
    broadcast use vstd::std_specs::hash::group_hash_axioms;

    match db.get(&id) {
        Some(pokemon) => Ok(PokemonShow::from(pokemon)),
        None => Err(Status::NotFound),
    }
}

/// Deletes the Pokemon under `id`, and says whether there was one.
pub fn delete_pokemon(
    db: &mut HashMap<usize, Pokemon>,
    id: usize,
) -> (answer: Result<Status, Status>)
    ensures
        final(db)@ == removed(old(db)@, id),
        answer == change_status(old(db)@, id),
{
    broadcast use vstd::std_specs::hash::group_hash_axioms;

    match db.remove(&id) {
        Some(_) => Ok(Status::NoContent),
        None => Err(Status::NotFound),
    }
}

/// Applies the update to the Pokemon under `id`.
pub fn update_pokemon(
    db: &mut HashMap<usize, Pokemon>,
    id: usize,
    update_request: PokemonUpdate,
) -> (answer: Result<Status, Status>)
    ensures
        final(db)@ == patched(old(db)@, id, update_request),
        answer == change_status(old(db)@, id),
{
    broadcast use vstd::std_specs::hash::group_hash_axioms;

    match db.get(&id) {
        Some(pokemon) => {
            let patched = pokemon.patch(update_request);
            db.insert(id, patched);
            Ok(Status::NoContent)
        },
        None => Err(Status::NotFound),
    }
}

/// Lists the Pokemon of `db`: sorted as the request says, then searched.
pub fn index_pokemons(
    db: HashMap<usize, Pokemon>,
    index_request: PokemonIndexRequest,
) -> (result: Result<Vec<PokemonList>, PokemonError>)
    ensures
        result is Ok,
        is_index(db@, index_request, result->Ok_0@),
{
    Ok(index(&db, &index_request))
}

} // verus!
