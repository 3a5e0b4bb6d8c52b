//! What a client sends and receives, and the parameters of a listing.

use vstd::prelude::*;
use vstd::std_specs::convert::FromSpecImpl;

use crate::business_logic::Pokemon;

verus! {

/// The body of a request to create a Pokemon.
#[derive(Debug)]
pub struct PokemonCreateRequest {
    pub name: String,
    pub id: usize,
}

/// The body of a request to update a Pokemon: only what is present changes.
#[derive(Debug)]
pub struct PokemonUpdateRequest {
    pub name: Option<String>,
}

/// The body of the answer to a request for one Pokemon.
#[derive(Debug, PartialEq)]
pub struct PokemonGetResponse {
    pub name: String,
    pub id: usize,
}

impl From<PokemonCreateRequest> for Pokemon {
    fn from(value: PokemonCreateRequest) -> (pokemon: Pokemon) {
        Pokemon { name: value.name, id: value.id }
    }
}

impl FromSpecImpl<PokemonCreateRequest> for Pokemon {
    open spec fn obeys_from_spec() -> bool {
        true
    }

    open spec fn from_spec(value: PokemonCreateRequest) -> Pokemon {
        value.pokemon()
    }
}

impl PokemonCreateRequest {
    /// The Pokemon that the request asks for.
    pub open spec fn pokemon(self) -> Pokemon {
        Pokemon { name: self.name, id: self.id }
    }
}

impl From<Pokemon> for PokemonGetResponse {
    fn from(p: Pokemon) -> (response: PokemonGetResponse) {
        PokemonGetResponse { name: p.name, id: p.id }
    }
}

impl FromSpecImpl<Pokemon> for PokemonGetResponse {
    open spec fn obeys_from_spec() -> bool {
        true
    }

    open spec fn from_spec(p: Pokemon) -> PokemonGetResponse {
        PokemonGetResponse::showing(p)
    }
}

impl PokemonGetResponse {
    /// The answer that shows `p`.
    pub open spec fn showing(p: Pokemon) -> PokemonGetResponse {
        PokemonGetResponse { name: p.name, id: p.id }
    }
}

/// The field by which a listing is ordered.
#[derive(Debug)]
pub enum PokemonIndexField {
    Name,
    Id,
}

impl Default for PokemonIndexField {
    fn default() -> (field: Self)
        ensures
            field == PokemonIndexField::Name,
    {
        Self::Name
    }
}

/// The direction in which a listing is ordered.
#[derive(Debug)]
pub enum Direction {
    Ascending,
    Descending,
}

impl Default for Direction {
    fn default() -> (direction: Self)
        ensures
            direction == Direction::Ascending,
    {
        Self::Ascending
    }
}

/// The parameters of one listing: its order, and the term that the names must hold.
#[derive(Debug)]
pub struct PokemonIndexRequest {
    pub sort_field: PokemonIndexField,
    pub sort_direction: Direction,
    pub search: String,
}

impl Default for PokemonIndexRequest {
    fn default() -> (request: Self)
        ensures
            request.sort_field == PokemonIndexField::Name,
            request.sort_direction == Direction::Ascending,
            request.search@ == Seq::<char>::empty(),
    {
        PokemonIndexRequest {
            sort_field: PokemonIndexField::Name,
            sort_direction: Direction::Ascending,
            search: String::new(),
        }
    }
}

/// One entry of a listing: what of a Pokemon is shown there.
#[derive(Debug)]
pub struct PokemonList {
    pub name: String,
    pub id: usize,
}

} // verus!
