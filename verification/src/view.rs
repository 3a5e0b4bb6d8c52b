//! What a client of the full variant writes and reads.

use vstd::prelude::*;

pub use crate::models::{Direction, PokemonIndexField, PokemonIndexRequest, PokemonList};

verus! {

/// The body of a request to create a Pokemon.
pub struct PokemonCreate {
    pub name: String,
    pub id: usize,
    pub nick_name: String,
    pub pokemon_type: String,
}

/// The body of a request to update a Pokemon: a field that is present replaces the
/// stored one, a field that is absent leaves it as it is.
pub struct PokemonUpdate {
    pub name: Option<String>,
    pub nick_name: Option<String>,
    pub pokemon_type: Option<String>,
}

impl Default for PokemonUpdate {
    fn default() -> (update: Self)
        ensures
            update.name is None,
            update.nick_name is None,
            update.pokemon_type is None,
    {
        PokemonUpdate { name: None, nick_name: None, pokemon_type: None }
    }
}

/// The body of the answer to a request for one Pokemon.
#[derive(Debug, PartialEq)]
pub struct PokemonShow {
    pub id: usize,
    pub name: String,
    pub nick_name: String,
    pub pokemon_type: String,
}

} // verus!
