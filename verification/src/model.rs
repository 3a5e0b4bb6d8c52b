//! The record of the full variant: a Pokemon with its type and its nickname.

use vstd::prelude::*;
use vstd::std_specs::convert::FromSpecImpl;

use crate::query::Named;
use crate::view::{PokemonCreate, PokemonShow, PokemonUpdate};

verus! {

/// What an operation on the records can fail with.
#[derive(Debug, PartialEq)]
pub enum PokemonError {
    NotFound,
}

/// A Pokemon: its display name, the number by which it is stored and found, its
/// type and its nickname. A Pokemon without type or nickname has the empty string there.
#[derive(Debug, PartialEq)]
pub struct Pokemon {
    pub name: String,
    pub number: usize,
    pub pokemon_type: String,
    pub nick_name: String,
}

impl Clone for Pokemon {
    fn clone(&self) -> (copy: Self)
        ensures
            copy == *self,
    {
        Pokemon {
            name: self.name.clone(),
            number: self.number,
            pokemon_type: self.pokemon_type.clone(),
            nick_name: self.nick_name.clone(),
        }
    }
}

impl Named for Pokemon {
    open spec fn shown_name(&self) -> Seq<char> {
        self.name@
    }

    fn name(&self) -> (name: &String) {
        &self.name
    }
}

impl From<PokemonCreate> for Pokemon {
    fn from(value: PokemonCreate) -> (pokemon: Pokemon) {
        Pokemon {
            name: value.name,
            number: value.id,
            pokemon_type: value.pokemon_type,
            nick_name: value.nick_name,
        }
    }
}

impl FromSpecImpl<PokemonCreate> for Pokemon {
    open spec fn obeys_from_spec() -> bool {
        true
    }

    open spec fn from_spec(value: PokemonCreate) -> Pokemon {
        value.pokemon()
    }
}

impl PokemonCreate {
    /// The Pokemon that the request asks for.
    pub open spec fn pokemon(self) -> Pokemon {
        Pokemon {
            name: self.name,
            number: self.id,
            pokemon_type: self.pokemon_type,
            nick_name: self.nick_name,
        }
    }
}

impl From<&Pokemon> for PokemonShow {
    fn from(p: &Pokemon) -> (shown: PokemonShow) {
        PokemonShow {
            name: p.name.clone(),
            nick_name: p.nick_name.clone(),
            id: p.number,
            pokemon_type: p.pokemon_type.clone(),
        }
    }
}

impl FromSpecImpl<&Pokemon> for PokemonShow {
    open spec fn obeys_from_spec() -> bool {
        true
    }

    open spec fn from_spec(p: &Pokemon) -> PokemonShow {
        PokemonShow::showing(*p)
    }
}

impl PokemonShow {
    /// The answer that shows `p`.
    pub open spec fn showing(p: Pokemon) -> PokemonShow {
        PokemonShow {
            name: p.name,
            nick_name: p.nick_name,
            id: p.number,
            pokemon_type: p.pokemon_type,
        }
    }
}

impl Pokemon {
    /// The Pokemon after `update`: each field that `update` holds is taken from it,
    /// each field that it leaves out stays. The number never changes.
    pub open spec fn patched(self, update: PokemonUpdate) -> Pokemon {
        Pokemon {
            name: match update.name {
                Some(name) => name,
                None => self.name,
            },
            number: self.number,
            pokemon_type: match update.pokemon_type {
                Some(pokemon_type) => pokemon_type,
                None => self.pokemon_type,
            },
            nick_name: match update.nick_name {
                Some(nick_name) => nick_name,
                None => self.nick_name,
            },
        }
    }

    /// Applies `update` to the Pokemon.
    pub fn patch(&self, update: PokemonUpdate) -> (patched: Pokemon)
        ensures
            patched == self.patched(update),
    {
        Pokemon {
            name: match update.name {
                Some(name) => name,
                None => self.name.clone(),
            },
            number: self.number,
            pokemon_type: match update.pokemon_type {
                Some(pokemon_type) => pokemon_type,
                None => self.pokemon_type.clone(),
            },
            nick_name: match update.nick_name {
                Some(nick_name) => nick_name,
                None => self.nick_name.clone(),
            },
        }
    }
}

} // verus!
