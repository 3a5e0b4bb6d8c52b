use pokemon_store::business_logic::{
    create_pokemon, delete_pokemon, get_pokemon, into_business_result, update_pokemon,
    BusinessError, Pokemon,
};
use pokemon_store::models::{PokemonIndexRequest, PokemonList};
use pokemon_store::storage::{Storage, StorageError};

/// A storage that keeps nothing: it answers as it was told to, and notes each call.
struct ScriptedStorage {
    fails: bool,
    kept: Option<Pokemon>,
    stored: Vec<Pokemon>,
    deleted: Vec<usize>,
    updated: Vec<Pokemon>,
}

impl ScriptedStorage {
    fn succeeding() -> Self {
        ScriptedStorage {
            fails: false,
            kept: None,
            stored: Vec::new(),
            deleted: Vec::new(),
            updated: Vec::new(),
        }
    }

    fn failing() -> Self {
        ScriptedStorage { fails: true, ..ScriptedStorage::succeeding() }
    }

    fn keeping(pokemon: Pokemon) -> Self {
        ScriptedStorage { kept: Some(pokemon), ..ScriptedStorage::succeeding() }
    }

    fn answer(&self) -> Result<(), StorageError> {
        if self.fails {
            Err(StorageError::NotFound)
        } else {
            Ok(())
        }
    }
}

impl Storage for ScriptedStorage {
    fn store_pokemon(&mut self, pokemon: Pokemon) -> Result<(), StorageError> {
        self.stored.push(pokemon);
        self.answer()
    }

    fn get_pokemon(&self, _id: usize) -> Result<Pokemon, StorageError> {
        match &self.kept {
            Some(pokemon) => Ok(pokemon.clone()),
            None => Err(StorageError::NotFound),
        }
    }

    fn delete_pokemon(&mut self, id: usize) -> Result<(), StorageError> {
        self.deleted.push(id);
        self.answer()
    }

    fn update_pokemon(&mut self, pokemon: Pokemon) -> Result<(), StorageError> {
        self.updated.push(pokemon);
        self.answer()
    }

    fn index_pokemons(
        &self,
        _index_request: PokemonIndexRequest,
    ) -> Result<Vec<PokemonList>, StorageError> {
        Ok(Vec::new())
    }
}

/// A storage that notes the ids it was asked for.
struct AskedStorage {
    kept: Pokemon,
    asked: std::cell::RefCell<Vec<usize>>,
}

impl Storage for AskedStorage {
    fn store_pokemon(&mut self, _pokemon: Pokemon) -> Result<(), StorageError> {
        panic!("store_pokemon was not expected")
    }

    fn get_pokemon(&self, id: usize) -> Result<Pokemon, StorageError> {
        self.asked.borrow_mut().push(id);
        Ok(self.kept.clone())
    }

    fn delete_pokemon(&mut self, _id: usize) -> Result<(), StorageError> {
        panic!("delete_pokemon was not expected")
    }

    fn update_pokemon(&mut self, _pokemon: Pokemon) -> Result<(), StorageError> {
        panic!("update_pokemon was not expected")
    }

    fn index_pokemons(
        &self,
        _index_request: PokemonIndexRequest,
    ) -> Result<Vec<PokemonList>, StorageError> {
        panic!("index_pokemons was not expected")
    }
}

#[test]
fn create_pokemon_given_valid_pokemon_when_called_with_pokemon_then_stores_pokemon_in_storage() {
    // given
    let pokemon = Pokemon { name: String::from("Pikachu"), id: 24usize };
    let mut storage = ScriptedStorage::succeeding();

    // when
    let result = create_pokemon(pokemon.clone(), &mut storage);

    // then
    assert!(result.is_ok());
    assert_eq!(storage.stored, vec![pokemon]);
    assert!(storage.updated.is_empty());
    assert!(storage.deleted.is_empty());
}

#[test]
fn get_pokemon_given_id_when_called_with_ok_mock_then_returns_pokemon() {
    // given
    let id = 6;
    let expected_pokemon = Pokemon { name: "Glumanda".to_string(), id: 6 };
    let storage = AskedStorage { kept: expected_pokemon, asked: std::cell::RefCell::new(Vec::new()) };

    // when
    let result = get_pokemon(6, &storage);

    // then
    assert!(result.is_ok());
    assert_eq!(result.unwrap(), Pokemon { name: "Glumanda".to_string(), id: 6 });
    assert_eq!(*storage.asked.borrow(), vec![id]);
}

#[test]
fn delete_pokemon_given_pokemon_when_called_with_id_then_returns_ok() {
    // given
    let id = 6;
    let mut storage = ScriptedStorage::succeeding();

    // when
    let result = delete_pokemon(6, &mut storage);

    // then
    assert!(result.is_ok());
    assert_eq!(storage.deleted, vec![id]);
}

#[test]
fn update_pokemon_given_bad_mock_when_called_then_returns_not_found() {
    // given
    let mut storage = ScriptedStorage::failing();

    // when
    let result = update_pokemon(Pokemon { name: "Pika".to_string(), id: 24 }, &mut storage);

    // then
    assert!(result.is_err());
    assert_eq!(result.unwrap_err(), BusinessError::NotFound);
    assert_eq!(storage.updated.len(), 1);
}

#[test]
fn update_pokemon_given_good_mock_when_called_then_returns_ok() {
    // given
    let mut storage = ScriptedStorage::succeeding();

    // when
    let result = update_pokemon(Pokemon { name: "Pika".to_string(), id: 24 }, &mut storage);

    // then
    assert!(result.is_ok());
    assert_eq!(storage.updated, vec![Pokemon { name: "Pika".to_string(), id: 24 }]);
}

#[test]
fn create_pokemon_reports_a_failing_storage_as_not_found() {
    let mut storage = ScriptedStorage::failing();

    let result = create_pokemon(Pokemon { name: "Pika".to_string(), id: 24 }, &mut storage);

    assert_eq!(result, Err(BusinessError::NotFound));
    assert_eq!(storage.stored.len(), 1);
}

#[test]
fn delete_pokemon_reports_a_failing_storage_as_not_found() {
    let mut storage = ScriptedStorage::failing();

    let result = delete_pokemon(24, &mut storage);

    assert_eq!(result, Err(BusinessError::NotFound));
    assert_eq!(storage.deleted, vec![24]);
}

#[test]
fn get_pokemon_reports_a_missing_pokemon_as_not_found() {
    let storage = ScriptedStorage::succeeding();

    let result = get_pokemon(24, &storage);

    assert_eq!(result, Err(BusinessError::NotFound));
}

#[test]
fn get_pokemon_hands_on_what_the_storage_keeps() {
    let storage = ScriptedStorage::keeping(Pokemon { name: "Pika".to_string(), id: 24 });

    let result = get_pokemon(24, &storage);

    assert_eq!(result, Ok(Pokemon { name: "Pika".to_string(), id: 24 }));
}

#[test]
fn into_business_result_keeps_a_success_and_renames_a_failure() {
    assert_eq!(into_business_result(Ok::<usize, StorageError>(7)), Ok(7));
    assert_eq!(
        into_business_result(Err::<usize, StorageError>(StorageError::NotFound)),
        Err(BusinessError::NotFound)
    );
    assert_eq!(BusinessError::from(StorageError::NotFound), BusinessError::NotFound);
}

#[test]
fn pokemon_clone_is_equal_to_the_pokemon() {
    let pokemon = Pokemon { name: "Bisasam".to_string(), id: 1 };

    assert_eq!(pokemon.clone(), pokemon);
}
