use pokemon_store::business_logic::Pokemon;
use pokemon_store::controllers::Controller;
use pokemon_store::key_value_storage::KeyValueStorage;
use pokemon_store::models::{
    PokemonCreateRequest, PokemonGetResponse, PokemonIndexRequest, PokemonList,
    PokemonUpdateRequest,
};
use pokemon_store::status::Status;
use pokemon_store::storage::{Storage, StorageError};

/// A storage that is out of order: whatever it is asked, it fails.
struct BrokenStorage;

impl Storage for BrokenStorage {
    fn store_pokemon(&mut self, _pokemon: Pokemon) -> Result<(), StorageError> {
        Err(StorageError::NotFound)
    }

    fn get_pokemon(&self, _id: usize) -> Result<Pokemon, StorageError> {
        Err(StorageError::NotFound)
    }

    fn delete_pokemon(&mut self, _id: usize) -> Result<(), StorageError> {
        Err(StorageError::NotFound)
    }

    fn update_pokemon(&mut self, _pokemon: Pokemon) -> Result<(), StorageError> {
        Err(StorageError::NotFound)
    }

    fn index_pokemons(
        &self,
        _index_request: PokemonIndexRequest,
    ) -> Result<Vec<PokemonList>, StorageError> {
        Err(StorageError::NotFound)
    }
}

fn storage_with_glumanda() -> KeyValueStorage {
    let mut storage = KeyValueStorage::new();
    storage.store_pokemon(Pokemon { name: "Glumanda".to_string(), id: 6 }).unwrap();
    storage
}

#[test]
fn controller_create_stores_the_pokemon_and_answers_ok() {
    let mut storage = KeyValueStorage::new();

    let status = Controller::create_pokemon(
        &mut storage,
        PokemonCreateRequest { name: "Glumanda".to_string(), id: 6 },
    );

    assert_eq!(status, Status::Success);
    assert_eq!(status.code(), 200);
    assert_eq!(storage.get_pokemon(6), Ok(Pokemon { name: "Glumanda".to_string(), id: 6 }));
}

#[test]
fn controller_create_answers_server_error_when_the_storage_fails() {
    let mut storage = BrokenStorage;

    let status = Controller::create_pokemon(
        &mut storage,
        PokemonCreateRequest { name: "Glumanda".to_string(), id: 6 },
    );

    assert_eq!(status, Status::InternalServerError);
    assert_eq!(status.code(), 500);
}

#[test]
fn controller_get_answers_with_the_stored_pokemon() {
    let storage = storage_with_glumanda();

    let answer = Controller::get_pokemon(&storage, 6);

    assert_eq!(answer, Ok(PokemonGetResponse { name: "Glumanda".to_string(), id: 6 }));
}

#[test]
fn controller_get_answers_not_found_for_a_missing_id() {
    let storage = storage_with_glumanda();

    let answer = Controller::get_pokemon(&storage, 7);

    assert_eq!(answer, Err(Status::NotFound));
}

#[test]
fn controller_delete_answers_no_content_whether_or_not_the_id_was_there() {
    let mut storage = storage_with_glumanda();

    assert_eq!(Controller::delete_pokemon(&mut storage, 6), Ok(Status::NoContent));
    assert_eq!(storage.get_pokemon(6), Err(StorageError::NotFound));
    assert_eq!(Controller::delete_pokemon(&mut storage, 6), Ok(Status::NoContent));
}

#[test]
fn controller_delete_answers_server_error_when_the_storage_fails() {
    let mut storage = BrokenStorage;

    assert_eq!(Controller::delete_pokemon(&mut storage, 6), Err(Status::InternalServerError));
}

#[test]
fn controller_update_with_a_name_renames_the_pokemon() {
    let mut storage = storage_with_glumanda();

    let answer = Controller::update_pokemon(
        &mut storage,
        6,
        PokemonUpdateRequest { name: Some("LittleFirePokemon".to_string()) },
    );

    assert_eq!(answer, Ok(Status::NoContent));
    assert_eq!(
        storage.get_pokemon(6),
        Ok(Pokemon { name: "LittleFirePokemon".to_string(), id: 6 })
    );
}

#[test]
fn controller_update_without_a_name_changes_nothing() {
    let mut storage = storage_with_glumanda();

    let answer = Controller::update_pokemon(&mut storage, 6, PokemonUpdateRequest { name: None });

    assert_eq!(answer, Ok(Status::NoContent));
    assert_eq!(storage.get_pokemon(6), Ok(Pokemon { name: "Glumanda".to_string(), id: 6 }));
}

#[test]
fn controller_update_of_a_missing_id_answers_not_found() {
    let mut storage = storage_with_glumanda();

    let with_name = Controller::update_pokemon(
        &mut storage,
        7,
        PokemonUpdateRequest { name: Some("Pika".to_string()) },
    );
    let without_name =
        Controller::update_pokemon(&mut storage, 7, PokemonUpdateRequest { name: None });

    assert_eq!(with_name, Err(Status::NotFound));
    assert_eq!(without_name, Err(Status::NotFound));
    assert_eq!(storage.inner().len(), 1);
    assert_eq!(storage.get_pokemon(6), Ok(Pokemon { name: "Glumanda".to_string(), id: 6 }));
}
