//! An in-memory store of Pokemon records, with the query engine that lists them.
//!
//! The records live in a hash map under their id. There are two variants of the
//! service. The key-value variant keeps a name under each id and reaches its records
//! through [`storage::Storage`], of which [`key_value_storage::KeyValueStorage`] is
//! the storage in memory; [`business_logic`] holds its operations and [`controllers`]
//! its handlers. The full variant keeps type and nickname too, and works on the map
//! itself: [`controller`] holds its operations. Both list their records through
//! [`query`].
//!
//! Two things are as they are on purpose:
//!
//! - Creating a Pokemon under an id that is in use replaces what stood there. It is
//!   no error.
//! - A listing by id is not sorted by id. It shows the records in the order in which
//!   the map hands them out, and `Descending` turns that order round. Only a listing
//!   by name is sorted: by the bytes of the names, and stable.
//!
//! No operation waits or does I/O. Whoever shares a store between threads puts it
//! behind one lock and holds the lock for the length of one operation; [`laws`]
//! states what then holds of the store in whatever order the operations come.

pub mod business_logic;
pub mod controller;
pub mod controllers;
pub mod key_value_storage;
pub mod laws;
pub mod model;
pub mod models;
pub mod query;
pub mod status;
pub mod storage;
pub mod text;
pub mod view;
