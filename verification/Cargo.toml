[package]
name = "pokemon_store"
version = "0.1.0"
edition = "2021"
publish = false

[dependencies]
axum = "0.6"
axum-macros = "0.3"
serde = { version = "1", features = ["derive"] }
tokio = { version = "1", features = ["macros", "rt-multi-thread"] }
