//! A small record-keeping library for Pokemon: validated value types, the
//! entity built from them, a storage abstraction with an in-memory backend, and the
//! use cases that create and list records.

pub mod entities;
pub mod repository;
pub mod create_pokemon;
pub mod fetch_all_pokemons;
