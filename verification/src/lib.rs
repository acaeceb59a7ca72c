//! Persistence and synchronization layer for tabletop-RPG character sheets.
//!
//! The crate owns a SQLite-backed store of three relations (characters,
//! object definitions, character-object ownership) and implements a
//! read-modify-merge-write protocol for partial updates to a character's
//! free-form JSON document.  Inbound update requests are validated
//! before any storage access; all storage operations are expressed against a
//! mathematical model of the three relations, so that uniqueness, referential
//! integrity and the merge semantics are stated and checked.

pub mod character;
pub mod database;
pub mod document;
pub mod economy;
pub mod encode;
pub mod handlers;
pub mod models;
pub mod strutil;
pub mod upsert;
