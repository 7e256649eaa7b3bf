//! Indexing of chat rooms and messages as vertices, properties and edges of a
//! graph store.
//!
//! The crate holds the decisions of the ingestion pipeline: which internal id
//! an external id maps to, which mutation items stand for a room or an event,
//! when a buffer of items is due for submission, and when connecting to the
//! store is retried or given up. Talking to the chat server and to the store
//! is left to the program that drives these functions.

pub mod config;
pub mod entities;
pub mod identifier;
pub mod ids;
pub mod inserter;
pub mod items;
pub mod links;
pub mod messages;
pub mod pending;
pub mod processing;
pub mod retry;
pub mod schema;
pub mod text;
pub mod worker;
