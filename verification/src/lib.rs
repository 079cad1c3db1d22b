//! Core coordination plane of a distributed entity-component-system game
//! runtime.
//!
//! The runtime partitions a game world into shards, keeps per-entity
//! component values in a key-value store, and dispatches frames of work to
//! registered systems at their preferred frame rates.  External clients
//! speak a resource-oriented protocol whose requests arrive as broker
//! messages; every service here is a handler from the store state and one
//! message to the new store state and a list of publications.
//!
//! The message broker and the durable key-value store are outside
//! collaborators: an embedding binary receives deliveries, calls these
//! handlers, and performs the publications they return.

pub mod components;
pub mod gameloop;
pub mod json;
pub mod keys;
pub mod laws;
pub mod rest;
pub mod shards;
pub mod store;
pub mod subject;
pub mod systems;
pub mod text;
pub mod timer;
pub mod types;
