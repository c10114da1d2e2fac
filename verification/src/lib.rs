//! Verified core of a chat backend: request validation, error mapping,
//! provider stream decoding and the streaming turn protocol.
pub mod config;
pub mod db;
pub mod error;
pub mod models;
pub mod openrouter;
pub mod routes;
pub mod text;
