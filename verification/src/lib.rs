//! The rules of a notes service: what it accepts, stores, caches and answers.
//!
//! The library decides; it does no I/O. It takes requests, rows and cached texts as plain
//! values, and returns what to store, what to cache and what to reply.
pub mod ask;
pub mod cache;
pub mod config;
pub mod create;
pub mod hex;
pub mod http;
pub mod ids;
pub mod list;
pub mod note;
pub mod ping;
pub mod search;
pub mod server;
pub mod status;
pub mod store;
pub mod text;
pub mod time;
pub mod upload;
