//! Server artifacts that are identified by version: the version model and
//! its text, the index of the cache and its document, the units that bring
//! cached artifacts up to date, and the command that starts a server.
//!
//! The library decides and computes; it reads no file and opens no
//! connection. Callers hand it what they read and carry out what it returns.

pub mod errors;
pub mod text;
pub mod paths;
pub mod document;
pub mod config;
pub mod cacher;
pub mod paper_api;
pub mod server_kinds;
pub mod servers;
pub mod refresh;
pub mod actions;
pub mod routes;
