//! A shared drawing canvas kept in sync between several clients.
//!
//! Clients push the lines they draw and the ids they delete; a server folds
//! them into one canonical collection, owes every other client the changed
//! ids, and hands each client the canonical lines scaled to its own canvas.
pub mod canvas;
pub mod config;
pub mod geometry;
pub mod laws;
pub mod line;
pub mod lines;
pub mod sync;
