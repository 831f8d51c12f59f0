//! Core of a terminal mixer for several audio streams: configuration,
//! saved state, the mixer's volume and connection bookkeeping, the key
//! handling of the console front end and the rows it draws.

pub mod config;
pub mod state;
pub mod mixer;
pub mod keys;
pub mod screen;
pub mod laws;
pub mod behaviour;
pub mod screen_laws;
