//! Rotating "bird of the hour" catalog: a locale-merged catalog of bird
//! records, a deterministic windowed selector over it, the freshness of a
//! selection, and the token check that guards gated image sets.
pub mod auth;
pub mod bird;
pub mod catalog;
pub mod config;
pub mod rotation;
pub mod service;
