//! The configuration model, its ordered maps, and the rules for reading the
//! configuration hierarchy.
pub mod loader;
pub mod maps;
pub mod types;
