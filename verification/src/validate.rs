//! The rules that a schema must keep.

pub mod choices;
pub mod compiled;
pub mod complex;
pub mod delimiters;
pub mod groups;
pub mod guarantees;
pub mod hidden;
pub mod indexing;
pub mod peek;
pub mod reach;
pub mod restrictions;
pub mod tunables;
pub mod types;
