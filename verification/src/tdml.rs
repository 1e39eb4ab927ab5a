//! Reading and running TDML test suites.

pub mod bits;
pub mod compare;
pub mod contents;
pub mod document;
pub mod infoset;
pub mod infoset_values;
pub mod parser;
pub mod resources;
pub mod runner;
pub mod showing;
pub mod suite;
pub mod validation;
