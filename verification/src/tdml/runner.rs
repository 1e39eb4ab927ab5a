//! Running the tests of a suite: what to do next, and what a test comes to.

pub mod common;
pub mod parser;
pub mod unparser;
