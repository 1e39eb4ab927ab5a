//! Reading schemas.

pub mod annotation;
pub mod appinfo;
pub mod checks;
pub mod combine;
pub mod content;
pub mod document;
pub mod facets;
pub mod globals;
pub mod layers;
pub mod markup;
pub mod nodes;
pub mod outline;
pub mod particles;
pub mod schema_outline;
pub mod simple;
pub mod simple_outline;
pub mod state;
