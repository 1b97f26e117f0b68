//! Attribute-grammar plumbing for procedural macros, with its logic verified.

pub mod text;
pub mod node;
pub mod tokens;
pub mod meta;
pub mod extractor;
pub mod render;
pub mod vocab;
pub mod derive;
pub mod case;
pub mod processor;
pub mod generator;
pub mod base;
pub mod resolution;
