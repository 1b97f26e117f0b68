//! Declared vocabularies: closed sets of names this framework owns, the walk that dispatches on
//! them, and the readers generated per grammar node.

pub mod walk;
pub mod names;
pub mod flags;
pub mod leaves;
pub mod lists;
pub mod variants;
