//! The two external settlement processors: their identities, the shapes
//! exchanged with them, and the interpretation of their answers.

pub mod service;
pub mod structs;
